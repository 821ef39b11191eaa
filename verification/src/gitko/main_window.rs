//! The main window: the status of the work tree and the recent commits, and
//! the keys that act on the file under the cursor.
use std::collections::HashMap;
use vstd::prelude::*;
use vstd::string::*;
use crate::ascii_table::{
    KEY_B_LOWER, KEY_COLON, KEY_C_LOWER, KEY_LF, KEY_L_LOWER, KEY_T_LOWER, KEY_U_LOWER, KEY_Y_LOWER,
};
use crate::git::{
    self, FileState, Git, Runs, add_args, checkout_args, file_state_of, has_status_code, lemma_two_runs,
    log_args, ran_exactly, reset_args, run_args, run_output, status_args, status_code_len, trimmed,
};
use crate::text::lines_of;
use crate::gitko::diff_window::DiffWindow;
use crate::render::{Position, ScreenSize, Window};

verus! {

/// A status line of an untracked file (`??`).
pub open spec fn is_untracked_line(line: Seq<char>) -> bool {
    line.len() >= 2 && line[0] == '?' && line[1] == '?'
}

/// A status line of a file deleted in the work tree (` D`).
pub open spec fn is_deleted_line(line: Seq<char>) -> bool {
    line.len() >= 2 && line[0] == ' ' && line[1] == 'D'
}

/// A status line of a file with unstaged changes (` M` or `MM`).
pub open spec fn is_unstaged_line(line: Seq<char>) -> bool {
    line.len() >= 2 && ((line[0] == ' ' && line[1] == 'M') || (line[0] == 'M' && line[1] == 'M'))
}

/// A status line of a file with staged changes (`M`, `A` or `D` first).
pub open spec fn is_staged_line(line: Seq<char>) -> bool {
    line.len() >= 1 && (line[0] == 'M' || line[0] == 'A' || line[0] == 'D')
}

/// The untracked files among the status lines, in their order.
pub open spec fn untracked_lines(status: Seq<Seq<char>>) -> Seq<Seq<char>> {
    status.filter(|line: Seq<char>| is_untracked_line(line))
}

/// The deleted files among the status lines, in their order.
pub open spec fn deleted_lines(status: Seq<Seq<char>>) -> Seq<Seq<char>> {
    status.filter(|line: Seq<char>| is_deleted_line(line))
}

/// The files with unstaged changes among the status lines, in their order.
pub open spec fn unstaged_lines(status: Seq<Seq<char>>) -> Seq<Seq<char>> {
    status.filter(|line: Seq<char>| is_unstaged_line(line))
}

/// The files with staged changes among the status lines, in their order.
pub open spec fn staged_lines(status: Seq<Seq<char>>) -> Seq<Seq<char>> {
    status.filter(|line: Seq<char>| is_staged_line(line))
}

/// The number of section headings the status screen may show.
pub const SECTIONS_COUNT: usize = 4;

/// The number of empty lines between the status and the recent commits.
pub const LINES_BETWEEN: usize = 5;

/// The number of lines that status lines in `status` use on the screen, by
/// the main window's count: one for each line in a section (a line may be
/// in two), one for each possible heading, and the empty lines before the
/// recent commits.
pub open spec fn used_lines(status: Seq<Seq<char>>) -> nat {
    (untracked_lines(status).len() + deleted_lines(status).len() + unstaged_lines(status).len()
        + staged_lines(status).len() + SECTIONS_COUNT + LINES_BETWEEN) as nat
}

/// The number of recent commits that a window of `height` lines asks git
/// for where the status uses `used` lines: the height less twice the lines
/// used, less one. The arithmetic is that of 32-bit integers, which wrap: a
/// window too small asks for a count near 2^32.
pub open spec fn commits_count_for(height: i32, used: nat) -> u32 {
    (height - 2 * (used as i32) - 1) as u32
}

/// The number of recent commits the main window asks git for, given the
/// status lines `status`.
pub open spec fn recent_commits_count(height: i32, status: Seq<Seq<char>>) -> u32 {
    commits_count_for(height, used_lines(status))
}

/// `lines` under the heading `title`, then an empty line; nothing where
/// there are no lines.
pub open spec fn section(title: Seq<char>, lines: Seq<Seq<char>>) -> Seq<Seq<char>> {
    if lines.len() == 0 {
        seq![]
    } else {
        seq![title] + lines + seq![Seq::<char>::empty()]
    }
}

/// The `count` empty lines.
pub open spec fn blank_lines(count: nat) -> Seq<Seq<char>> {
    Seq::new(count, |i: int| Seq::<char>::empty())
}

/// What the main window shows for the files `added`, `deleted`, `unstaged`
/// and `staged` and the lines `recent` of the commit log: "No changes found"
/// where there are no files; the untracked, deleted, modified and staged
/// files, each section under its heading; then, where there are recent
/// commits, five empty lines, "Recent commits:" and the commits. Were all
/// that empty, "No changes found." alone.
pub open spec fn screen_of_sections(
    added: Seq<Seq<char>>,
    deleted: Seq<Seq<char>>,
    unstaged: Seq<Seq<char>>,
    staged: Seq<Seq<char>>,
    recent: Seq<Seq<char>>,
) -> Seq<Seq<char>> {
    let none = if added.len() == 0 && deleted.len() == 0 && unstaged.len() == 0 && staged.len()
        == 0 {
        seq!["No changes found"@]
    } else {
        seq![]
    };
    let staged_section = if staged.len() == 0 {
        seq![]
    } else {
        seq!["Staged files:"@] + staged
    };
    let commits = if recent.len() == 0 {
        seq![]
    } else {
        blank_lines(LINES_BETWEEN as nat) + seq!["Recent commits:"@] + recent
    };
    let shown = none + section("Untracked files:"@, added) + section("Deleted files:"@, deleted)
        + section("Modified files:"@, unstaged) + staged_section + commits;
    if shown.len() == 0 {
        seq!["No changes found."@]
    } else {
        shown
    }
}

/// What the main window shows for the status lines `status` and the lines
/// `recent` of the commit log: the status lines by section
/// (`screen_of_sections`).
pub open spec fn status_screen(status: Seq<Seq<char>>, recent: Seq<Seq<char>>) -> Seq<Seq<char>> {
    screen_of_sections(
        untracked_lines(status),
        deleted_lines(status),
        unstaged_lines(status),
        staged_lines(status),
        recent,
    )
}

/// After the runs `before`, git ran exactly twice, making the runs `after`:
/// first as `git status -s`, then as `git log` for as many recent commits as
/// a window of `height` lines has room for beside that status; `data` is
/// what the main window shows for the two answers.
pub open spec fn shows_status(before: Runs, after: Runs, height: i32, data: Seq<Seq<char>>) -> bool {
    let status = lines_of(run_output(after, before.len() as int));
    let recent = lines_of(run_output(after, (before.len() + 1) as int));
    &&& ran_exactly(
        before,
        after,
        seq![status_args(), log_args(Some(recent_commits_count(height, status)))],
    )
    &&& data == status_screen(status, recent)
}

/// The sections agree with the states the handlers read off a line: an
/// untracked line reads as `Untracked`, a deleted one as `Deleted`, one with
/// unstaged changes as `Modified`; a line of the staged section reads as
/// `Staged` unless its second letter is `M` (then `Modified`) or its first is
/// `D` (then `Deleted`).
pub proof fn lemma_section_states(line: Seq<char>)
    requires
        line.len() >= 2,
    ensures
        is_untracked_line(line) ==> file_state_of(line[0], line[1]) == FileState::Untracked,
        is_deleted_line(line) ==> file_state_of(line[0], line[1]) == FileState::Deleted,
        is_unstaged_line(line) ==> file_state_of(line[0], line[1]) == FileState::Modified,
        is_staged_line(line) ==> file_state_of(line[0], line[1]) == (if line[1] == 'M' {
            FileState::Modified
        } else if line[0] == 'D' {
            FileState::Deleted
        } else {
            FileState::Staged
        }),
{
}

/// The status screen is never empty, and it starts with "No changes found"
/// exactly when no status line falls in a section; so the last resort
/// "No changes found." is never shown.
pub proof fn lemma_status_screen_shape(status: Seq<Seq<char>>, recent: Seq<Seq<char>>)
    ensures
        status_screen(status, recent).len() >= 1,
        status_screen(status, recent)[0] == "No changes found"@ <==> (untracked_lines(status).len()
            == 0 && deleted_lines(status).len() == 0 && unstaged_lines(status).len() == 0
            && staged_lines(status).len() == 0),
        status_screen(status, recent)[0] != "No changes found."@,
{
    reveal_strlit("No changes found");
    reveal_strlit("No changes found.");
    reveal_strlit("Untracked files:");
    reveal_strlit("Deleted files:");
    reveal_strlit("Modified files:");
    reveal_strlit("Staged files:");
    let added = untracked_lines(status);
    let deleted = deleted_lines(status);
    let unstaged = unstaged_lines(status);
    let staged = staged_lines(status);
    let screen = status_screen(status, recent);
    if added.len() == 0 && deleted.len() == 0 && unstaged.len() == 0 && staged.len() == 0 {
        assert(screen[0] == "No changes found"@);
    } else if added.len() > 0 {
        assert(screen[0] == "Untracked files:"@);
        assert(screen[0][0] == 'U');
    } else if deleted.len() > 0 {
        assert(screen[0] == "Deleted files:"@);
        assert(screen[0][0] == 'D');
    } else if unstaged.len() > 0 {
        assert(screen[0] == "Modified files:"@);
        assert(screen[0][0] == 'M');
    } else {
        assert(screen[0] == "Staged files:"@);
        assert(screen[0][0] == 'S');
    }
    assert("No changes found"@[0] == 'N');
}

/// `screen` shows the heading `title` with `lines` right under it, in their
/// order.
pub open spec fn lists_under(screen: Seq<Seq<char>>, title: Seq<char>, lines: Seq<Seq<char>>) -> bool {
    exists|o: int|
        0 <= o && o + 1 + lines.len() <= screen.len() && screen[o] == title && #[trigger] screen.subrange(
            o + 1,
            o + 1 + lines.len(),
        ) == lines
}

/// The heading `title` with `lines` right after it shows them.
proof fn lemma_lists_under_start(title: Seq<char>, lines: Seq<Seq<char>>)
    ensures
        lists_under(seq![title] + lines, title, lines),
        lists_under(seq![title] + lines + seq![Seq::<char>::empty()], title, lines),
{
    let screen = seq![title] + lines;
    assert(screen[0] == title);
    assert(screen.subrange(1, 1 + lines.len() as int) =~= lines);
    let longer = screen + seq![Seq::<char>::empty()];
    assert(longer[0] == title);
    assert(longer.subrange(1, 1 + lines.len() as int) =~= lines);
}

/// Lines put before a screen do not hide what it shows.
proof fn lemma_lists_under_front(
    front: Seq<Seq<char>>,
    screen: Seq<Seq<char>>,
    title: Seq<char>,
    lines: Seq<Seq<char>>,
)
    requires
        lists_under(screen, title, lines),
    ensures
        lists_under(front + screen, title, lines),
{
    let o = choose|o: int|
        0 <= o && o + 1 + lines.len() <= screen.len() && screen[o] == title
            && #[trigger] screen.subrange(o + 1, o + 1 + lines.len()) == lines;
    let all = front + screen;
    let p = front.len() + o;
    assert(all[p] == screen[o]);
    assert(all.subrange(p + 1, p + 1 + lines.len()) =~= screen.subrange(o + 1, o + 1 + lines.len()));
}

/// Lines put after a screen do not hide what it shows.
proof fn lemma_lists_under_back(
    screen: Seq<Seq<char>>,
    back: Seq<Seq<char>>,
    title: Seq<char>,
    lines: Seq<Seq<char>>,
)
    requires
        lists_under(screen, title, lines),
    ensures
        lists_under(screen + back, title, lines),
{
    let o = choose|o: int|
        0 <= o && o + 1 + lines.len() <= screen.len() && screen[o] == title
            && #[trigger] screen.subrange(o + 1, o + 1 + lines.len()) == lines;
    let all = screen + back;
    assert(all[o] == screen[o]);
    assert(all.subrange(o + 1, o + 1 + lines.len()) =~= screen.subrange(o + 1, o + 1 + lines.len()));
}

/// The screen for given sections shows each non-empty one under its
/// heading, and the recent commits under theirs.
#[verifier::rlimit(30)]
proof fn lemma_screen_lists_sections(
    added: Seq<Seq<char>>,
    deleted: Seq<Seq<char>>,
    unstaged: Seq<Seq<char>>,
    staged: Seq<Seq<char>>,
    recent: Seq<Seq<char>>,
)
    ensures
        added.len() > 0 ==> lists_under(
            screen_of_sections(added, deleted, unstaged, staged, recent),
            "Untracked files:"@,
            added,
        ),
        deleted.len() > 0 ==> lists_under(
            screen_of_sections(added, deleted, unstaged, staged, recent),
            "Deleted files:"@,
            deleted,
        ),
        unstaged.len() > 0 ==> lists_under(
            screen_of_sections(added, deleted, unstaged, staged, recent),
            "Modified files:"@,
            unstaged,
        ),
        staged.len() > 0 ==> lists_under(
            screen_of_sections(added, deleted, unstaged, staged, recent),
            "Staged files:"@,
            staged,
        ),
        recent.len() > 0 ==> lists_under(
            screen_of_sections(added, deleted, unstaged, staged, recent),
            "Recent commits:"@,
            recent,
        ),
{
    let none = if added.len() == 0 && deleted.len() == 0 && unstaged.len() == 0 && staged.len()
        == 0 {
        seq!["No changes found"@]
    } else {
        seq![]
    };
    let su = section("Untracked files:"@, added);
    let sd = section("Deleted files:"@, deleted);
    let sm = section("Modified files:"@, unstaged);
    let ss = if staged.len() == 0 {
        seq![]
    } else {
        seq!["Staged files:"@] + staged
    };
    let commits = if recent.len() == 0 {
        seq![]
    } else {
        blank_lines(LINES_BETWEEN as nat) + seq!["Recent commits:"@] + recent
    };
    let shown = none + su + sd + sm + ss + commits;
    let screen = screen_of_sections(added, deleted, unstaged, staged, recent);
    if added.len() > 0 {
        let t = "Untracked files:"@;
        lemma_lists_under_start(t, added);
        lemma_lists_under_front(none, su, t, added);
        lemma_lists_under_back(none + su, sd, t, added);
        lemma_lists_under_back(none + su + sd, sm, t, added);
        lemma_lists_under_back(none + su + sd + sm, ss, t, added);
        lemma_lists_under_back(none + su + sd + sm + ss, commits, t, added);
    }
    if deleted.len() > 0 {
        let t = "Deleted files:"@;
        lemma_lists_under_start(t, deleted);
        lemma_lists_under_front(none + su, sd, t, deleted);
        lemma_lists_under_back(none + su + sd, sm, t, deleted);
        lemma_lists_under_back(none + su + sd + sm, ss, t, deleted);
        lemma_lists_under_back(none + su + sd + sm + ss, commits, t, deleted);
    }
    if unstaged.len() > 0 {
        let t = "Modified files:"@;
        lemma_lists_under_start(t, unstaged);
        lemma_lists_under_front(none + su + sd, sm, t, unstaged);
        lemma_lists_under_back(none + su + sd + sm, ss, t, unstaged);
        lemma_lists_under_back(none + su + sd + sm + ss, commits, t, unstaged);
    }
    if staged.len() > 0 {
        let t = "Staged files:"@;
        lemma_lists_under_start(t, staged);
        lemma_lists_under_front(none + su + sd + sm, ss, t, staged);
        lemma_lists_under_back(none + su + sd + sm + ss, commits, t, staged);
    }
    if recent.len() > 0 {
        let t = "Recent commits:"@;
        let blanks = blank_lines(LINES_BETWEEN as nat);
        lemma_lists_under_start(t, recent);
        lemma_lists_under_front(blanks, seq![t] + recent, t, recent);
        assert(blanks + (seq![t] + recent) =~= commits);
        lemma_lists_under_front(none + su + sd + sm + ss, commits, t, recent);
    }
    if added.len() > 0 || deleted.len() > 0 || unstaged.len() > 0 || staged.len() > 0 || recent.len()
        > 0 {
        assert(shown.len() > 0);
        assert(screen == shown);
    }
}

/// Each section of the status screen lists all of its status lines, in
/// git's order, right under its heading: the untracked files under
/// "Untracked files:", the deleted ones under "Deleted files:", those with
/// unstaged changes under "Modified files:", the staged ones under
/// "Staged files:", and every recent commit under "Recent commits:".
pub proof fn lemma_status_screen_lists_every_line(status: Seq<Seq<char>>, recent: Seq<Seq<char>>)
    ensures
        untracked_lines(status).len() > 0 ==> lists_under(
            status_screen(status, recent),
            "Untracked files:"@,
            untracked_lines(status),
        ),
        deleted_lines(status).len() > 0 ==> lists_under(
            status_screen(status, recent),
            "Deleted files:"@,
            deleted_lines(status),
        ),
        unstaged_lines(status).len() > 0 ==> lists_under(
            status_screen(status, recent),
            "Modified files:"@,
            unstaged_lines(status),
        ),
        staged_lines(status).len() > 0 ==> lists_under(
            status_screen(status, recent),
            "Staged files:"@,
            staged_lines(status),
        ),
        recent.len() > 0 ==> lists_under(status_screen(status, recent), "Recent commits:"@, recent),
{
    lemma_screen_lists_sections(
        untracked_lines(status),
        deleted_lines(status),
        unstaged_lines(status),
        staged_lines(status),
        recent,
    );
}

/// Which status lines the sections hold, read off their first two
/// characters: a line is untracked where they are "??", deleted where they
/// are " D", has unstaged changes where they are " M" or "MM", and is
/// staged where the first is 'M', 'A' or 'D'. Every line of `status` with
/// such a start is in that section, and each section holds only such lines.
pub proof fn lemma_sections_hold_their_lines(status: Seq<Seq<char>>)
    ensures
        forall|i: int|
            0 <= i < status.len() && status[i].len() >= 2 && status[i][0] == '?' && status[i][1]
                == '?' ==> #[trigger] untracked_lines(status).contains(status[i]),
        forall|i: int|
            0 <= i < status.len() && status[i].len() >= 2 && status[i][0] == ' ' && status[i][1]
                == 'D' ==> #[trigger] deleted_lines(status).contains(status[i]),
        forall|i: int|
            0 <= i < status.len() && status[i].len() >= 2 && (status[i][0] == ' ' || status[i][0]
                == 'M') && status[i][1] == 'M' ==> #[trigger] unstaged_lines(status).contains(
                status[i],
            ),
        forall|i: int|
            0 <= i < status.len() && status[i].len() >= 1 && (status[i][0] == 'M' || status[i][0]
                == 'A' || status[i][0] == 'D') ==> #[trigger] staged_lines(status).contains(
                status[i],
            ),
        forall|j: int|
            0 <= j < untracked_lines(status).len() ==> {
                let line = #[trigger] untracked_lines(status)[j];
                line.len() >= 2 && line[0] == '?' && line[1] == '?'
            },
        forall|j: int|
            0 <= j < deleted_lines(status).len() ==> {
                let line = #[trigger] deleted_lines(status)[j];
                line.len() >= 2 && line[0] == ' ' && line[1] == 'D'
            },
        forall|j: int|
            0 <= j < unstaged_lines(status).len() ==> {
                let line = #[trigger] unstaged_lines(status)[j];
                line.len() >= 2 && (line[0] == ' ' || line[0] == 'M') && line[1] == 'M'
            },
        forall|j: int|
            0 <= j < staged_lines(status).len() ==> {
                let line = #[trigger] staged_lines(status)[j];
                line.len() >= 1 && (line[0] == 'M' || line[0] == 'A' || line[0] == 'D')
            },
{
    broadcast use vstd::seq_lib::group_filter_ensures;

    assert forall|i: int|
        0 <= i < status.len() && status[i].len() >= 2 && status[i][0] == '?' && status[i][1]
            == '?' implies #[trigger] untracked_lines(status).contains(status[i]) by {
        assert(is_untracked_line(status[i]));
    }
    assert forall|i: int|
        0 <= i < status.len() && status[i].len() >= 2 && status[i][0] == ' ' && status[i][1]
            == 'D' implies #[trigger] deleted_lines(status).contains(status[i]) by {
        assert(is_deleted_line(status[i]));
    }
    assert forall|i: int|
        0 <= i < status.len() && status[i].len() >= 2 && (status[i][0] == ' ' || status[i][0]
            == 'M') && status[i][1] == 'M' implies #[trigger] unstaged_lines(status).contains(
        status[i],
    ) by {
        assert(is_unstaged_line(status[i]));
    }
    assert forall|i: int|
        0 <= i < status.len() && status[i].len() >= 1 && (status[i][0] == 'M' || status[i][0]
            == 'A' || status[i][0] == 'D') implies #[trigger] staged_lines(status).contains(
        status[i],
    ) by {
        assert(is_staged_line(status[i]));
    }
}

/// Where the window has room for them, the main window asks for as many
/// commits as lines are left: its height, less twice the lines the status
/// uses (a line for each file in a section, four headings and five empty
/// lines), less one.
pub proof fn lemma_recent_commits_room(height: i32, status: Seq<Seq<char>>)
    requires
        used_lines(status) <= i32::MAX,
        height - 2 * used_lines(status) - 1 >= 0,
    ensures
        recent_commits_count(height, status) == height - 2 * used_lines(status) - 1,
        used_lines(status) == untracked_lines(status).len() + deleted_lines(status).len()
            + unstaged_lines(status).len() + staged_lines(status).len() + 9,
{
}

/// The status lines split by section.
pub struct StatusSections {
    pub added: Vec<String>,
    pub deleted: Vec<String>,
    pub unstaged: Vec<String>,
    pub staged: Vec<String>,
}

/// `sections` are the sections of the status lines `status`.
pub open spec fn sections_of(sections: StatusSections, status: Seq<Seq<char>>) -> bool {
    &&& sections.added.deep_view() == untracked_lines(status)
    &&& sections.deleted.deep_view() == deleted_lines(status)
    &&& sections.unstaged.deep_view() == unstaged_lines(status)
    &&& sections.staged.deep_view() == staged_lines(status)
}

/// The first two characters of `line`, where it has them.
fn first_two(line: &String) -> (chars: (Option<char>, Option<char>))
    ensures
        chars.0 == (if line@.len() >= 1 {
            Some(line@[0])
        } else {
            None::<char>
        }),
        chars.1 == (if line@.len() >= 2 {
            Some(line@[1])
        } else {
            None::<char>
        }),
{
    let text = line.as_str();
    let n = text.unicode_len();
    let first = if n >= 1 {
        Some(text.get_char(0))
    } else {
        None
    };
    let second = if n >= 2 {
        Some(text.get_char(1))
    } else {
        None
    };
    (first, second)
}

/// `seq.take(i + 1)` filtered is `seq.take(i)` filtered, with `seq[i]`
/// added where it passes.
proof fn lemma_filter_take_step(seq: Seq<Seq<char>>, pred: spec_fn(Seq<char>) -> bool, i: int)
    requires
        0 <= i < seq.len(),
    ensures
        seq.take(i + 1).filter(pred) == (if pred(seq[i]) {
            seq.take(i).filter(pred).push(seq[i])
        } else {
            seq.take(i).filter(pred)
        }),
{
    reveal(Seq::filter);
    assert(seq.take(i + 1).drop_last() =~= seq.take(i));
    assert(seq.take(i + 1).last() == seq[i]);
}

/// Pushes `line` on `lines`.
fn push_line(lines: &mut Vec<String>, line: &String)
    ensures
        final(lines).deep_view() == old(lines).deep_view().push(line@),
{
    lines.push(line.clone());
    assert(lines.deep_view() =~= old(lines).deep_view().push(line@));
}

/// Puts each status line in the sections it belongs to.
pub fn status_sections(status: &Vec<String>) -> (sections: StatusSections)
    ensures
        sections_of(sections, status.deep_view()),
{
    let ghost s = status.deep_view();
    let mut sections = StatusSections {
        added: Vec::new(),
        deleted: Vec::new(),
        unstaged: Vec::new(),
        staged: Vec::new(),
    };
    proof {
        reveal(Seq::filter);
        assert(s.take(0) =~= Seq::<Seq<char>>::empty());
        assert(sections.added.deep_view() =~= untracked_lines(s.take(0)));
        assert(sections.deleted.deep_view() =~= deleted_lines(s.take(0)));
        assert(sections.unstaged.deep_view() =~= unstaged_lines(s.take(0)));
        assert(sections.staged.deep_view() =~= staged_lines(s.take(0)));
    }
    let mut i: usize = 0;
    while i < status.len()
        invariant
            s == status.deep_view(),
            i <= s.len(),
            sections_of(sections, s.take(i as int)),
        decreases s.len() - i,
    {
        let line = &status[i];
        let (first, second) = first_two(line);
        proof {
            assert(s[i as int] == line@);
            lemma_filter_take_step(s, |line: Seq<char>| is_untracked_line(line), i as int);
            lemma_filter_take_step(s, |line: Seq<char>| is_deleted_line(line), i as int);
            lemma_filter_take_step(s, |line: Seq<char>| is_unstaged_line(line), i as int);
            lemma_filter_take_step(s, |line: Seq<char>| is_staged_line(line), i as int);
        }
        if first == Some('?') && second == Some('?') {
            push_line(&mut sections.added, line);
        }
        if first == Some(' ') && second == Some('D') {
            push_line(&mut sections.deleted, line);
        }
        if (first == Some(' ') && second == Some('M')) || (first == Some('M') && second == Some(
            'M',
        )) {
            push_line(&mut sections.unstaged, line);
        }
        if first == Some('M') || first == Some('A') || first == Some('D') {
            push_line(&mut sections.staged, line);
        }
        i = i + 1;
    }
    proof {
        assert(s.take(s.len() as int) =~= s);
    }
    sections
}

/// The number of recent commits a window of `height` lines asks for, given
/// the sections of the status (`commits_count_for`, the lines used counted
/// from the sections' lengths).
pub fn recent_commits_count_of(height: i32, sections: &StatusSections) -> (count: u32)
    ensures
        count == commits_count_for(
            height,
            (sections.added@.len() + sections.deleted@.len() + sections.unstaged@.len()
                + sections.staged@.len() + SECTIONS_COUNT + LINES_BETWEEN) as nat,
        ),
{
    let used_lines: u128 = sections.added.len() as u128 + sections.deleted.len() as u128
        + sections.unstaged.len() as u128 + sections.staged.len() as u128 + SECTIONS_COUNT as u128
        + LINES_BETWEEN as u128;
    let used: i32 = used_lines as i32;
    let remaining: i64 = height as i64 - 2 * (used as i64) - 1;
    remaining as u32
}

/// Appends `more` to `lines`.
fn append_lines(lines: &mut Vec<String>, more: &Vec<String>)
    ensures
        final(lines).deep_view() == old(lines).deep_view() + more.deep_view(),
{
    let mut i: usize = 0;
    while i < more.len()
        invariant
            i <= more@.len(),
            lines.deep_view() == old(lines).deep_view() + more.deep_view().take(i as int),
        decreases more@.len() - i,
    {
        push_line(lines, &more[i]);
        assert(more.deep_view().take(i + 1) =~= more.deep_view().take(i as int).push(more[i as int]@));
        i = i + 1;
    }
    assert(more.deep_view().take(more@.len() as int) =~= more.deep_view());
}

/// Pushes the text `text` on `lines`.
fn push_text(lines: &mut Vec<String>, text: &str)
    ensures
        final(lines).deep_view() == old(lines).deep_view().push(text@),
{
    let line = text.to_owned();
    push_line(lines, &line);
}

/// Pushes `lines` under the heading `title`, then an empty line, where
/// there are lines.
fn push_section(status: &mut Vec<String>, title: &str, lines: &Vec<String>)
    ensures
        final(status).deep_view() == old(status).deep_view() + section(title@, lines.deep_view()),
{
    proof {
        reveal_strlit("");
        assert(""@ =~= Seq::<char>::empty());
    }
    if lines.len() != 0 {
        push_text(status, title);
        append_lines(status, lines);
        push_text(status, "");
    }
    assert(status.deep_view() =~= old(status).deep_view() + section(title@, lines.deep_view()));
}

/// Pushes `count` empty lines.
fn push_blank_lines(status: &mut Vec<String>, count: usize)
    ensures
        final(status).deep_view() == old(status).deep_view() + blank_lines(count as nat),
{
    let mut k: usize = 0;
    while k < count
        invariant
            k <= count,
            status.deep_view() == old(status).deep_view() + blank_lines(k as nat),
        decreases count - k,
    {
        proof {
            reveal_strlit("");
            assert(""@ =~= Seq::<char>::empty());
        }
        push_text(status, "");
        assert(status.deep_view() =~= old(status).deep_view() + blank_lines((k + 1) as nat));
        k = k + 1;
    }
}

/// What the main window shows for the sections of the status and the
/// recent commits (`screen_of_sections`).
pub fn status_screen_of(sections: &StatusSections, recent_commits: &Vec<String>) -> (shown: Vec<String>)
    ensures
        shown.deep_view() == screen_of_sections(
            sections.added.deep_view(),
            sections.deleted.deep_view(),
            sections.unstaged.deep_view(),
            sections.staged.deep_view(),
            recent_commits.deep_view(),
        ),
{
    let mut status: Vec<String> = vec![];

    if sections.staged.len() == 0 && sections.unstaged.len() == 0 && sections.added.len() == 0
        && sections.deleted.len() == 0 {
        push_text(&mut status, "No changes found");
    }
    push_section(&mut status, "Untracked files:", &sections.added);
    push_section(&mut status, "Deleted files:", &sections.deleted);
    push_section(&mut status, "Modified files:", &sections.unstaged);
    let ghost before_staged = status.deep_view();
    if sections.staged.len() != 0 {
        push_text(&mut status, "Staged files:");
        append_lines(&mut status, &sections.staged);
    }
    let ghost before_commits = status.deep_view();
    if recent_commits.len() != 0 {
        push_blank_lines(&mut status, LINES_BETWEEN);
        push_text(&mut status, "Recent commits:");
        append_lines(&mut status, recent_commits);
    }
    proof {
        let staged_section = if sections.staged.len() == 0 {
            seq![]
        } else {
            seq!["Staged files:"@] + sections.staged.deep_view()
        };
        let commits = if recent_commits.len() == 0 {
            seq![]
        } else {
            blank_lines(LINES_BETWEEN as nat) + seq!["Recent commits:"@]
                + recent_commits.deep_view()
        };
        assert(before_commits =~= before_staged + staged_section);
        assert(status.deep_view() =~= before_commits + commits);
    }
    if status.len() == 0 {
        push_text(&mut status, "No changes found.");
    }
    status
}

/// The line under the cursor of `window` starts with a status code.
pub open spec fn cursor_on_status_line(window: Window) -> bool {
    &&& window.cursor < window.data@.len()
    &&& has_status_code(window.data@[window.cursor as int]@)
}

/// The line under the cursor of `window`.
pub open spec fn cursor_line(window: Window) -> Seq<char> {
    window.data@[window.cursor as int]@
}

/// The state of the file on the line under the cursor.
pub open spec fn cursor_file_state(window: Window) -> FileState {
    file_state_of(cursor_line(window)[0], cursor_line(window)[1])
}

/// The path of the file on the line under the cursor.
pub open spec fn cursor_path(window: Window) -> Seq<char> {
    trimmed(cursor_line(window).skip(status_code_len(cursor_line(window))))
}

/// A window that the main window asks to show over itself.
pub enum Popup {
    /// The changes to a file.
    Diff(DiffWindow),
    /// The branches.
    Branches,
    /// The commit log.
    Log,
    /// A command line.
    Command,
    /// The question `question`; a yes checks the file at `path` out.
    ConfirmCheckout { question: String, path: String },
}

/// A window to show over the main window, where and how large; `refresh`
/// says whether the main window reads git's status again once it closes.
pub struct Request {
    pub popup: Popup,
    pub size: ScreenSize,
    pub position: Position,
    pub refresh: bool,
}

/// A request for a popup that holds no text.
pub open spec fn is_request(
    request: Request,
    popup: Popup,
    size: ScreenSize,
    position: Position,
    refresh: bool,
) -> bool {
    &&& request.popup == popup
    &&& request.size == size
    &&& request.position == position
    &&& request.refresh == refresh
}

/// The question asked before the file at `path` is checked out.
pub open spec fn checkout_question(path: Seq<char>) -> Seq<char> {
    "Are you sure you want to checkout file '"@ + path + "'? y/n"@
}

/// What a key does in the main window.
#[derive(Clone, Copy, Debug, PartialEq, Eq, Structural)]
pub enum MainCommand {
    DiffFile,
    OpenBranchWindow,
    GitCheckoutFile,
    OpenLogWindow,
    GitAddFile,
    GitUnstageFile,
    OpenCommandWindow,
}

/// `after` is `before` showing the status read again (`shows_status`),
/// which makes the runs `after_runs` of the runs `before_runs`; nothing else
/// of the window changed.
pub open spec fn refreshed(before_runs: Runs, after_runs: Runs, before: Window, after: Window) -> bool {
    &&& shows_status(before_runs, after_runs, before.height, after.data.deep_view())
    &&& after.lines == before.lines
    &&& after.height == before.height
    &&& after.width == before.width
    &&& after.top == before.top
    &&& after.cursor == before.cursor
}

/// `request` asks to show the changes to the file under the cursor of
/// `window`, over the whole window, where its status line names a file
/// state other than `Unknown`; else it is `None`. The main window is not
/// read again afterwards.
pub open spec fn asks_for_diff(request: Option<Request>, window: Window) -> bool {
    &&& request is None <==> cursor_file_state(window) == FileState::Unknown
    &&& request matches Some(r) ==> {
        &&& r.popup matches Popup::Diff(diff) && diff.path@ == cursor_path(window)
            && diff.file_state == cursor_file_state(window)
        &&& r.size == (ScreenSize { lines: window.height, cols: window.width })
        &&& r.position == (Position { x: 0, y: 0 })
        &&& !r.refresh
    }
}

/// Where the file under the cursor of `before` is `Modified`, `request`
/// asks on the last line of the window whether to check it out, and to read
/// the status again once answered (`answer_checkout`); git does not run and
/// the window is unchanged. Else there is no request and the status was read again at
/// once, with no other run of git.
pub open spec fn checks_out(
    before_runs: Runs,
    after_runs: Runs,
    request: Option<Request>,
    before: Window,
    after: Window,
) -> bool {
    &&& request is Some <==> cursor_file_state(before) == FileState::Modified
    &&& request matches Some(r) ==> {
        &&& r.popup matches Popup::ConfirmCheckout { question, path } && path@ == cursor_path(
            before,
        ) && question@ == checkout_question(cursor_path(before))
        &&& r.size == (ScreenSize { lines: 1, cols: 0 })
        &&& r.position == (Position { x: 0, y: (before.height - 1) as i32 })
        &&& r.refresh
        &&& after_runs == before_runs
        &&& after == before
    }
    &&& request is None ==> refreshed(before_runs, after_runs, before, after)
}

/// After the runs `before_runs`, git first ran once with `args` and then
/// read the status again (`refreshed`), with no other run.
pub open spec fn ran_then_refreshed(
    before_runs: Runs,
    after_runs: Runs,
    args: Seq<Seq<char>>,
    before: Window,
    after: Window,
) -> bool {
    let middle = after_runs.subrange(0, (before_runs.len() + 1) as int);
    &&& before_runs.len() + 1 <= after_runs.len()
    &&& ran_exactly(before_runs, middle, seq![args])
    &&& refreshed(middle, after_runs, before, after)
}

/// Unless the file under the cursor of `before` is `Staged`, git first ran
/// once to stage it; then the status was read again. Git ran for nothing
/// else.
pub open spec fn stages(before_runs: Runs, after_runs: Runs, before: Window, after: Window) -> bool {
    if cursor_file_state(before) != FileState::Staged {
        ran_then_refreshed(before_runs, after_runs, add_args(cursor_path(before)), before, after)
    } else {
        refreshed(before_runs, after_runs, before, after)
    }
}

/// Where the file under the cursor of `before` is `Staged`, git first ran
/// once to unstage it; then the status was read again. Git ran for nothing
/// else.
pub open spec fn unstages(before_runs: Runs, after_runs: Runs, before: Window, after: Window) -> bool {
    if cursor_file_state(before) == FileState::Staged {
        ran_then_refreshed(before_runs, after_runs, reset_args(cursor_path(before)), before, after)
    } else {
        refreshed(before_runs, after_runs, before, after)
    }
}

/// What `command` needs of the window: the commands that act on the file
/// under the cursor need a status line there; the command line needs room
/// above the window's last two lines' positions, and the question before a
/// checkout, asked only for a modified file, room above its last line's.
pub open spec fn can_handle(command: MainCommand, window: Window) -> bool {
    &&& (command == MainCommand::DiffFile || command == MainCommand::GitCheckoutFile || command
        == MainCommand::GitAddFile || command == MainCommand::GitUnstageFile)
        ==> cursor_on_status_line(window)
    &&& command == MainCommand::OpenCommandWindow ==> window.height >= i32::MIN + 2
    &&& command == MainCommand::GitCheckoutFile && cursor_file_state(window)
        == FileState::Modified ==> window.height >= i32::MIN + 1
}

/// Reading the status again makes exactly two runs of git after the
/// earlier ones, which stay: first `git status -s`, then
/// `git --no-pager log --graph --oneline --decorate --max-count=<n>`.
pub proof fn lemma_refresh_runs(before_runs: Runs, after_runs: Runs, before: Window, after: Window)
    requires
        refreshed(before_runs, after_runs, before, after),
    ensures
        after_runs.len() == before_runs.len() + 2,
        after_runs.subrange(0, before_runs.len() as int) == before_runs,
        run_args(after_runs, before_runs.len() as int) == seq!["status"@, "-s"@],
        run_args(after_runs, before_runs.len() + 1int).len() == 6,
        run_args(after_runs, before_runs.len() + 1int).take(5) == seq![
            "--no-pager"@,
            "log"@,
            "--graph"@,
            "--oneline"@,
            "--decorate"@,
        ],
{
    let status = lines_of(run_output(after_runs, before_runs.len() as int));
    let args = seq![status_args(), log_args(Some(recent_commits_count(before.height, status)))];
    assert(run_args(after_runs, before_runs.len() + 0int) == args[0]);
    assert(run_args(after_runs, before_runs.len() + 1int) == args[1]);
    assert(args[1].take(5) =~= seq![
        "--no-pager"@,
        "log"@,
        "--graph"@,
        "--oneline"@,
        "--decorate"@,
    ]);
}

/// A run with `args` followed by a refresh makes exactly three runs of git
/// after the earlier ones, which stay: first the one with `args`, then
/// `git status -s`, then `git log`.
pub proof fn lemma_run_then_refresh_runs(
    before_runs: Runs,
    after_runs: Runs,
    args: Seq<Seq<char>>,
    before: Window,
    after: Window,
)
    requires
        ran_then_refreshed(before_runs, after_runs, args, before, after),
    ensures
        after_runs.len() == before_runs.len() + 3,
        after_runs.subrange(0, before_runs.len() as int) == before_runs,
        run_args(after_runs, before_runs.len() as int) == args,
        run_args(after_runs, before_runs.len() + 1int) == seq!["status"@, "-s"@],
        run_args(after_runs, before_runs.len() + 2int).take(2) == seq!["--no-pager"@, "log"@],
{
    let middle = after_runs.subrange(0, (before_runs.len() + 1) as int);
    lemma_refresh_runs(middle, after_runs, before, after);
    assert(run_args(middle, before_runs.len() + 0int) == seq![args][0]);
    assert(middle[before_runs.len() as int] == after_runs[before_runs.len() as int]);
    assert(after_runs.subrange(0, before_runs.len() as int) =~= middle.subrange(
        0,
        before_runs.len() as int,
    ));
    let log_run = run_args(after_runs, before_runs.len() + 2int);
    assert(log_run.take(2) =~= log_run.take(5).take(2));
}

/// Staging the file under the cursor: unless the file is `Staged` (so where
/// it is modified, deleted or untracked, or the line reads as no state), the
/// first run of git is `git add <path>` with the line's path, and the
/// status is read after it; a staged file is not added again, and the
/// status is only read again.
pub proof fn lemma_stage_runs(before_runs: Runs, after_runs: Runs, before: Window, after: Window)
    requires
        stages(before_runs, after_runs, before, after),
    ensures
        after_runs.subrange(0, before_runs.len() as int) == before_runs,
        cursor_file_state(before) != FileState::Staged ==> {
            &&& after_runs.len() == before_runs.len() + 3
            &&& run_args(after_runs, before_runs.len() as int) == seq!["add"@, cursor_path(before)]
            &&& run_args(after_runs, before_runs.len() + 1int) == seq!["status"@, "-s"@]
        },
        cursor_file_state(before) == FileState::Staged ==> {
            &&& after_runs.len() == before_runs.len() + 2
            &&& run_args(after_runs, before_runs.len() as int) == seq!["status"@, "-s"@]
        },
{
    if cursor_file_state(before) != FileState::Staged {
        lemma_run_then_refresh_runs(before_runs, after_runs, add_args(cursor_path(before)), before, after);
    } else {
        lemma_refresh_runs(before_runs, after_runs, before, after);
    }
}

/// Unstaging the file under the cursor: where the file is `Staged`, the
/// first run of git is `git reset <path>` with the line's path, and the
/// status is read after it; any other file is not reset, and the status is
/// only read again.
pub proof fn lemma_unstage_runs(before_runs: Runs, after_runs: Runs, before: Window, after: Window)
    requires
        unstages(before_runs, after_runs, before, after),
    ensures
        after_runs.subrange(0, before_runs.len() as int) == before_runs,
        cursor_file_state(before) == FileState::Staged ==> {
            &&& after_runs.len() == before_runs.len() + 3
            &&& run_args(after_runs, before_runs.len() as int) == seq!["reset"@, cursor_path(before)]
            &&& run_args(after_runs, before_runs.len() + 1int) == seq!["status"@, "-s"@]
        },
        cursor_file_state(before) != FileState::Staged ==> {
            &&& after_runs.len() == before_runs.len() + 2
            &&& run_args(after_runs, before_runs.len() as int) == seq!["status"@, "-s"@]
        },
{
    if cursor_file_state(before) == FileState::Staged {
        lemma_run_then_refresh_runs(before_runs, after_runs, reset_args(cursor_path(before)), before, after);
    } else {
        lemma_refresh_runs(before_runs, after_runs, before, after);
    }
}

/// Checking out the file under the cursor: a modified file gets a question
/// first and git does not run yet; for any other file no question comes,
/// nothing is checked out, and the status is only read again.
pub proof fn lemma_checkout_runs(
    before_runs: Runs,
    after_runs: Runs,
    request: Option<Request>,
    before: Window,
    after: Window,
)
    requires
        checks_out(before_runs, after_runs, request, before, after),
    ensures
        cursor_file_state(before) == FileState::Modified ==> request is Some && after_runs
            == before_runs,
        cursor_file_state(before) != FileState::Modified ==> {
            &&& request is None
            &&& after_runs.len() == before_runs.len() + 2
            &&& after_runs.subrange(0, before_runs.len() as int) == before_runs
            &&& run_args(after_runs, before_runs.len() as int) == seq!["status"@, "-s"@]
        },
{
    if cursor_file_state(before) != FileState::Modified {
        lemma_refresh_runs(before_runs, after_runs, before, after);
    }
}

/// Enter on a status line opens a diff window for every file state but
/// `Unknown`: an untracked line ("??") opens one for the untracked file at
/// the path after the code, a line whose second letter is 'M' one for a
/// modified file; where nothing opens, the letters name no state.
pub proof fn lemma_diff_request(request: Option<Request>, window: Window)
    requires
        cursor_on_status_line(window),
        asks_for_diff(request, window),
    ensures
        ({
            let line = cursor_line(window);
            line[0] == '?' && line[1] == '?' ==> (request matches Some(r) && r.popup matches Popup::Diff(
                d,
            ) && d.file_state == FileState::Untracked && d.path@ == trimmed(line.skip(3)))
        }),
        cursor_line(window)[1] == 'M' ==> (request matches Some(r) && r.popup matches Popup::Diff(
            d,
        ) && d.file_state == FileState::Modified),
        request is None ==> file_state_of(cursor_line(window)[0], cursor_line(window)[1])
            == FileState::Unknown,
{
}

/// The main window of gitko.
pub struct MainWindow {}

impl MainWindow {
    /// Asks git for the status and then for the recent commits, and shows
    /// them (`shows_status`): git runs exactly these two times, and only
    /// what the window shows changes.
    pub fn on_start<R: Fn(Vec<String>) -> String>(&mut self, window: &mut Window, git: &mut Git<R>)
        ensures
            refreshed(old(git).calls(), final(git).calls(), *old(window), *final(window)),
    {
        let git_status: Vec<String> = git::status(git);
        let ghost middle = git.calls();
        let sections = status_sections(&git_status);
        let commits_count = recent_commits_count_of(window.height(), &sections);
        let recent_commits: Vec<String> = git::log(git, Some(commits_count));
        let status = status_screen_of(&sections, &recent_commits);
        proof {
            let st = git_status.deep_view();
            assert(sections.added@.len() == untracked_lines(st).len());
            assert(sections.deleted@.len() == deleted_lines(st).len());
            assert(sections.unstaged@.len() == unstaged_lines(st).len());
            assert(sections.staged@.len() == staged_lines(st).len());
            assert(commits_count == recent_commits_count(window.height, st));
            lemma_two_runs(
                old(git).calls(),
                middle,
                git.calls(),
                status_args(),
                log_args(Some(commits_count)),
            );
        }
        window.data = status;
    }

    /// Asks to show the changes to the file under the cursor, over the whole
    /// window, where its status line names a file state other than
    /// `Unknown`; the main window is not read again afterwards.
    pub fn diff_file(&mut self, window: &Window) -> (request: Option<Request>)
        requires
            cursor_on_status_line(*window),
        ensures
            asks_for_diff(request, *window),
    {
        let line = window.get_cursor_line();
        let file_state = git::parse_file_state(line.as_str());

        if file_state != FileState::Unknown {
            let path = git::status_path(line.as_str());
            Some(
                Request {
                    popup: Popup::Diff(DiffWindow::new(path.as_str(), file_state)),
                    size: ScreenSize { lines: window.height(), cols: window.width() },
                    position: Position::default(),
                    refresh: false,
                },
            )
        } else {
            None
        }
    }

    /// Asks to show the branches over the whole terminal, then read the
    /// status again.
    pub fn open_branch_window(&mut self, window: &Window) -> (request: Request)
        ensures
            is_request(
                request,
                Popup::Branches,
                ScreenSize { lines: 0, cols: 0 },
                Position { x: 0, y: 0 },
                true,
            ),
    {
        Request {
            popup: Popup::Branches,
            size: ScreenSize::max(),
            position: Position::default(),
            refresh: true,
        }
    }

    /// Asks to show the commit log over the whole terminal, then read the
    /// status again.
    pub fn open_log_window(&mut self, window: &Window) -> (request: Request)
        ensures
            is_request(
                request,
                Popup::Log,
                ScreenSize { lines: 0, cols: 0 },
                Position { x: 0, y: 0 },
                true,
            ),
    {
        Request { popup: Popup::Log, size: ScreenSize::max(), position: Position::default(), refresh: true }
    }

    /// Asks to show a command line on the last two lines of the window, as
    /// wide as the window, then read the status again.
    pub fn open_command_window(&mut self, window: &Window) -> (request: Request)
        requires
            window.height >= i32::MIN + 2,
        ensures
            is_request(
                request,
                Popup::Command,
                ScreenSize { lines: 2, cols: window.width },
                Position { x: 0, y: (window.height - 2) as i32 },
                true,
            ),
    {
        Request {
            popup: Popup::Command,
            size: ScreenSize { lines: 2, cols: window.width() },
            position: Position { x: 0, y: window.height() - 2 },
            refresh: true,
        }
    }

    /// Where the file under the cursor is `Modified`, asks on the last line
    /// of the window whether to check it out, and reads the status again
    /// once answered; else reads the status again at once.
    pub fn git_checkout_file<R: Fn(Vec<String>) -> String>(
        &mut self,
        window: &mut Window,
        git: &mut Git<R>,
    ) -> (request: Option<Request>)
        requires
            cursor_on_status_line(*old(window)),
            cursor_file_state(*old(window)) == FileState::Modified ==> old(window).height
                >= i32::MIN + 1,
        ensures
            checks_out(old(git).calls(), final(git).calls(), request, *old(window), *final(window)),
    {
        let line = window.get_cursor_line();
        let file_state = git::parse_file_state(line.as_str());

        if file_state == FileState::Modified {
            let file = git::status_path(line.as_str());
            let question = "Are you sure you want to checkout file '".to_owned().concat(
                file.as_str(),
            ).concat("'? y/n");
            Some(
                Request {
                    popup: Popup::ConfirmCheckout { question, path: file },
                    size: ScreenSize { lines: 1, cols: 0 },
                    position: Position { x: 0, y: window.height() - 1 },
                    refresh: true,
                },
            )
        } else {
            self.on_start(window, git);
            None
        }
    }

    /// Acts on the key `answer` given to the question before checking out
    /// the file at `path` (`checkout_question`): on `y`, git first checks
    /// the file out, throwing its unstaged changes away, and then the
    /// status is read again; on any other key only the status is read
    /// again. Git runs for nothing else.
    pub fn answer_checkout<R: Fn(Vec<String>) -> String>(
        &mut self,
        answer: i32,
        path: &str,
        window: &mut Window,
        git: &mut Git<R>,
    )
        ensures
            answer == KEY_Y_LOWER ==> ran_then_refreshed(
                old(git).calls(),
                final(git).calls(),
                checkout_args(path@),
                *old(window),
                *final(window),
            ),
            answer != KEY_Y_LOWER ==> refreshed(
                old(git).calls(),
                final(git).calls(),
                *old(window),
                *final(window),
            ),
    {
        if answer == KEY_Y_LOWER {
            git::checkout_file(git, path);
        }
        let ghost middle = git.calls();
        self.on_start(window, git);
        proof {
            assert(git.calls().subrange(0, middle.len() as int) == middle);
        }
    }

    /// Stages the file under the cursor, unless its state is `Staged`, then
    /// reads the status again (`stages`).
    pub fn git_add_file<R: Fn(Vec<String>) -> String>(&mut self, window: &mut Window, git: &mut Git<R>)
        requires
            cursor_on_status_line(*old(window)),
        ensures
            stages(old(git).calls(), final(git).calls(), *old(window), *final(window)),
    {
        let line = window.get_cursor_line();
        let file_state = git::parse_file_state(line.as_str());

        if file_state != FileState::Staged {
            let path = git::status_path(line.as_str());
            git::add_file(git, path.as_str());
        }
        let ghost middle = git.calls();
        self.on_start(window, git);
        proof {
            assert(git.calls().subrange(0, middle.len() as int) == middle);
        }
    }

    /// Unstages the file under the cursor, where its state is `Staged`, then
    /// reads the status again (`unstages`).
    pub fn git_unstage_file<R: Fn(Vec<String>) -> String>(&mut self, window: &mut Window, git: &mut Git<R>)
        requires
            cursor_on_status_line(*old(window)),
        ensures
            unstages(old(git).calls(), final(git).calls(), *old(window), *final(window)),
    {
        let line = window.get_cursor_line();
        let file_state = git::parse_file_state(line.as_str());

        if file_state == FileState::Staged {
            let path = git::status_path(line.as_str());
            git::unstage_file(git, path.as_str());
        }
        let ghost middle = git.calls();
        self.on_start(window, git);
        proof {
            assert(git.calls().subrange(0, middle.len() as int) == middle);
        }
    }

    /// Binds Enter to showing the diff of a file, `b` to the branches, `c` to
    /// checking a file out, `l` to the commit log, `t` to staging, `u` to
    /// unstaging and `:` to the command line.
    pub fn register_handlers(&self, handlers: &mut HashMap<i32, MainCommand>)
        ensures
            final(handlers)@ == old(handlers)@.insert(KEY_LF, MainCommand::DiffFile).insert(
                KEY_B_LOWER,
                MainCommand::OpenBranchWindow,
            ).insert(KEY_C_LOWER, MainCommand::GitCheckoutFile).insert(
                KEY_L_LOWER,
                MainCommand::OpenLogWindow,
            ).insert(KEY_T_LOWER, MainCommand::GitAddFile).insert(
                KEY_U_LOWER,
                MainCommand::GitUnstageFile,
            ).insert(KEY_COLON, MainCommand::OpenCommandWindow),
    {
        handlers.insert(KEY_LF, MainCommand::DiffFile);
        handlers.insert(KEY_B_LOWER, MainCommand::OpenBranchWindow);
        handlers.insert(KEY_C_LOWER, MainCommand::GitCheckoutFile);
        handlers.insert(KEY_L_LOWER, MainCommand::OpenLogWindow);
        handlers.insert(KEY_T_LOWER, MainCommand::GitAddFile);
        handlers.insert(KEY_U_LOWER, MainCommand::GitUnstageFile);
        handlers.insert(KEY_COLON, MainCommand::OpenCommandWindow);
    }

    /// Does what `command` stands for, through the handler of that name;
    /// answers the window to show over the main window, if any. Only the
    /// handlers that check out, stage and unstage run git.
    pub fn handle<R: Fn(Vec<String>) -> String>(
        &mut self,
        command: MainCommand,
        window: &mut Window,
        git: &mut Git<R>,
    ) -> (request: Option<Request>)
        requires
            can_handle(command, *old(window)),
        ensures
            match command {
                MainCommand::DiffFile => asks_for_diff(request, *old(window)) && *final(window)
                    == *old(window) && final(git).calls() == old(git).calls(),
                MainCommand::OpenBranchWindow => request matches Some(r) && is_request(
                    r,
                    Popup::Branches,
                    ScreenSize { lines: 0, cols: 0 },
                    Position { x: 0, y: 0 },
                    true,
                ) && *final(window) == *old(window) && final(git).calls() == old(git).calls(),
                MainCommand::GitCheckoutFile => checks_out(
                    old(git).calls(),
                    final(git).calls(),
                    request,
                    *old(window),
                    *final(window),
                ),
                MainCommand::OpenLogWindow => request matches Some(r) && is_request(
                    r,
                    Popup::Log,
                    ScreenSize { lines: 0, cols: 0 },
                    Position { x: 0, y: 0 },
                    true,
                ) && *final(window) == *old(window) && final(git).calls() == old(git).calls(),
                MainCommand::GitAddFile => request is None && stages(
                    old(git).calls(),
                    final(git).calls(),
                    *old(window),
                    *final(window),
                ),
                MainCommand::GitUnstageFile => request is None && unstages(
                    old(git).calls(),
                    final(git).calls(),
                    *old(window),
                    *final(window),
                ),
                MainCommand::OpenCommandWindow => request matches Some(r) && is_request(
                    r,
                    Popup::Command,
                    ScreenSize { lines: 2, cols: old(window).width },
                    Position { x: 0, y: (old(window).height - 2) as i32 },
                    true,
                ) && *final(window) == *old(window) && final(git).calls() == old(git).calls(),
            },
    {
        match command {
            MainCommand::DiffFile => self.diff_file(window),
            MainCommand::OpenBranchWindow => Some(self.open_branch_window(window)),
            MainCommand::GitCheckoutFile => self.git_checkout_file(window, git),
            MainCommand::OpenLogWindow => Some(self.open_log_window(window)),
            MainCommand::GitAddFile => {
                self.git_add_file(window, git);
                None
            },
            MainCommand::GitUnstageFile => {
                self.git_unstage_file(window, git);
                None
            },
            MainCommand::OpenCommandWindow => Some(self.open_command_window(window)),
        }
    }
}

} // verus!
