//! The window that shows the changes to one file.
use std::collections::HashMap;
use vstd::prelude::*;
use crate::ascii_table::{KEY_EOT, KEY_J_LOWER, KEY_K_LOWER, KEY_NAK};
use crate::calls::Recorded;
use crate::git::{self, FileState, Git, diff_file_args, ran_exactly, run_output};
use crate::text::lines_of;
use crate::render::{Fragment, Line, Window, is_single_fragment, moved_down, moved_up};

verus! {

/// The curses colour number of black.
pub open spec fn curses_black() -> i16 {
    0
}

/// The curses colour number of red.
pub open spec fn curses_red() -> i16 {
    1
}

/// The curses colour number of green.
pub open spec fn curses_green() -> i16 {
    2
}

/// The curses colour number of cyan.
pub open spec fn curses_cyan() -> i16 {
    6
}

/// `ncurses::COLOR_BLACK`, which the crate defines as 0.
#[verifier::external_body]
fn color_black() -> (c: i16)
    ensures
        c == curses_black(),
{
    ncurses::COLOR_BLACK
}

/// `ncurses::COLOR_RED`, which the crate defines as 1.
#[verifier::external_body]
fn color_red() -> (c: i16)
    ensures
        c == curses_red(),
{
    ncurses::COLOR_RED
}

/// `ncurses::COLOR_GREEN`, which the crate defines as 2.
#[verifier::external_body]
fn color_green() -> (c: i16)
    ensures
        c == curses_green(),
{
    ncurses::COLOR_GREEN
}

/// `ncurses::COLOR_CYAN`, which the crate defines as 6.
#[verifier::external_body]
fn color_cyan() -> (c: i16)
    ensures
        c == curses_cyan(),
{
    ncurses::COLOR_CYAN
}

/// The colours a line of a diff is drawn in: added lines (`+`) green,
/// removed lines (`-`) red, hunk headers (`@@`) cyan, all on black; other
/// lines in the terminal's own colours.
pub open spec fn diff_line_colors(line: Seq<char>) -> Option<(i16, i16)> {
    if line.len() >= 1 && line[0] == '+' {
        Some((curses_green(), curses_black()))
    } else if line.len() >= 1 && line[0] == '-' {
        Some((curses_red(), curses_black()))
    } else if line.len() >= 2 && line[0] == '@' && line[1] == '@' {
        Some((curses_cyan(), curses_black()))
    } else {
        None
    }
}

/// What the colours of diff lines are, as curses numbers: an added line
/// is green (2) on black (0), a removed one red (1) on black, a hunk header
/// cyan (6) on black; a line starting with anything else keeps the
/// terminal's colours.
pub proof fn lemma_diff_line_colors(line: Seq<char>)
    ensures
        line.len() >= 1 && line[0] == '+' ==> diff_line_colors(line) == Some((2i16, 0i16)),
        line.len() >= 1 && line[0] == '-' ==> diff_line_colors(line) == Some((1i16, 0i16)),
        line.len() >= 2 && line[0] == '@' && line[1] == '@' ==> diff_line_colors(line) == Some(
            (6i16, 0i16),
        ),
        line.len() == 0 || (line[0] != '+' && line[0] != '-' && line[0] != '@') ==> diff_line_colors(
            line,
        ) is None,
{
}

/// `shown` is the diff line `text` as the diff window draws it.
pub open spec fn shows_diff_line(shown: Line, text: Seq<char>) -> bool {
    is_single_fragment(shown, text, diff_line_colors(text), false, false)
}

/// The line of the diff window that shows `line`, coloured by what kind of
/// diff line it is (`diff_line_colors`).
pub fn map_line(line: String) -> (shown: Line)
    ensures
        shows_diff_line(shown, line@),
{
    let first = if line.as_str().is_empty() {
        None
    } else {
        Some(line.as_str().get_char(0))
    };
    if first == Some('+') {
        Line::new(vec![Fragment::colored(line, color_green(), color_black())])
    } else if first == Some('-') {
        Line::new(vec![Fragment::colored(line, color_red(), color_black())])
    } else if first == Some('@') && line.as_str().unicode_len() >= 2 && line.as_str().get_char(1)
        == '@' {
        Line::new(vec![Fragment::colored(line, color_cyan(), color_black())])
    } else {
        Line::from_string(line)
    }
}

/// A window that shows the changes to the file at `path`; for an untracked
/// file, all of its lines.
pub struct DiffWindow {
    pub path: String,
    pub file_state: FileState,
}

/// What a key does in the diff window.
#[derive(Clone, Copy, Debug, PartialEq, Eq, Structural)]
pub enum DiffCommand {
    MoveScreenDown,
    MoveScreenUp,
    JumpScreenDown,
    JumpScreenUp,
}

/// `shown` are the lines of the diff `lines` as the diff window draws them.
pub open spec fn shows_diff(shown: Seq<Line>, lines: Seq<Seq<char>>) -> bool {
    &&& shown.len() == lines.len()
    &&& forall|i: int| 0 <= i < lines.len() ==> #[trigger] shows_diff_line(shown[i], lines[i])
}

/// `window` and `before` differ at most in the top line shown.
pub open spec fn same_but_top(window: Window, before: Window) -> bool {
    &&& window.lines == before.lines
    &&& window.data == before.data
    &&& window.height == before.height
    &&& window.width == before.width
    &&& window.cursor == before.cursor
}

/// How many lines a jump moves the screen.
pub open spec fn jump_lines() -> nat {
    20
}

impl DiffWindow {
    /// A diff window for the file at `path`, which is in `file_state`.
    pub fn new(path: &str, file_state: FileState) -> (window: DiffWindow)
        ensures
            window.path@ == path@,
            window.file_state == file_state,
    {
        DiffWindow { path: path.to_owned(), file_state }
    }

    /// Moves the screen one line up.
    pub fn move_screen_up(&mut self, window: &mut Window) -> (keep_open: bool)
        ensures
            keep_open,
            final(window).top == moved_up(old(window).top as nat, 1),
            same_but_top(*final(window), *old(window)),
            *final(self) == *old(self),
    {
        window.move_screen_up(1);
        true
    }

    /// Moves the screen one line down, over the lines the window shows.
    pub fn move_screen_down(&mut self, window: &mut Window) -> (keep_open: bool)
        ensures
            keep_open,
            final(window).top == moved_down(old(window).top as nat, old(window).lines@.len(), 1),
            same_but_top(*final(window), *old(window)),
            *final(self) == *old(self),
    {
        let rows = window.lines.len();
        window.move_screen_down(rows, 1);
        true
    }

    /// Moves the screen up by twenty single moves: twenty lines, or to the
    /// first line.
    pub fn jump_screen_up(&mut self, window: &mut Window) -> (keep_open: bool)
        ensures
            keep_open,
            final(window).top == moved_up(old(window).top as nat, jump_lines()),
            same_but_top(*final(window), *old(window)),
            *final(self) == *old(self),
    {
        let mut i: usize = 0;
        while i < 20
            invariant
                i <= 20,
                window.top == moved_up(old(window).top as nat, i as nat),
                same_but_top(*window, *old(window)),
                *self == *old(self),
            decreases 20 - i,
        {
            self.move_screen_up(window);
            i = i + 1;
        }
        true
    }

    /// Moves the screen down by twenty single moves: twenty lines, but not
    /// past the last line.
    pub fn jump_screen_down(&mut self, window: &mut Window) -> (keep_open: bool)
        ensures
            keep_open,
            final(window).top == moved_down(
                old(window).top as nat,
                old(window).lines@.len(),
                jump_lines(),
            ),
            same_but_top(*final(window), *old(window)),
            *final(self) == *old(self),
    {
        let mut i: usize = 0;
        while i < 20
            invariant
                i <= 20,
                window.top == moved_down(old(window).top as nat, old(window).lines@.len(), i as nat),
                same_but_top(*window, *old(window)),
                *self == *old(self),
            decreases 20 - i,
        {
            self.move_screen_down(window);
            i = i + 1;
        }
        true
    }

    /// Fills the window with the diff of the file, each line coloured by
    /// `map_line`. For an untracked file these are its own lines, read once
    /// through `files` with the path, and git does not run; else they are
    /// the lines of `git --no-pager diff <path>`, which runs once, and no
    /// file is read. Only the window's lines change.
    pub fn on_start<R: Fn(Vec<String>) -> String, F: Fn(String) -> Vec<String>>(
        &mut self,
        window: &mut Window,
        git: &mut Git<R>,
        files: &mut Recorded<String, Vec<String>, F>,
    )
        ensures
            old(self).file_state == FileState::Untracked ==> {
                &&& final(git).calls() == old(git).calls()
                &&& final(files).calls().len() == old(files).calls().len() + 1
                &&& final(files).calls().drop_last() == old(files).calls()
                &&& final(files).calls().last().0@ == old(self).path@
                &&& shows_diff(final(window).lines@, final(files).calls().last().1.deep_view())
            },
            old(self).file_state != FileState::Untracked ==> {
                &&& final(files).calls() == old(files).calls()
                &&& ran_exactly(old(git).calls(), final(git).calls(), seq![diff_file_args(old(self).path@)])
                &&& shows_diff(
                    final(window).lines@,
                    lines_of(run_output(final(git).calls(), old(git).calls().len() as int)),
                )
            },
            final(window).data == old(window).data,
            final(window).height == old(window).height,
            final(window).width == old(window).width,
            final(window).top == old(window).top,
            final(window).cursor == old(window).cursor,
            *final(self) == *old(self),
    {
        let source: Vec<String>;
        if self.file_state == FileState::Untracked {
            source = files.call(self.path.clone());
            assert(files.calls().drop_last() =~= old(files).calls());
        } else {
            source = git::diff_file(git, self.path.as_str());
        }
        let mut shown: Vec<Line> = Vec::new();
        let mut i: usize = 0;
        while i < source.len()
            invariant
                i <= source@.len(),
                shown@.len() == i,
                forall|k: int| 0 <= k < i ==> #[trigger] shows_diff_line(shown@[k], source.deep_view()[k]),
            decreases source@.len() - i,
        {
            shown.push(map_line(source[i].clone()));
            i = i + 1;
        }
        window.lines = shown;
        assert(shows_diff(window.lines@, source.deep_view()));
    }

    /// Binds `j` and `k` to moving the screen down and up a line, Ctrl-D and
    /// Ctrl-U to jumping down and up.
    pub fn register_handlers(&self, handlers: &mut HashMap<i32, DiffCommand>)
        ensures
            final(handlers)@ == old(handlers)@.insert(KEY_J_LOWER, DiffCommand::MoveScreenDown).insert(
                KEY_K_LOWER,
                DiffCommand::MoveScreenUp,
            ).insert(KEY_EOT, DiffCommand::JumpScreenDown).insert(KEY_NAK, DiffCommand::JumpScreenUp),
    {
        handlers.insert(KEY_J_LOWER, DiffCommand::MoveScreenDown);
        handlers.insert(KEY_K_LOWER, DiffCommand::MoveScreenUp);
        handlers.insert(KEY_EOT, DiffCommand::JumpScreenDown);
        handlers.insert(KEY_NAK, DiffCommand::JumpScreenUp);
    }

    /// Does what `command` stands for; answers whether the window stays open.
    pub fn handle(&mut self, command: DiffCommand, window: &mut Window) -> (keep_open: bool)
        ensures
            keep_open,
            same_but_top(*final(window), *old(window)),
            *final(self) == *old(self),
            final(window).top == match command {
                DiffCommand::MoveScreenDown => moved_down(old(window).top as nat, old(window).lines@.len(), 1),
                DiffCommand::MoveScreenUp => moved_up(old(window).top as nat, 1),
                DiffCommand::JumpScreenDown => moved_down(
                    old(window).top as nat,
                    old(window).lines@.len(),
                    jump_lines(),
                ),
                DiffCommand::JumpScreenUp => moved_up(old(window).top as nat, jump_lines()),
            },
    {
        match command {
            DiffCommand::MoveScreenDown => self.move_screen_down(window),
            DiffCommand::MoveScreenUp => self.move_screen_up(window),
            DiffCommand::JumpScreenDown => self.jump_screen_down(window),
            DiffCommand::JumpScreenUp => self.jump_screen_up(window),
        }
    }
}

} // verus!
