use std::cell::RefCell;
use std::collections::HashMap;

use gitko::ascii_table::{
    KEY_B_LOWER, KEY_COLON, KEY_C_LOWER, KEY_EOT, KEY_ETB, KEY_J_LOWER, KEY_K_LOWER, KEY_LF,
    KEY_L_LOWER, KEY_NAK, KEY_T_LOWER, KEY_U_LOWER, KEY_Y_LOWER,
};
use gitko::calls::Recorded;
use gitko::git::{parse_file_state, FileState};
use gitko::gitko::commit_diff_window::{CommitDiffCommand, CommitDiffWindow};
use gitko::gitko::diff_window::{map_line, DiffCommand, DiffWindow};
use gitko::gitko::main_window::{
    recent_commits_count_of, status_screen_of, status_sections, MainCommand, MainWindow, Popup,
};
use gitko::gitko::output_window::{OutputCommand, OutputWindow};
use gitko::render::{Line, Position, ScreenSize, Window};

fn strings(items: &[&str]) -> Vec<String> {
    items.iter().map(|s| s.to_string()).collect()
}

fn text_lines(n: usize) -> Vec<Line> {
    (0..n).map(|i| Line::from_string(format!("line {}", i))).collect()
}

/// A runner that answers `git status -s` and `git log` from fixed text and
/// records every call.
struct FakeRepo {
    status: &'static str,
    log: &'static str,
    calls: RefCell<Vec<Vec<String>>>,
}

impl FakeRepo {
    fn run(&self, args: Vec<String>) -> String {
        self.calls.borrow_mut().push(args.clone());
        if args.first().map(|s| s.as_str()) == Some("status") {
            self.status.to_string()
        } else if args.get(1).map(|s| s.as_str()) == Some("log") {
            self.log.to_string()
        } else {
            String::new()
        }
    }
}

#[test]
fn map_line_colours_diff_lines() {
    let added = map_line("+new".to_string());
    assert_eq!(added.fragments.len(), 1);
    assert_eq!(added.fragments[0].text, "+new");
    assert_eq!(added.fragments[0].colors, Some((ncurses::COLOR_GREEN, ncurses::COLOR_BLACK)));
    let removed = map_line("-old".to_string());
    assert_eq!(removed.fragments[0].colors, Some((ncurses::COLOR_RED, ncurses::COLOR_BLACK)));
    let hunk = map_line("@@ -1,2 +1,3 @@".to_string());
    assert_eq!(hunk.fragments[0].colors, Some((ncurses::COLOR_CYAN, ncurses::COLOR_BLACK)));
    let header = map_line("+++ b/src/main.rs".to_string());
    assert_eq!(header.fragments[0].colors, Some((2, 0)));
    for plain in ["@ one at", " context", "", "diff --git a/x b/x"] {
        let line = map_line(plain.to_string());
        assert_eq!(line.fragments.len(), 1);
        assert_eq!(line.fragments[0].text, plain);
        assert_eq!(line.fragments[0].colors, None);
        assert!(!line.fragments[0].bold && !line.fragments[0].underlined);
    }
}

#[test]
fn diff_window_moves_one_line_at_a_time() {
    let mut diff = DiffWindow::new("a.rs", FileState::Modified);
    let mut window = Window::new(24, 80);
    window.lines = text_lines(30);
    assert!(diff.move_screen_up(&mut window));
    assert_eq!(window.top, 0);
    assert!(diff.move_screen_down(&mut window));
    assert_eq!(window.top, 1);
    window.top = 29;
    diff.move_screen_down(&mut window);
    assert_eq!(window.top, 29);
}

#[test]
fn diff_window_jumps_twenty_lines() {
    let mut diff = DiffWindow::new("a.rs", FileState::Modified);
    let mut window = Window::new(24, 80);
    window.lines = text_lines(100);
    assert!(diff.jump_screen_down(&mut window));
    assert_eq!(window.top, 20);
    diff.jump_screen_down(&mut window);
    assert_eq!(window.top, 40);
    assert!(diff.jump_screen_up(&mut window));
    assert_eq!(window.top, 20);
    window.top = 5;
    diff.jump_screen_up(&mut window);
    assert_eq!(window.top, 0);
    window.lines = text_lines(10);
    diff.jump_screen_down(&mut window);
    assert_eq!(window.top, 9);
}

#[test]
fn diff_window_down_then_up_comes_back() {
    let mut diff = DiffWindow::new("a.rs", FileState::Modified);
    let mut window = Window::new(24, 80);
    window.lines = text_lines(50);
    window.top = 7;
    diff.jump_screen_down(&mut window);
    diff.jump_screen_up(&mut window);
    assert_eq!(window.top, 7);
}

#[test]
fn diff_window_binds_its_keys() {
    let diff = DiffWindow::new("a.rs", FileState::Modified);
    let mut handlers = HashMap::new();
    diff.register_handlers(&mut handlers);
    assert_eq!(handlers.len(), 4);
    assert_eq!(handlers[&KEY_J_LOWER], DiffCommand::MoveScreenDown);
    assert_eq!(handlers[&KEY_K_LOWER], DiffCommand::MoveScreenUp);
    assert_eq!(handlers[&KEY_EOT], DiffCommand::JumpScreenDown);
    assert_eq!(handlers[&KEY_NAK], DiffCommand::JumpScreenUp);
    assert_eq!(KEY_EOT, 4);
    assert_eq!(KEY_NAK, 21);
}

#[test]
fn diff_window_shows_git_diff_of_tracked_files() {
    let calls: RefCell<Vec<Vec<String>>> = RefCell::new(Vec::new());
    let run = |a: Vec<String>| {
        calls.borrow_mut().push(a);
        "@@ -1 +1 @@\n-a\n+b".to_string()
    };
    let read = |_p: String| -> Vec<String> { panic!("a tracked file is not read") };
    let mut diff = DiffWindow::new("src/x.rs", FileState::Modified);
    let mut window = Window::new(24, 80);
    diff.on_start(&mut window, &mut Recorded::new(run), &mut Recorded::new(read));
    assert_eq!(calls.into_inner(), vec![strings(&["--no-pager", "diff", "src/x.rs"])]);
    assert_eq!(window.lines.len(), 3);
    assert_eq!(window.lines[1].fragments[0].colors, Some((1, 0)));
    assert_eq!(window.lines[2].fragments[0].text, "+b");
}

#[test]
fn diff_window_reads_untracked_files() {
    let run = |_a: Vec<String>| -> String { panic!("git is not asked") };
    let read = |p: String| {
        assert_eq!(p, "new.txt");
        strings(&["+plus", "plain"])
    };
    let mut diff = DiffWindow::new("new.txt", FileState::Untracked);
    let mut window = Window::new(24, 80);
    diff.on_start(&mut window, &mut Recorded::new(run), &mut Recorded::new(read));
    assert_eq!(window.lines.len(), 2);
    assert_eq!(window.lines[0].fragments[0].colors, Some((2, 0)));
    assert_eq!(window.lines[1].fragments[0].colors, None);
}

#[test]
fn commit_diff_window_reads_the_commit_diff() {
    let calls: RefCell<Vec<Vec<String>>> = RefCell::new(Vec::new());
    let run = |a: Vec<String>| {
        calls.borrow_mut().push(a);
        "one\ntwo\nthree".to_string()
    };
    let mut commit = CommitDiffWindow::new("abc123");
    assert_eq!(commit.commit_hash, "abc123");
    assert!(commit.data().is_empty());
    let mut window = Window::new(24, 80);
    window.top = 1;
    commit.on_start(&mut window, &mut Recorded::new(run));
    assert_eq!(window.top, 1);
    window.top = 0;
    assert_eq!(calls.into_inner(), vec![strings(&["--no-pager", "diff", "abc123^!"])]);
    assert_eq!(commit.data(), &strings(&["one", "two", "three"]));
    assert!(commit.move_screen_down(&mut window));
    commit.move_screen_down(&mut window);
    commit.move_screen_down(&mut window);
    assert_eq!(window.top, 2);
    assert!(commit.handle(CommitDiffCommand::MoveScreenUp, &mut window));
    assert_eq!(window.top, 1);
}

#[test]
fn commit_diff_window_binds_j_and_k() {
    let commit = CommitDiffWindow::new("abc");
    let mut handlers = HashMap::new();
    commit.register_handlers(&mut handlers);
    assert_eq!(handlers.len(), 2);
    assert_eq!(handlers[&KEY_J_LOWER], CommitDiffCommand::MoveScreenDown);
    assert_eq!(handlers[&KEY_K_LOWER], CommitDiffCommand::MoveScreenUp);
}

#[test]
fn output_window_shows_a_heading_and_the_output() {
    let mut output = OutputWindow { output: strings(&["first", "second"]) };
    let mut window = Window::new(24, 80);
    output.on_start(&mut window);
    assert_eq!(window.lines.len(), 3);
    let heading = &window.lines[0].fragments[0];
    assert_eq!(heading.text, "Command output:");
    assert!(heading.bold && heading.underlined);
    assert_eq!(window.lines[2].fragments[0].text, "second");
    assert!(!window.lines[2].fragments[0].bold);
}

#[test]
fn output_window_closes_on_enter_and_ctrl_w() {
    let mut output = OutputWindow { output: vec![] };
    let mut window = Window::new(24, 80);
    assert!(!output.close(&mut window));
    let mut handlers = HashMap::new();
    output.register_handlers(&mut handlers);
    assert_eq!(handlers.len(), 2);
    assert_eq!(handlers[&KEY_LF], OutputCommand::Close);
    assert_eq!(handlers[&KEY_ETB], OutputCommand::Close);
    assert!(!output.handle(OutputCommand::Close, &mut window));
}

#[test]
fn status_sections_sort_the_status_lines() {
    let status = strings(&["?? new.txt", " D gone.rs", " M edited.rs", "MM both.rs", "A  added.rs", "D  removed.rs", ""]);
    let sections = status_sections(&status);
    assert_eq!(sections.added, strings(&["?? new.txt"]));
    assert_eq!(sections.deleted, strings(&[" D gone.rs"]));
    assert_eq!(sections.unstaged, strings(&[" M edited.rs", "MM both.rs"]));
    assert_eq!(sections.staged, strings(&["MM both.rs", "A  added.rs", "D  removed.rs"]));
}

#[test]
fn status_screen_lists_sections_and_commits() {
    let status = strings(&["?? new.txt", " M edited.rs", "A  added.rs"]);
    let sections = status_sections(&status);
    let screen = status_screen_of(&sections, &strings(&["* abc first", ""]));
    assert_eq!(
        screen,
        strings(&[
            "Untracked files:",
            "?? new.txt",
            "",
            "Modified files:",
            " M edited.rs",
            "",
            "Staged files:",
            "A  added.rs",
            "",
            "",
            "",
            "",
            "",
            "Recent commits:",
            "* abc first",
            "",
        ])
    );
}

#[test]
fn status_screen_without_changes() {
    let sections = status_sections(&strings(&[""]));
    assert_eq!(status_screen_of(&sections, &vec![]), strings(&["No changes found"]));
    let with_log = status_screen_of(&sections, &strings(&["* c"]));
    assert_eq!(with_log[0], "No changes found");
    assert_eq!(with_log.len(), 8);
}

#[test]
fn recent_commits_count_leaves_room_for_the_status() {
    let sections = status_sections(&strings(&["?? a", " M b", "M  c", ""]));
    // 3 status lines and 9 more: 40 - 2 * 12 - 1.
    assert_eq!(recent_commits_count_of(40, &sections), 15);
    // A window too small wraps around, as 32-bit arithmetic does.
    assert_eq!(recent_commits_count_of(10, &sections), (10i32 - 24 - 1) as u32);
    assert_eq!(recent_commits_count_of(10, &sections), 4294967281);
}

#[test]
fn main_window_on_start_asks_for_status_then_log() {
    let repo = FakeRepo { status: " M a.rs\n", log: "* 1 one\n", calls: RefCell::new(vec![]) };
    let mut main = MainWindow {};
    let mut window = Window::new(50, 80);
    main.on_start(&mut window, &mut Recorded::new(|a| repo.run(a)));
    let calls = repo.calls.borrow().clone();
    assert_eq!(calls.len(), 2);
    assert_eq!(calls[0], strings(&["status", "-s"]));
    assert_eq!(
        calls[1],
        strings(&["--no-pager", "log", "--graph", "--oneline", "--decorate", "--max-count=29"])
    );
    assert_eq!(
        window.data,
        strings(&["Modified files:", " M a.rs", "", "", "", "", "", "", "Recent commits:", "* 1 one", ""])
    );
}

fn main_window_on(status: &'static str, cursor: usize) -> (MainWindow, Window, FakeRepo) {
    let repo = FakeRepo { status, log: "", calls: RefCell::new(vec![]) };
    let mut main = MainWindow {};
    let mut window = Window::new(30, 100);
    main.on_start(&mut window, &mut Recorded::new(|a| repo.run(a)));
    window.cursor = cursor;
    repo.calls.borrow_mut().clear();
    (main, window, repo)
}

#[test]
fn diff_file_opens_the_file_under_the_cursor() {
    let (mut main, window, _repo) = main_window_on(" M src/lib.rs\n", 1);
    let request = main.diff_file(&window).expect("a diff window");
    match request.popup {
        Popup::Diff(diff) => {
            assert_eq!(diff.path, "src/lib.rs");
            assert_eq!(diff.file_state, FileState::Modified);
        },
        _ => panic!("not a diff window"),
    }
    assert_eq!(request.size, ScreenSize { lines: 30, cols: 100 });
    assert_eq!(request.position, Position { x: 0, y: 0 });
    assert!(!request.refresh);
}

#[test]
fn diff_file_on_a_heading_opens_nothing() {
    let (mut main, window, _repo) = main_window_on("?? new.txt\n", 0);
    assert_eq!(window.data[0], "Untracked files:");
    assert!(main.diff_file(&window).is_none());
}

#[test]
fn diff_file_reads_a_heading_by_its_first_letters() {
    // "Modified files:" starts with 'M' and 'o': it reads as a staged file.
    let (mut main, window, _repo) = main_window_on(" M src/lib.rs\n", 0);
    assert_eq!(window.data[0], "Modified files:");
    match main.diff_file(&window).expect("a diff window").popup {
        Popup::Diff(diff) => {
            assert_eq!(diff.path, "ified files:");
            assert_eq!(diff.file_state, FileState::Staged);
        },
        _ => panic!("not a diff window"),
    }
}

#[test]
fn popups_of_the_main_window() {
    let mut main = MainWindow {};
    let window = Window::new(30, 100);
    let branches = main.open_branch_window(&window);
    assert!(matches!(branches.popup, Popup::Branches));
    assert_eq!(branches.size, ScreenSize::max());
    assert!(branches.refresh);
    let log = main.open_log_window(&window);
    assert!(matches!(log.popup, Popup::Log));
    assert_eq!(log.position, Position::default());
    let command = main.open_command_window(&window);
    assert!(matches!(command.popup, Popup::Command));
    assert_eq!(command.size, ScreenSize { lines: 2, cols: 100 });
    assert_eq!(command.position, Position { x: 0, y: 28 });
}

#[test]
fn checkout_asks_before_throwing_changes_away() {
    let (mut main, mut window, repo) = main_window_on(" M src/lib.rs\n", 1);
    let request = main.git_checkout_file(&mut window, &mut Recorded::new(|a| repo.run(a))).expect("a question");
    match request.popup {
        Popup::ConfirmCheckout { question, path } => {
            assert_eq!(question, "Are you sure you want to checkout file 'src/lib.rs'? y/n");
            assert_eq!(path, "src/lib.rs");
        },
        _ => panic!("not a question"),
    }
    assert_eq!(request.size, ScreenSize { lines: 1, cols: 0 });
    assert_eq!(request.position, Position { x: 0, y: 29 });
    assert!(request.refresh);
    assert!(repo.calls.borrow().is_empty());
}

#[test]
fn checkout_of_an_unmodified_file_only_refreshes() {
    let (mut main, mut window, repo) = main_window_on("?? new.txt\n", 1);
    assert!(main.git_checkout_file(&mut window, &mut Recorded::new(|a| repo.run(a))).is_none());
    assert_eq!(repo.calls.borrow().len(), 2);
    assert_eq!(repo.calls.borrow()[0], strings(&["status", "-s"]));
    assert_eq!(repo.calls.borrow()[1][1], "log");
}

#[test]
fn add_stages_unless_staged() {
    let (mut main, mut window, repo) = main_window_on("?? new file.txt\n", 1);
    main.git_add_file(&mut window, &mut Recorded::new(|a| repo.run(a)));
    assert_eq!(repo.calls.borrow().len(), 3);
    assert_eq!(repo.calls.borrow()[0], strings(&["add", "new file.txt"]));
    assert_eq!(repo.calls.borrow()[1], strings(&["status", "-s"]));
    assert_eq!(repo.calls.borrow()[2][1], "log");

    let (mut main, mut window, repo) = main_window_on("A  staged.txt\n", 1);
    main.git_add_file(&mut window, &mut Recorded::new(|a| repo.run(a)));
    assert_eq!(repo.calls.borrow().len(), 2);
    assert_eq!(repo.calls.borrow()[0], strings(&["status", "-s"]));
}

#[test]
fn unstage_only_staged_files() {
    let (mut main, mut window, repo) = main_window_on("M  staged.txt\n", 1);
    main.git_unstage_file(&mut window, &mut Recorded::new(|a| repo.run(a)));
    assert_eq!(repo.calls.borrow().len(), 3);
    assert_eq!(repo.calls.borrow()[0], strings(&["reset", "staged.txt"]));
    assert_eq!(repo.calls.borrow()[1], strings(&["status", "-s"]));

    let (mut main, mut window, repo) = main_window_on(" M edited.txt\n", 1);
    main.git_unstage_file(&mut window, &mut Recorded::new(|a| repo.run(a)));
    assert_eq!(repo.calls.borrow().len(), 2);
    assert_eq!(repo.calls.borrow()[0], strings(&["status", "-s"]));
}

#[test]
fn main_window_binds_its_keys() {
    let main = MainWindow {};
    let mut handlers = HashMap::new();
    main.register_handlers(&mut handlers);
    assert_eq!(handlers.len(), 7);
    assert_eq!(handlers[&KEY_LF], MainCommand::DiffFile);
    assert_eq!(handlers[&KEY_B_LOWER], MainCommand::OpenBranchWindow);
    assert_eq!(handlers[&KEY_C_LOWER], MainCommand::GitCheckoutFile);
    assert_eq!(handlers[&KEY_L_LOWER], MainCommand::OpenLogWindow);
    assert_eq!(handlers[&KEY_T_LOWER], MainCommand::GitAddFile);
    assert_eq!(handlers[&KEY_U_LOWER], MainCommand::GitUnstageFile);
    assert_eq!(handlers[&KEY_COLON], MainCommand::OpenCommandWindow);
}

#[test]
fn main_window_handle_dispatches() {
    let (mut main, mut window, repo) = main_window_on("?? x\n", 1);
    let request = main.handle(MainCommand::OpenLogWindow, &mut window, &mut Recorded::new(|a| repo.run(a)));
    assert!(matches!(request.map(|r| r.popup), Some(Popup::Log)));
    assert!(repo.calls.borrow().is_empty());
    let none = main.handle(MainCommand::GitAddFile, &mut window, &mut Recorded::new(|a| repo.run(a)));
    assert!(none.is_none());
    assert_eq!(repo.calls.borrow()[0], strings(&["add", "x"]));
}

#[test]
fn window_cursor_stays_on_the_text() {
    let mut window = Window::new(10, 10);
    window.data = strings(&["a", "b"]);
    window.move_cursor_up();
    assert_eq!(window.cursor, 0);
    window.move_cursor_down();
    window.move_cursor_down();
    assert_eq!(window.cursor, 1);
    assert_eq!(window.get_cursor_line(), "b");
}

#[test]
fn cursor_comes_back_onto_shorter_text() {
    let mut window = Window::new(10, 10);
    window.data = strings(&["a", "b", "c"]);
    window.cursor = 2;
    window.data = strings(&["a"]);
    window.keep_cursor_on_text();
    assert_eq!(window.cursor, 0);
    window.data = strings(&["a", "b", "c"]);
    window.cursor = 1;
    window.keep_cursor_on_text();
    assert_eq!(window.cursor, 1);
    window.data = vec![];
    window.cursor = 5;
    window.keep_cursor_on_text();
    assert_eq!(window.cursor, 0);
}

#[test]
fn sections_agree_with_parsed_states() {
    let status = strings(&["?? a", " D b", " M c", "MM d", "M  e", "A  f", "D  g", "AM h"]);
    let sections = status_sections(&status);
    for line in &sections.added {
        assert_eq!(parse_file_state(line), FileState::Untracked);
    }
    for line in &sections.deleted {
        assert_eq!(parse_file_state(line), FileState::Deleted);
    }
    for line in &sections.unstaged {
        assert_eq!(parse_file_state(line), FileState::Modified);
    }
    let staged: Vec<FileState> = sections.staged.iter().map(|l| parse_file_state(l)).collect();
    assert_eq!(
        staged,
        vec![
            FileState::Modified,
            FileState::Staged,
            FileState::Staged,
            FileState::Deleted,
            FileState::Modified,
        ]
    );
}

#[test]
fn a_yes_checks_the_file_out_before_the_refresh() {
    let (mut main, mut window, repo) = main_window_on(" M src/lib.rs\n", 1);
    main.answer_checkout(KEY_Y_LOWER, "src/lib.rs", &mut window, &mut Recorded::new(|a| repo.run(a)));
    let calls = repo.calls.borrow().clone();
    assert_eq!(calls.len(), 3);
    assert_eq!(calls[0], strings(&["checkout", "src/lib.rs"]));
    assert_eq!(calls[1], strings(&["status", "-s"]));
    assert_eq!(calls[2][1], "log");
}

#[test]
fn another_answer_only_refreshes() {
    let (mut main, mut window, repo) = main_window_on(" M src/lib.rs\n", 1);
    main.answer_checkout('n' as i32, "src/lib.rs", &mut window, &mut Recorded::new(|a| repo.run(a)));
    let calls = repo.calls.borrow().clone();
    assert_eq!(calls.len(), 2);
    assert_eq!(calls[0], strings(&["status", "-s"]));
    assert_eq!(KEY_Y_LOWER, 'y' as i32);
}
