use std::cell::RefCell;

use gitko::git::{
    add_file, branch, checkout_branch, checkout_file, commit, current_branch, delete_branch,
    diff_commit, diff_file, head_branch, last_commit, last_commit_hash, last_origin_commit,
    last_origin_commit_hash, log, origin_head_branch, run_command_line, parse_file_state, starts_with_status_code,
    status, status_path, unstage_file, FileState,
};
use gitko::calls::Recorded;
use gitko::text::split_lines;

/// A runner that answers from a table and records what it was asked.
struct FakeGit {
    calls: RefCell<Vec<Vec<String>>>,
    answers: Vec<(Vec<&'static str>, &'static str)>,
}

impl FakeGit {
    fn new(answers: Vec<(Vec<&'static str>, &'static str)>) -> FakeGit {
        FakeGit { calls: RefCell::new(Vec::new()), answers }
    }

    fn run(&self, args: Vec<String>) -> String {
        self.calls.borrow_mut().push(args.clone());
        for (expected, out) in &self.answers {
            if expected.iter().map(|s| s.to_string()).collect::<Vec<_>>() == args {
                return out.to_string();
            }
        }
        String::new()
    }

    fn calls(&self) -> Vec<Vec<String>> {
        self.calls.borrow().clone()
    }
}

fn strings(items: &[&str]) -> Vec<String> {
    items.iter().map(|s| s.to_string()).collect()
}

#[test]
fn parse_file_state_reads_the_status_letters() {
    assert_eq!(parse_file_state(" M src/main.rs"), FileState::Modified);
    assert_eq!(parse_file_state("MM src/main.rs"), FileState::Modified);
    assert_eq!(parse_file_state("AM src/new.rs"), FileState::Modified);
    assert_eq!(parse_file_state("M  src/main.rs"), FileState::Staged);
    assert_eq!(parse_file_state("A  src/new.rs"), FileState::Staged);
    assert_eq!(parse_file_state("D  old.rs"), FileState::Deleted);
    assert_eq!(parse_file_state(" D old.rs"), FileState::Deleted);
    assert_eq!(parse_file_state("?? notes.txt"), FileState::Untracked);
    assert_eq!(parse_file_state("!! ignored"), FileState::Unknown);
    assert_eq!(parse_file_state("R  a -> b"), FileState::Unknown);
    assert_eq!(parse_file_state("Untracked files:"), FileState::Unknown);
}

#[test]
fn parse_file_state_never_answers_added() {
    for line in ["A  x", "AM x", "AD x", "?? x", "M  x", " M x", "D  x", "   x"] {
        assert_ne!(parse_file_state(line), FileState::Added);
    }
}

#[test]
fn parse_file_state_reads_whole_characters() {
    // 'é' takes two bytes: the first three bytes are 'é' and ' '.
    assert_eq!(parse_file_state("é x"), FileState::Unknown);
    assert_eq!(parse_file_state("Mé"), FileState::Staged);
}

#[test]
fn starts_with_status_code_checks_the_first_three_bytes() {
    assert!(starts_with_status_code(" M a"));
    assert!(starts_with_status_code("abc"));
    assert!(starts_with_status_code("é "));
    assert!(starts_with_status_code("aé"));
    assert!(!starts_with_status_code(""));
    assert!(!starts_with_status_code("ab"));
    assert!(!starts_with_status_code("€ab"));
    assert!(!starts_with_status_code("a€"));
    assert!(!starts_with_status_code("éé"));
}

#[test]
fn status_path_drops_the_code_and_the_white_space() {
    assert_eq!(status_path(" M src/main.rs"), "src/main.rs");
    assert_eq!(status_path("?? some dir/file name.txt  "), "some dir/file name.txt");
    assert_eq!(status_path("M \t  spaced\u{3000}"), "spaced");
    assert_eq!(status_path(" M "), "");
    assert_eq!(status_path("?? \u{85}\u{a0}é  ü\u{2029}\u{202f}"), "é  ü");
    assert_eq!(status_path("??    "), "");
}

#[test]
fn split_lines_cuts_at_every_newline() {
    assert_eq!(split_lines("a\nb\n"), strings(&["a", "b", ""]));
    assert_eq!(split_lines(""), strings(&[""]));
    assert_eq!(split_lines("\n"), strings(&["", ""]));
    assert_eq!(split_lines("one line"), strings(&["one line"]));
    assert_eq!(split_lines("é\nü\r\n€"), strings(&["é", "ü\r", "€"]));
}

#[test]
fn split_lines_then_join_gives_the_text_back() {
    for text in ["", "x", "a\n\nb", "\n\n", "héllo\nwörld\n"] {
        assert_eq!(split_lines(text).join("\n"), text);
    }
}

#[test]
fn current_branch_is_the_first_line_of_rev_parse() {
    let git = FakeGit::new(vec![(vec!["rev-parse", "--abbrev-ref", "HEAD"], "main\n")]);
    assert_eq!(current_branch(&mut Recorded::new(|a| git.run(a))), "main");
    assert_eq!(git.calls(), vec![strings(&["rev-parse", "--abbrev-ref", "HEAD"])]);
}

#[test]
fn current_branch_of_empty_output_is_empty() {
    let git = FakeGit::new(vec![]);
    assert_eq!(current_branch(&mut Recorded::new(|a| git.run(a))), "");
}

#[test]
fn last_origin_commit_hash_asks_for_the_branch_first() {
    let git = FakeGit::new(vec![
        (vec!["rev-parse", "--abbrev-ref", "HEAD"], "feature\n"),
        (vec!["rev-parse", "origin/feature"], "0123abcd\n"),
    ]);
    assert_eq!(last_origin_commit_hash(&mut Recorded::new(|a| git.run(a))), "0123abcd");
    assert_eq!(
        git.calls(),
        vec![
            strings(&["rev-parse", "--abbrev-ref", "HEAD"]),
            strings(&["rev-parse", "origin/feature"]),
        ]
    );
}

#[test]
fn last_commit_hash_parses_the_branch() {
    let git = FakeGit::new(vec![
        (vec!["rev-parse", "--abbrev-ref", "HEAD"], "main\n"),
        (vec!["rev-parse", "main"], "ffff\nignored\n"),
    ]);
    assert_eq!(last_commit_hash(&mut Recorded::new(|a| git.run(a))), "ffff");
    assert_eq!(git.calls()[1], strings(&["rev-parse", "main"]));
}

#[test]
fn last_commits_use_log_one_line() {
    let git = FakeGit::new(vec![
        (vec!["rev-parse", "--abbrev-ref", "HEAD"], "main\n"),
        (vec!["log", "-1", "--oneline", "--no-decorate", "origin/main"], "abc Remote\n"),
        (vec!["log", "-1", "--oneline", "--no-decorate"], "def Local\n"),
    ]);
    assert_eq!(last_origin_commit(&mut Recorded::new(|a| git.run(a))), "abc Remote");
    assert_eq!(last_commit(&mut Recorded::new(|a| git.run(a))), "def Local");
    assert_eq!(
        git.calls(),
        vec![
            strings(&["rev-parse", "--abbrev-ref", "HEAD"]),
            strings(&["log", "-1", "--oneline", "--no-decorate", "origin/main"]),
            strings(&["log", "-1", "--oneline", "--no-decorate"]),
        ]
    );
}

#[test]
fn head_branches_use_show_pretty_refs() {
    let git = FakeGit::new(vec![
        (vec!["rev-parse", "--abbrev-ref", "HEAD"], "dev\n"),
        (vec!["show", "-s", "--pretty=%d", "origin/dev"], " (origin/dev)\n"),
        (vec!["show", "-s", "--pretty=%d", "HEAD"], " (HEAD -> dev)\n"),
    ]);
    assert_eq!(origin_head_branch(&mut Recorded::new(|a| git.run(a))), " (origin/dev)");
    assert_eq!(head_branch(&mut Recorded::new(|a| git.run(a))), " (HEAD -> dev)");
}

#[test]
fn status_and_diffs_return_every_line() {
    let git = FakeGit::new(vec![
        (vec!["status", "-s"], " M a\n?? b\n"),
        (vec!["--no-pager", "diff", "a"], "+x\n-y"),
        (vec!["--no-pager", "diff", "1234^!"], "commit diff"),
        (vec!["--no-pager", "branch"], "* main\n  dev\n"),
    ]);
    let mut run = Recorded::new(|a| git.run(a));
    assert_eq!(status(&mut run), strings(&[" M a", "?? b", ""]));
    assert_eq!(diff_file(&mut run, "a"), strings(&["+x", "-y"]));
    assert_eq!(diff_commit(&mut run, "1234"), strings(&["commit diff"]));
    assert_eq!(branch(&mut run), strings(&["* main", "  dev", ""]));
}

#[test]
fn file_and_branch_commands_pass_their_argument() {
    let git = FakeGit::new(vec![(vec!["checkout", "dev"], "Switched\n")]);
    let mut run = Recorded::new(|a| git.run(a));
    add_file(&mut run, "a b.txt");
    unstage_file(&mut run, "c.txt");
    assert_eq!(checkout_branch(&mut run, "dev"), strings(&["Switched", ""]));
    checkout_file(&mut run, "d.txt");
    delete_branch(&mut run, "old");
    assert_eq!(
        git.calls(),
        vec![
            strings(&["add", "a b.txt"]),
            strings(&["reset", "c.txt"]),
            strings(&["checkout", "dev"]),
            strings(&["checkout", "d.txt"]),
            strings(&["branch", "-D", "old"]),
        ]
    );
}

#[test]
fn log_adds_a_max_count_in_decimal() {
    let git = FakeGit::new(vec![]);
    let mut run = Recorded::new(|a| git.run(a));
    log(&mut run, Some(42));
    log(&mut run, Some(0));
    log(&mut run, Some(4294967295));
    log(&mut run, None);
    let base = ["--no-pager", "log", "--graph", "--oneline", "--decorate"];
    let mut with_42 = strings(&base);
    with_42.push("--max-count=42".to_string());
    let mut with_0 = strings(&base);
    with_0.push("--max-count=0".to_string());
    let mut with_max = strings(&base);
    with_max.push("--max-count=4294967295".to_string());
    assert_eq!(git.calls(), vec![with_42, with_0, with_max, strings(&base)]);
}

#[test]
fn commit_spawns_git_commit_with_the_extra_arguments() {
    let spawned: RefCell<Vec<Vec<String>>> = RefCell::new(Vec::new());
    let mut spawn = Recorded::new(|a: Vec<String>| spawned.borrow_mut().push(a));
    commit(&mut spawn, Some(vec!["-m", "message"]));
    commit(&mut spawn, None);
    commit(&mut spawn, Some(vec![]));
    drop(spawn);
    assert_eq!(
        spawned.into_inner(),
        vec![strings(&["commit", "-m", "message"]), strings(&["commit"]), strings(&["commit"])]
    );
}

#[test]
fn command_lines_run_git_or_commit() {
    let git = FakeGit::new(vec![(vec!["branch", "-a"], "* main\n  remotes/origin/main")]);
    let spawned: RefCell<Vec<Vec<String>>> = RefCell::new(Vec::new());
    let mut run = Recorded::new(|a| git.run(a));
    let mut spawn = Recorded::new(|a: Vec<String>| spawned.borrow_mut().push(a));
    assert_eq!(
        run_command_line(strings(&["branch", "-a"]), &mut run, &mut spawn),
        Some(strings(&["* main", "  remotes/origin/main"]))
    );
    assert_eq!(run_command_line(strings(&["commit", "-m", "x"]), &mut run, &mut spawn), None);
    assert_eq!(run_command_line(vec![], &mut run, &mut spawn), None);
    drop(spawn);
    drop(run);
    assert_eq!(git.calls(), vec![strings(&["branch", "-a"])]);
    assert_eq!(spawned.into_inner(), vec![strings(&["commit", "-m", "x"])]);
}
