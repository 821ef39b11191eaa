//! The git front end: what gitko asks git, and how it reads the answers.
//!
//! Running a program is not this library's business. Every function that
//! talks to git takes a `Git`: a function of the program that runs `git`
//! with the given arguments and returns what it printed, with the list of
//! runs made through it. The contracts say exactly which runs are made, in
//! which order, and what is made of their output, whatever that is.
use vstd::prelude::*;
use vstd::string::*;
use vstd::utf8::*;
use crate::calls::Recorded;
use crate::text::{first_line, lemma_boundary_after, lemma_encode_concat, lines_of, split_lines};

verus! {

broadcast use {vstd::utf8::encode_utf8_valid_utf8, vstd::utf8::encode_utf8_decode_utf8};

/// The state of a file as `git status --short` reports it.
#[derive(Clone, Copy, Debug, PartialEq, Eq, Structural)]
pub enum FileState {
    Unknown,
    Modified,
    Deleted,
    Added,
    Staged,
    Untracked,
}

/// The number of bytes UTF-8 spends on `c`.
pub open spec fn utf8_width(c: char) -> nat {
    if (c as u32) < 0x80 {
        1
    } else if (c as u32) < 0x800 {
        2
    } else if (c as u32) < 0x10000 {
        3
    } else {
        4
    }
}

/// How many characters the first three bytes of `line` hold: 2 or 3 where
/// those bytes are whole characters and at least two of them, else 0.
pub open spec fn status_code_len(line: Seq<char>) -> int {
    if line.len() >= 2 && utf8_width(line[0]) + utf8_width(line[1]) == 3 {
        2
    } else if line.len() >= 3 && utf8_width(line[0]) == 1 && utf8_width(line[1]) == 1
        && utf8_width(line[2]) == 1 {
        3
    } else {
        0
    }
}

/// `line` starts with a status code: its first three bytes are whole
/// characters, at least two of them (the two status letters).
pub open spec fn has_status_code(line: Seq<char>) -> bool {
    status_code_len(line) >= 2
}

/// The state that the status letters `first` and `second` of a
/// `git status --short` line stand for.
pub open spec fn file_state_of(first: char, second: char) -> FileState {
    if second == 'M' {
        FileState::Modified
    } else if first == 'M' || first == 'A' {
        FileState::Staged
    } else if first == 'D' || second == 'D' {
        FileState::Deleted
    } else if first == '?' && second == '?' {
        FileState::Untracked
    } else {
        FileState::Unknown
    }
}

proof fn lemma_width(c: char)
    ensures
        encode_scalar(c as u32).len() == utf8_width(c),
{
    char_is_scalar(c);
}

proof fn lemma_encode_single(c: char)
    ensures
        encode_utf8(seq![c]) == encode_scalar(c as u32),
{
    assert(seq![c].drop_first() =~= Seq::<char>::empty());
    assert(encode_utf8(seq![c]) =~= encode_scalar(c as u32) + encode_utf8(Seq::<char>::empty()));
    lemma_width(c);
}

/// The first three bytes of a line with a status code are its first
/// `status_code_len` characters, and they end on a character boundary.
proof fn lemma_status_code(line: Seq<char>)
    requires
        has_status_code(line),
    ensures
        encode_utf8(line).len() >= 3,
        is_char_boundary(encode_utf8(line), 3),
        encode_utf8(line).subrange(0, 3) == encode_utf8(line.take(status_code_len(line))),
        decode_utf8(encode_utf8(line).subrange(0, 3)) == line.take(status_code_len(line)),
        decode_utf8(encode_utf8(line).subrange(3, encode_utf8(line).len() as int)) == line.skip(
            status_code_len(line),
        ),
{
    let k = status_code_len(line);
    let head = line.take(k);
    let tail = line.skip(k);
    assert(line =~= head + tail);
    lemma_encode_single(line[0]);
    lemma_encode_single(line[1]);
    lemma_width(line[0]);
    lemma_width(line[1]);
    if k == 2 {
        assert(head =~= seq![line[0]] + seq![line[1]]);
        lemma_encode_concat(seq![line[0]], seq![line[1]]);
    } else {
        lemma_encode_single(line[2]);
        lemma_width(line[2]);
        assert(head =~= seq![line[0]] + seq![line[1]] + seq![line[2]]);
        lemma_encode_concat(seq![line[0]], seq![line[1]]);
        lemma_encode_concat(seq![line[0]] + seq![line[1]], seq![line[2]]);
    }
    assert(encode_utf8(head).len() == 3);
    lemma_encode_concat(head, tail);
    lemma_boundary_after(head, tail);
    let bytes = encode_utf8(line);
    assert(bytes.subrange(0, 3) =~= encode_utf8(head));
    assert(bytes.subrange(3, bytes.len() as int) =~= encode_utf8(tail));
}

/// No status letters stand for `Added`: a newly added file reads as `Staged`.
pub proof fn lemma_never_added(first: char, second: char)
    ensures
        file_state_of(first, second) != FileState::Added,
{
}

/// A line whose first three characters are ASCII has a status code, of
/// three characters.
pub proof fn lemma_ascii_status_code(line: Seq<char>)
    requires
        line.len() >= 3,
        (line[0] as u32) < 0x80,
        (line[1] as u32) < 0x80,
        (line[2] as u32) < 0x80,
    ensures
        has_status_code(line),
        status_code_len(line) == 3,
{
}

/// Reads the state of a file from its line in `git status --short`: the two
/// status letters that the line starts with decide it (`file_state_of`).
/// The line's first three bytes must be whole characters, at least two.
pub fn parse_file_state(path: &str) -> (state: FileState)
    requires
        has_status_code(path@),
    ensures
        state == file_state_of(path@[0], path@[1]),
{
    let ghost k = status_code_len(path@);
    proof {
        lemma_status_code(path@);
    }
    let (code, _) = path.split_at(3);
    proof {
        assert(code@ == decode_utf8(code.spec_bytes()));
        assert(code@ == path@.take(k));
    }
    let first = code.get_char(0);
    let second = code.get_char(1);

    if second == 'M' {
        FileState::Modified
    } else if first == 'M' || first == 'A' {
        FileState::Staged
    } else if first == 'D' || second == 'D' {
        FileState::Deleted
    } else if first == '?' && second == '?' {
        FileState::Untracked
    } else {
        FileState::Unknown
    }
}


/// Whether `c` is white space: has the Unicode property White_Space.
pub open spec fn is_white_space(c: char) -> bool {
    let v = c as u32;
    ||| 0x09 <= v <= 0x0D
    ||| v == 0x20
    ||| v == 0x85
    ||| v == 0xA0
    ||| v == 0x1680
    ||| 0x2000 <= v <= 0x200A
    ||| v == 0x2028
    ||| v == 0x2029
    ||| v == 0x202F
    ||| v == 0x205F
    ||| v == 0x3000
}

/// Among ASCII characters, white space is exactly tab, line feed, vertical
/// tab, form feed, carriage return and space; every other ASCII character,
/// the printable ones such as '.' among them, is not.
pub proof fn lemma_ascii_white_space(c: char)
    requires
        (c as u32) < 0x80,
    ensures
        is_white_space(c) <==> (c == '\t' || c == '\n' || c == '\x0B' || c == '\x0C' || c == '\r'
            || c == ' '),
{
}

/// `s` without its leading white space.
pub open spec fn trim_start(s: Seq<char>) -> Seq<char>
    decreases s.len(),
{
    if s.len() > 0 && is_white_space(s[0]) {
        trim_start(s.drop_first())
    } else {
        s
    }
}

/// `s` without its trailing white space.
pub open spec fn trim_end(s: Seq<char>) -> Seq<char>
    decreases s.len(),
{
    if s.len() > 0 && is_white_space(s.last()) {
        trim_end(s.drop_last())
    } else {
        s
    }
}

/// `s` without leading and trailing white space.
pub open spec fn trimmed(s: Seq<char>) -> Seq<char> {
    trim_end(trim_start(s))
}

/// What `trim_start` leaves is a suffix of `s`, preceded by white space
/// only, and does not start with white space.
proof fn lemma_trim_start(s: Seq<char>)
    ensures
        exists|k: int|
            0 <= k <= s.len() && #[trigger] s.skip(k) == trim_start(s) && forall|i: int|
                0 <= i < k ==> is_white_space(s[i]),
        trim_start(s).len() > 0 ==> !is_white_space(trim_start(s)[0]),
    decreases s.len(),
{
    if s.len() > 0 && is_white_space(s[0]) {
        lemma_trim_start(s.drop_first());
        let k = choose|k: int|
            0 <= k <= s.drop_first().len() && #[trigger] s.drop_first().skip(k) == trim_start(
                s.drop_first(),
            ) && forall|i: int| 0 <= i < k ==> is_white_space(s.drop_first()[i]);
        assert(s.skip(k + 1) =~= s.drop_first().skip(k));
        assert forall|i: int| 0 <= i < k + 1 implies is_white_space(s[i]) by {
            if i > 0 {
                assert(s[i] == s.drop_first()[i - 1]);
            }
        }
    } else {
        assert(s.skip(0) =~= s);
    }
}

/// What `trim_end` leaves is a prefix of `s`, followed by white space only,
/// and does not end with white space; a first character that is not white
/// space stays first.
proof fn lemma_trim_end(s: Seq<char>)
    ensures
        exists|k: int|
            0 <= k <= s.len() && #[trigger] s.take(k) == trim_end(s) && forall|i: int|
                k <= i < s.len() ==> is_white_space(s[i]),
        trim_end(s).len() > 0 ==> !is_white_space(trim_end(s).last()),
        s.len() > 0 && !is_white_space(s[0]) ==> trim_end(s).len() > 0 && trim_end(s)[0] == s[0],
    decreases s.len(),
{
    if s.len() > 0 && is_white_space(s.last()) {
        lemma_trim_end(s.drop_last());
        let k = choose|k: int|
            0 <= k <= s.drop_last().len() && #[trigger] s.drop_last().take(k) == trim_end(
                s.drop_last(),
            ) && forall|i: int| k <= i < s.drop_last().len() ==> is_white_space(s.drop_last()[i]);
        assert(s.take(k) =~= s.drop_last().take(k));
        assert forall|i: int| k <= i < s.len() implies is_white_space(s[i]) by {
            if i < s.len() - 1 {
                assert(s[i] == s.drop_last()[i]);
            }
        }
        if s.len() > 0 && !is_white_space(s[0]) {
            assert(s.len() > 1);
            assert(s.drop_last()[0] == s[0]);
        }
    } else {
        assert(s.take(s.len() as int) =~= s);
    }
}

/// Trimming cuts white space off the ends of `s` and nothing else: what is
/// left is a piece of `s`, with white space only around it in `s`, and it
/// neither starts nor ends with white space.
pub proof fn lemma_trimmed(s: Seq<char>)
    ensures
        exists|i: int, j: int|
            0 <= i <= j <= s.len() && #[trigger] s.subrange(i, j) == trimmed(s) && (forall|k: int|
                0 <= k < i ==> is_white_space(s[k])) && (forall|k: int|
                j <= k < s.len() ==> is_white_space(s[k])),
        trimmed(s).len() > 0 ==> !is_white_space(trimmed(s)[0]) && !is_white_space(
            trimmed(s).last(),
        ),
{
    lemma_trim_start(s);
    let t = trim_start(s);
    lemma_trim_end(t);
    let i = choose|k: int|
        0 <= k <= s.len() && #[trigger] s.skip(k) == trim_start(s) && forall|m: int|
            0 <= m < k ==> is_white_space(s[m]);
    let m = choose|k: int|
        0 <= k <= t.len() && #[trigger] t.take(k) == trim_end(t) && forall|x: int|
            k <= x < t.len() ==> is_white_space(t[x]);
    assert(s.subrange(i, i + m) =~= trimmed(s));
    assert forall|k: int| i + m <= k < s.len() implies is_white_space(s[k]) by {
        assert(s[k] == t[k - i]);
    }
}

/// Trimming a text that neither starts nor ends with white space changes
/// nothing.
pub proof fn lemma_trimmed_unchanged(s: Seq<char>)
    requires
        s.len() > 0 ==> !is_white_space(s[0]) && !is_white_space(s.last()),
    ensures
        trimmed(s) == s,
{
    assert(trim_start(s) == s);
    assert(trim_end(s) == s);
}

/// Whether `c` is white space (`is_white_space`).
fn is_white_space_char(c: char) -> (b: bool)
    ensures
        b == is_white_space(c),
{
    let v = c as u32;
    (0x09 <= v && v <= 0x0D) || v == 0x20 || v == 0x85 || v == 0xA0 || v == 0x1680 || (0x2000 <= v
        && v <= 0x200A) || v == 0x2028 || v == 0x2029 || v == 0x202F || v == 0x205F || v == 0x3000
}

/// The slice of `s` without leading and trailing white space, white space
/// being what has the Unicode property White_Space (what `str::trim` gives).
fn trim<'a>(s: &'a str) -> (t: &'a str)
    ensures
        t@ == trimmed(s@),
{
    let ghost text = s@;
    let n = s.unicode_len();
    let mut i: usize = 0;
    assert(text.skip(0) =~= text);
    while i < n && is_white_space_char(s.get_char(i))
        invariant
            n == text.len(),
            text == s@,
            i <= n,
            trim_start(text.skip(i as int)) == trim_start(text),
        decreases n - i,
    {
        assert(text.skip(i as int).drop_first() =~= text.skip(i + 1));
        i = i + 1;
    }
    proof {
        if i == n {
            assert(text.skip(i as int) =~= Seq::<char>::empty());
        }
        assert(text.skip(i as int) =~= text.subrange(i as int, n as int));
    }
    let mut j: usize = n;
    assert(trimmed(text) == trim_end(text.subrange(i as int, j as int)));
    while j > i && is_white_space_char(s.get_char(j - 1))
        invariant
            n == text.len(),
            text == s@,
            i <= j <= n,
            trim_start(text) == text.subrange(i as int, n as int),
            trim_end(text.subrange(i as int, j as int)) == trimmed(text),
        decreases j - i,
    {
        assert(text.subrange(i as int, j as int).drop_last() =~= text.subrange(
            i as int,
            j - 1,
        ));
        j = j - 1;
    }
    proof {
        if j == i {
            assert(text.subrange(i as int, j as int) =~= Seq::<char>::empty());
        }
    }
    s.substring_char(i, j)
}

/// The number of bytes UTF-8 spends on `c`.
fn utf8_width_of(c: char) -> (w: usize)
    ensures
        w == utf8_width(c),
{
    let v = c as u32;
    if v < 0x80 {
        1
    } else if v < 0x800 {
        2
    } else if v < 0x10000 {
        3
    } else {
        4
    }
}

/// Whether `line` starts with a status code (`has_status_code`), which
/// `parse_file_state` and `status_path` need.
pub fn starts_with_status_code(line: &str) -> (b: bool)
    ensures
        b == has_status_code(line@),
{
    let n = line.unicode_len();
    if n < 2 {
        return false;
    }
    let w0 = utf8_width_of(line.get_char(0));
    let w1 = utf8_width_of(line.get_char(1));
    if w0 + w1 == 3 {
        return true;
    }
    n >= 3 && w0 == 1 && w1 == 1 && utf8_width_of(line.get_char(2)) == 1
}

/// The path that a line of `git status --short` names: what follows its
/// first three bytes, without leading and trailing white space.
pub fn status_path(line: &str) -> (path: String)
    requires
        has_status_code(line@),
    ensures
        path@ == trimmed(line@.skip(status_code_len(line@))),
{
    proof {
        lemma_status_code(line@);
    }
    let (_, rest) = line.split_at(3);
    proof {
        assert(rest@ == decode_utf8(rest.spec_bytes()));
    }
    trim(rest).to_owned()
}

/// Runs `git` with the given arguments and answers what it printed; the
/// runs made so far are its calls.
pub type Git<R> = Recorded<Vec<String>, String, R>;

/// Starts `git` with the given arguments in the terminal and waits for it;
/// the starts made so far are its calls.
pub type Terminal<S> = Recorded<Vec<String>, (), S>;

/// The runs of git made so far: each one's arguments with what git printed.
pub type Runs = Seq<(Vec<String>, String)>;

/// The arguments of run `i`.
pub open spec fn run_args(runs: Runs, i: int) -> Seq<Seq<char>> {
    runs[i].0.deep_view()
}

/// What git printed on run `i`.
pub open spec fn run_output(runs: Runs, i: int) -> Seq<char> {
    runs[i].1@
}

/// `after` is `before` followed by one run for each entry of `args`, with
/// those arguments, in that order, and no other.
pub open spec fn ran_exactly(
    before: Runs,
    after: Runs,
    args: Seq<Seq<Seq<char>>>,
) -> bool {
    &&& after.len() == before.len() + args.len()
    &&& after.subrange(0, before.len() as int) == before
    &&& forall|i: int| 0 <= i < args.len() ==> run_args(after, before.len() + i) == #[trigger] args[i]
}

/// Runs one after the other make the runs of both, in order.
pub proof fn lemma_ran_then(
    before: Runs,
    middle: Runs,
    after: Runs,
    first: Seq<Seq<Seq<char>>>,
    then: Seq<Seq<Seq<char>>>,
)
    requires
        ran_exactly(before, middle, first),
        ran_exactly(middle, after, then),
    ensures
        ran_exactly(before, after, first + then),
        after.subrange(0, middle.len() as int) == middle,
{
    assert(after.subrange(0, before.len() as int) =~= middle.subrange(0, before.len() as int));
    assert forall|i: int| 0 <= i < (first + then).len() implies run_args(after, before.len() + i)
        == #[trigger] (first + then)[i] by {
        if i < first.len() {
            assert(after[before.len() + i] == middle[before.len() + i]);
            assert(first[i] == (first + then)[i]);
        } else {
            assert(then[i - first.len()] == (first + then)[i]);
        }
    }
}

/// One run with `args` added to `before` is exactly that run.
proof fn lemma_ran_one(before: Runs, args: Vec<String>, out: String)
    ensures
        ran_exactly(before, before.push((args, out)), seq![args.deep_view()]),
{
    let after = before.push((args, out));
    assert(after.subrange(0, before.len() as int) =~= before);
    assert(seq![args.deep_view()][0] == args.deep_view());
}

/// Runs git with `args` and cuts what it printed into lines.
fn run_lines<R: Fn(Vec<String>) -> String>(git: &mut Git<R>, args: Vec<String>) -> (lines: Vec<
    String,
>)
    ensures
        ran_exactly(old(git).calls(), final(git).calls(), seq![args.deep_view()]),
        lines.deep_view() == lines_of(run_output(final(git).calls(), old(git).calls().len() as int)),
        lines.len() >= 1,
{
    let ghost given = args;
    let out = git.call(args);
    let lines = split_lines(out.as_str());
    proof {
        lemma_ran_one(old(git).calls(), given, out);
    }
    lines
}

/// Runs git with `args` and returns the first line it printed.
fn run_first_line<R: Fn(Vec<String>) -> String>(git: &mut Git<R>, args: Vec<String>) -> (line:
    String)
    ensures
        ran_exactly(old(git).calls(), final(git).calls(), seq![args.deep_view()]),
        line@ == first_line(run_output(final(git).calls(), old(git).calls().len() as int)),
{
    let lines = run_lines(git, args);
    let line = lines[0].clone();
    proof {
        assert(lines.deep_view()[0] == line@);
    }
    line
}

/// The arguments that ask git for the name of the checked out branch.
pub open spec fn current_branch_args() -> Seq<Seq<char>> {
    seq!["rev-parse"@, "--abbrev-ref"@, "HEAD"@]
}

/// The name of the checked out branch: git runs once, as
/// `git rev-parse --abbrev-ref HEAD`, and the first line it prints is the
/// name.
pub fn current_branch<R: Fn(Vec<String>) -> String>(git: &mut Git<R>) -> (branch: String)
    ensures
        ran_exactly(old(git).calls(), final(git).calls(), seq![current_branch_args()]),
        branch@ == first_line(run_output(final(git).calls(), old(git).calls().len() as int)),
{
    let args = vec!["rev-parse".to_owned(), "--abbrev-ref".to_owned(), "HEAD".to_owned()];
    proof {
        assert(args.deep_view() =~= current_branch_args());
    }
    run_first_line(git, args)
}

/// The name by which git knows `branch` of the remote `origin`.
pub open spec fn origin_ref(branch: Seq<char>) -> Seq<char> {
    "origin/"@ + branch
}

fn origin_branch(branch: &String) -> (name: String)
    ensures
        name@ == origin_ref(branch@),
{
    "origin/".to_owned().concat(branch.as_str())
}

/// The arguments that ask git for the hash of the commit that `rev` names.
pub open spec fn rev_parse_args(rev: Seq<char>) -> Seq<Seq<char>> {
    seq!["rev-parse"@, rev]
}

/// The branch name printed on the first of the runs after `before`.
pub open spec fn branch_read(before: Runs, after: Runs) -> Seq<char> {
    first_line(run_output(after, before.len() as int))
}

/// A run with `first` and then a run with `then` are exactly these two
/// runs; the first keeps its place.
pub proof fn lemma_two_runs(
    before: Runs,
    middle: Runs,
    after: Runs,
    first: Seq<Seq<char>>,
    then: Seq<Seq<char>>,
)
    requires
        ran_exactly(before, middle, seq![first]),
        ran_exactly(middle, after, seq![then]),
    ensures
        ran_exactly(before, after, seq![first, then]),
        after[before.len() as int] == middle[before.len() as int],
{
    lemma_ran_then(before, middle, after, seq![first], seq![then]);
    assert(seq![first] + seq![then] =~= seq![first, then]);
    assert(after[before.len() as int] == after.subrange(0, middle.len() as int)[before.len() as int]);
}

/// The hash of the last commit of the checked out branch on `origin`: git
/// runs twice, first as `git rev-parse --abbrev-ref HEAD` for the branch,
/// then as `git rev-parse origin/<branch>`; the first line of the second
/// answer is the hash.
pub fn last_origin_commit_hash<R: Fn(Vec<String>) -> String>(git: &mut Git<R>) -> (hash: String)
    ensures
        ran_exactly(
            old(git).calls(),
            final(git).calls(),
            seq![
                current_branch_args(),
                rev_parse_args(origin_ref(branch_read(old(git).calls(), final(git).calls()))),
            ],
        ),
        hash@ == first_line(run_output(final(git).calls(), (old(git).calls().len() + 1) as int)),
{
    let branch = current_branch(git);
    let ghost middle = git.calls();
    let args = vec!["rev-parse".to_owned(), origin_branch(&branch)];
    proof {
        assert(args.deep_view() =~= rev_parse_args(origin_ref(branch@)));
    }
    let hash = run_first_line(git, args);
    proof {
        lemma_two_runs(
            old(git).calls(),
            middle,
            git.calls(),
            current_branch_args(),
            rev_parse_args(origin_ref(branch@)),
        );
    }
    hash
}

/// The hash of the last commit of the checked out branch: git runs twice,
/// first as `git rev-parse --abbrev-ref HEAD` for the branch, then as
/// `git rev-parse <branch>`; the first line of the second answer is the hash.
pub fn last_commit_hash<R: Fn(Vec<String>) -> String>(git: &mut Git<R>) -> (hash: String)
    ensures
        ran_exactly(
            old(git).calls(),
            final(git).calls(),
            seq![current_branch_args(), rev_parse_args(branch_read(old(git).calls(), final(git).calls()))],
        ),
        hash@ == first_line(run_output(final(git).calls(), (old(git).calls().len() + 1) as int)),
{
    let branch = current_branch(git);
    let ghost middle = git.calls();
    let ghost name = branch@;
    let args = vec!["rev-parse".to_owned(), branch];
    proof {
        assert(args.deep_view() =~= rev_parse_args(name));
    }
    let hash = run_first_line(git, args);
    proof {
        lemma_two_runs(old(git).calls(), middle, git.calls(), current_branch_args(), rev_parse_args(name));
    }
    hash
}

/// The arguments that ask git for the last commit of `rev` on one line;
/// with no `rev`, of the checked out branch.
pub open spec fn last_commit_args(rev: Option<Seq<char>>) -> Seq<Seq<char>> {
    let base = seq!["log"@, "-1"@, "--oneline"@, "--no-decorate"@];
    match rev {
        Some(r) => base.push(r),
        None => base,
    }
}

/// The view of an optional text.
pub open spec fn optional_view(text: Option<String>) -> Option<Seq<char>> {
    match text {
        Some(t) => Some(t@),
        None => None,
    }
}

fn last_commit_args_exec(rev: Option<String>) -> (args: Vec<String>)
    ensures
        args.deep_view() == last_commit_args(optional_view(rev)),
{
    let mut args = vec![
        "log".to_owned(),
        "-1".to_owned(),
        "--oneline".to_owned(),
        "--no-decorate".to_owned(),
    ];
    let ghost base = args.deep_view();
    let ghost wanted = last_commit_args(optional_view(rev));
    match rev {
        Some(r) => {
            let ghost text = r@;
            args.push(r);
            assert(args.deep_view() =~= base.push(text));
        },
        None => {},
    }
    assert(args.deep_view() =~= wanted);
    args
}

/// The last commit of the checked out branch on `origin`, on one line: git
/// runs twice, first as `git rev-parse --abbrev-ref HEAD` for the branch,
/// then as `git log -1 --oneline --no-decorate origin/<branch>`; the first
/// line of the second answer is the result.
pub fn last_origin_commit<R: Fn(Vec<String>) -> String>(git: &mut Git<R>) -> (commit: String)
    ensures
        ran_exactly(
            old(git).calls(),
            final(git).calls(),
            seq![
                current_branch_args(),
                last_commit_args(Some(origin_ref(branch_read(old(git).calls(), final(git).calls())))),
            ],
        ),
        commit@ == first_line(run_output(final(git).calls(), (old(git).calls().len() + 1) as int)),
{
    let branch = current_branch(git);
    let ghost middle = git.calls();
    let args = last_commit_args_exec(Some(origin_branch(&branch)));
    let commit = run_first_line(git, args);
    proof {
        lemma_two_runs(
            old(git).calls(),
            middle,
            git.calls(),
            current_branch_args(),
            last_commit_args(Some(origin_ref(branch@))),
        );
    }
    commit
}

/// The last commit of the checked out branch, on one line: git runs once,
/// as `git log -1 --oneline --no-decorate`, and the first line it prints is
/// the result.
pub fn last_commit<R: Fn(Vec<String>) -> String>(git: &mut Git<R>) -> (commit: String)
    ensures
        ran_exactly(old(git).calls(), final(git).calls(), seq![last_commit_args(None)]),
        commit@ == first_line(run_output(final(git).calls(), old(git).calls().len() as int)),
{
    let args = last_commit_args_exec(None);
    run_first_line(git, args)
}

/// The arguments that ask git for the ref names (decorations) of `rev`.
pub open spec fn show_refs_args(rev: Seq<char>) -> Seq<Seq<char>> {
    seq!["show"@, "-s"@, "--pretty=%d"@, rev]
}

/// The ref names of the last commit of the checked out branch on `origin`:
/// git runs twice, first as `git rev-parse --abbrev-ref HEAD` for the
/// branch, then as `git show -s --pretty=%d origin/<branch>`; the first line
/// of the second answer is the result.
pub fn origin_head_branch<R: Fn(Vec<String>) -> String>(git: &mut Git<R>) -> (refs: String)
    ensures
        ran_exactly(
            old(git).calls(),
            final(git).calls(),
            seq![
                current_branch_args(),
                show_refs_args(origin_ref(branch_read(old(git).calls(), final(git).calls()))),
            ],
        ),
        refs@ == first_line(run_output(final(git).calls(), (old(git).calls().len() + 1) as int)),
{
    let branch = current_branch(git);
    let ghost middle = git.calls();
    let args = vec![
        "show".to_owned(),
        "-s".to_owned(),
        "--pretty=%d".to_owned(),
        origin_branch(&branch),
    ];
    proof {
        assert(args.deep_view() =~= show_refs_args(origin_ref(branch@)));
    }
    let refs = run_first_line(git, args);
    proof {
        lemma_two_runs(
            old(git).calls(),
            middle,
            git.calls(),
            current_branch_args(),
            show_refs_args(origin_ref(branch@)),
        );
    }
    refs
}

/// The ref names of `HEAD`: git runs once, as
/// `git show -s --pretty=%d HEAD`, and the first line it prints is the
/// result.
pub fn head_branch<R: Fn(Vec<String>) -> String>(git: &mut Git<R>) -> (refs: String)
    ensures
        ran_exactly(old(git).calls(), final(git).calls(), seq![show_refs_args("HEAD"@)]),
        refs@ == first_line(run_output(final(git).calls(), old(git).calls().len() as int)),
{
    let args = vec!["show".to_owned(), "-s".to_owned(), "--pretty=%d".to_owned(), "HEAD".to_owned()];
    proof {
        assert(args.deep_view() =~= show_refs_args("HEAD"@));
    }
    run_first_line(git, args)
}

/// The arguments that ask git for the short status of the work tree.
pub open spec fn status_args() -> Seq<Seq<char>> {
    seq!["status"@, "-s"@]
}

/// The lines of `git status -s`, which runs once.
pub fn status<R: Fn(Vec<String>) -> String>(git: &mut Git<R>) -> (lines: Vec<String>)
    ensures
        ran_exactly(old(git).calls(), final(git).calls(), seq![status_args()]),
        lines.deep_view() == lines_of(run_output(final(git).calls(), old(git).calls().len() as int)),
{
    let args = vec!["status".to_owned(), "-s".to_owned()];
    proof {
        assert(args.deep_view() =~= status_args());
    }
    run_lines(git, args)
}

/// The arguments that ask git for the unstaged changes to the file at `path`.
pub open spec fn diff_file_args(path: Seq<char>) -> Seq<Seq<char>> {
    seq!["--no-pager"@, "diff"@, path]
}

/// The lines of `git --no-pager diff <path>`, which runs once.
pub fn diff_file<R: Fn(Vec<String>) -> String>(git: &mut Git<R>, path: &str) -> (lines: Vec<String>)
    ensures
        ran_exactly(old(git).calls(), final(git).calls(), seq![diff_file_args(path@)]),
        lines.deep_view() == lines_of(run_output(final(git).calls(), old(git).calls().len() as int)),
{
    let args = vec!["--no-pager".to_owned(), "diff".to_owned(), path.to_owned()];
    proof {
        assert(args.deep_view() =~= diff_file_args(path@));
    }
    run_lines(git, args)
}

/// The arguments that ask git for the changes that the commit `commit_hash`
/// made.
pub open spec fn diff_commit_args(commit_hash: Seq<char>) -> Seq<Seq<char>> {
    seq!["--no-pager"@, "diff"@, commit_hash + "^!"@]
}

/// The lines of `git --no-pager diff <commit_hash>^!`, which runs once: the
/// changes that one commit made.
pub fn diff_commit<R: Fn(Vec<String>) -> String>(git: &mut Git<R>, commit_hash: &str) -> (lines: Vec<String>)
    ensures
        ran_exactly(old(git).calls(), final(git).calls(), seq![diff_commit_args(commit_hash@)]),
        lines.deep_view() == lines_of(run_output(final(git).calls(), old(git).calls().len() as int)),
{
    let args = vec!["--no-pager".to_owned(), "diff".to_owned(), commit_hash.to_owned().concat("^!")];
    proof {
        assert(args.deep_view() =~= diff_commit_args(commit_hash@));
    }
    run_lines(git, args)
}

/// The arguments that stage the file at `path`.
pub open spec fn add_args(path: Seq<char>) -> Seq<Seq<char>> {
    seq!["add"@, path]
}

/// The arguments that unstage the file at `path`.
pub open spec fn reset_args(path: Seq<char>) -> Seq<Seq<char>> {
    seq!["reset"@, path]
}

/// Stages `path`: git runs once, as `git add <path>`.
pub fn add_file<R: Fn(Vec<String>) -> String>(git: &mut Git<R>, path: &str)
    ensures
        ran_exactly(old(git).calls(), final(git).calls(), seq![add_args(path@)]),
{
    let args = vec!["add".to_owned(), path.to_owned()];
    proof {
        assert(args.deep_view() =~= add_args(path@));
    }
    run_lines(git, args);
}

/// Unstages `path`: git runs once, as `git reset <path>`.
pub fn unstage_file<R: Fn(Vec<String>) -> String>(git: &mut Git<R>, path: &str)
    ensures
        ran_exactly(old(git).calls(), final(git).calls(), seq![reset_args(path@)]),
{
    let args = vec!["reset".to_owned(), path.to_owned()];
    proof {
        assert(args.deep_view() =~= reset_args(path@));
    }
    run_lines(git, args);
}

/// The lines of `git --no-pager branch`, which runs once.
pub fn branch<R: Fn(Vec<String>) -> String>(git: &mut Git<R>) -> (lines: Vec<String>)
    ensures
        ran_exactly(old(git).calls(), final(git).calls(), seq![seq!["--no-pager"@, "branch"@]]),
        lines.deep_view() == lines_of(run_output(final(git).calls(), old(git).calls().len() as int)),
{
    let args = vec!["--no-pager".to_owned(), "branch".to_owned()];
    proof {
        assert(args.deep_view() =~= seq!["--no-pager"@, "branch"@]);
    }
    run_lines(git, args)
}

/// The arguments that check out `name`, a branch or a file.
pub open spec fn checkout_args(name: Seq<char>) -> Seq<Seq<char>> {
    seq!["checkout"@, name]
}

/// The lines of `git checkout <branch_name>`, which runs once.
pub fn checkout_branch<R: Fn(Vec<String>) -> String>(git: &mut Git<R>, branch_name: &str) -> (lines: Vec<String>)
    ensures
        ran_exactly(old(git).calls(), final(git).calls(), seq![checkout_args(branch_name@)]),
        lines.deep_view() == lines_of(run_output(final(git).calls(), old(git).calls().len() as int)),
{
    let args = vec!["checkout".to_owned(), branch_name.to_owned()];
    proof {
        assert(args.deep_view() =~= checkout_args(branch_name@));
    }
    run_lines(git, args)
}

/// The lines of `git checkout <file_path>`, which runs once and throws away
/// the file's unstaged changes.
pub fn checkout_file<R: Fn(Vec<String>) -> String>(git: &mut Git<R>, file_path: &str) -> (lines: Vec<String>)
    ensures
        ran_exactly(old(git).calls(), final(git).calls(), seq![checkout_args(file_path@)]),
        lines.deep_view() == lines_of(run_output(final(git).calls(), old(git).calls().len() as int)),
{
    let args = vec!["checkout".to_owned(), file_path.to_owned()];
    proof {
        assert(args.deep_view() =~= checkout_args(file_path@));
    }
    run_lines(git, args)
}

/// The lines of `git branch -D <branch_name>`, which runs once.
pub fn delete_branch<R: Fn(Vec<String>) -> String>(git: &mut Git<R>, branch_name: &str) -> (lines: Vec<String>)
    ensures
        ran_exactly(
            old(git).calls(),
            final(git).calls(),
            seq![seq!["branch"@, "-D"@, branch_name@]],
        ),
        lines.deep_view() == lines_of(run_output(final(git).calls(), old(git).calls().len() as int)),
{
    let args = vec!["branch".to_owned(), "-D".to_owned(), branch_name.to_owned()];
    proof {
        assert(args.deep_view() =~= seq!["branch"@, "-D"@, branch_name@]);
    }
    run_lines(git, args)
}

/// The decimal digit `d` as a character.
pub open spec fn digit_char(d: nat) -> char {
    (48 + d) as char
}

/// The decimal notation of `n`, without leading zeros.
pub open spec fn decimal(n: nat) -> Seq<char>
    decreases n,
{
    if n < 10 {
        seq![digit_char(n)]
    } else {
        decimal(n / 10).push(digit_char(n % 10))
    }
}

/// The number that the decimal digits `digits` stand for, read from left to
/// right.
pub open spec fn decimal_value(digits: Seq<char>) -> nat
    decreases digits.len(),
{
    if digits.len() == 0 {
        0
    } else {
        decimal_value(digits.drop_last()) * 10 + ((digits.last() as u32) - 48) as nat
    }
}

/// `decimal(n)` is the base-10 notation of `n`: one or more characters, each
/// a digit from '0' to '9', the first not '0' unless `n` is 0, and read back
/// they give `n`.
pub proof fn lemma_decimal_notation(n: nat)
    ensures
        decimal(n).len() >= 1,
        forall|i: int| 0 <= i < decimal(n).len() ==> '0' <= #[trigger] decimal(n)[i] <= '9',
        decimal(n)[0] == '0' ==> n == 0,
        decimal_value(decimal(n)) == n,
    decreases n,
{
    if n < 10 {
        assert(decimal(n) == seq![digit_char(n)]);
        assert((digit_char(n) as u32) == 48 + n);
        assert(decimal(n).drop_last() =~= Seq::<char>::empty());
        assert(decimal(n).last() == digit_char(n));
        assert(decimal_value(Seq::<char>::empty()) == 0);
        assert(decimal_value(decimal(n)) == decimal_value(decimal(n).drop_last()) * 10 + ((
        decimal(n).last() as u32) - 48) as nat);
    } else {
        lemma_decimal_notation(n / 10);
        let d = n % 10;
        let front = decimal(n / 10);
        assert(decimal(n) == front.push(digit_char(d)));
        assert((digit_char(d) as u32) == 48 + d);
        assert(decimal(n).drop_last() =~= front);
        assert(decimal(n)[0] == front[0]);
        assert forall|i: int| 0 <= i < decimal(n).len() implies '0' <= #[trigger] decimal(n)[i]
            <= '9' by {
            if i < front.len() {
                assert(decimal(n)[i] == front[i]);
            }
        }
        assert(decimal(n).last() == digit_char(d));
        assert(decimal_value(decimal(n)) == decimal_value(front) * 10 + d);
        assert(n == (n / 10) * 10 + d);
    }
}

/// The decimal digit `d` as text.
fn digit_text(d: u32) -> (text: &'static str)
    requires
        d < 10,
    ensures
        text@ == seq![digit_char(d as nat)],
{
    proof {
        reveal_strlit("0");
        reveal_strlit("1");
        reveal_strlit("2");
        reveal_strlit("3");
        reveal_strlit("4");
        reveal_strlit("5");
        reveal_strlit("6");
        reveal_strlit("7");
        reveal_strlit("8");
        reveal_strlit("9");
    }
    match d {
        0 => "0",
        1 => "1",
        2 => "2",
        3 => "3",
        4 => "4",
        5 => "5",
        6 => "6",
        7 => "7",
        8 => "8",
        _ => "9",
    }
}

/// The decimal notation of `n` (as `u32::to_string` writes it).
fn u32_to_decimal(n: u32) -> (text: String)
    ensures
        text@ == decimal(n as nat),
    decreases n,
{
    if n < 10 {
        digit_text(n).to_owned()
    } else {
        u32_to_decimal(n / 10).concat(digit_text(n % 10))
    }
}

/// The arguments that ask git for the commit graph, one commit a line, with
/// ref names; `max_count` bounds the number of commits shown.
pub open spec fn log_args(max_count: Option<u32>) -> Seq<Seq<char>> {
    let base = seq!["--no-pager"@, "log"@, "--graph"@, "--oneline"@, "--decorate"@];
    match max_count {
        Some(max) => base.push("--max-count="@ + decimal(max as nat)),
        None => base,
    }
}

/// The lines of `git --no-pager log --graph --oneline --decorate`, with
/// `--max-count=<max>` added where `max_count` is `Some(max)`; git runs once.
pub fn log<R: Fn(Vec<String>) -> String>(git: &mut Git<R>, max_count: Option<u32>) -> (lines: Vec<String>)
    ensures
        ran_exactly(old(git).calls(), final(git).calls(), seq![log_args(max_count)]),
        lines.deep_view() == lines_of(run_output(final(git).calls(), old(git).calls().len() as int)),
{
    let mut args = vec![
        "--no-pager".to_owned(),
        "log".to_owned(),
        "--graph".to_owned(),
        "--oneline".to_owned(),
        "--decorate".to_owned(),
    ];
    let ghost base = args.deep_view();
    if let Some(max) = max_count {
        let max_count_arg = "--max-count=".to_owned().concat(u32_to_decimal(max).as_str());
        args.push(max_count_arg);
        assert(args.deep_view() =~= base.push("--max-count="@ + decimal(max as nat)));
    }
    assert(args.deep_view() =~= log_args(max_count));
    run_lines(git, args)
}

/// The arguments of `git commit` with `extra` after them.
pub open spec fn commit_command(extra: Option<Seq<Seq<char>>>) -> Seq<Seq<char>> {
    match extra {
        Some(more) => seq!["commit"@] + more,
        None => seq!["commit"@],
    }
}

/// The extra arguments of a commit, as text.
pub open spec fn extra_args_view(extra: Option<Vec<&str>>) -> Option<Seq<Seq<char>>> {
    match extra {
        Some(more) => Some(more.deep_view()),
        None => None,
    }
}

/// Commits: git is started once in the terminal, as `git commit` with
/// `commit_args` after it, and waited for.
pub fn commit<S: Fn(Vec<String>)>(terminal: &mut Terminal<S>, commit_args: Option<Vec<&str>>)
    ensures
        final(terminal).calls().len() == old(terminal).calls().len() + 1,
        final(terminal).calls().drop_last() == old(terminal).calls(),
        final(terminal).calls().last().0.deep_view() == commit_command(extra_args_view(commit_args)),
{
    let mut args = vec!["commit".to_owned()];
    let ghost extra = extra_args_view(commit_args);
    if let Some(process_args) = commit_args {
        let mut i: usize = 0;
        while i < process_args.len()
            invariant
                i <= process_args.len(),
                args.deep_view() =~= seq!["commit"@] + process_args.deep_view().take(i as int),
            decreases process_args.len() - i,
        {
            let ghost before = args.deep_view();
            let piece = process_args[i].to_owned();
            args.push(piece);
            assert(args.deep_view() =~= before.push(piece@));
            assert(process_args.deep_view()[i as int] == piece@);
            assert(process_args.deep_view().take(i + 1) =~= process_args.deep_view().take(
                i as int,
            ).push(piece@));
            i = i + 1;
        }
        assert(process_args.deep_view().take(process_args.len() as int) =~= process_args.deep_view());
    }
    assert(args.deep_view() =~= commit_command(extra));
    terminal.call(args);
    assert(final(terminal).calls().drop_last() =~= old(terminal).calls());
}

/// Runs the git command line `words` (typed after `:`, cut at white
/// space): nothing where it is empty; `git commit` with the other words
/// after it, started once in the terminal, where the first word is
/// `commit`; else git runs once with `words` and the lines it printed are
/// returned to be shown.
pub fn run_command_line<R: Fn(Vec<String>) -> String, S: Fn(Vec<String>)>(
    words: Vec<String>,
    git: &mut Git<R>,
    terminal: &mut Terminal<S>,
) -> (output: Option<Vec<String>>)
    ensures
        words.len() == 0 ==> {
            &&& output is None
            &&& final(git).calls() == old(git).calls()
            &&& final(terminal).calls() == old(terminal).calls()
        },
        words.len() > 0 && words[0]@ == "commit"@ ==> {
            &&& output is None
            &&& final(git).calls() == old(git).calls()
            &&& final(terminal).calls().len() == old(terminal).calls().len() + 1
            &&& final(terminal).calls().drop_last() == old(terminal).calls()
            &&& final(terminal).calls().last().0.deep_view() == words.deep_view()
        },
        words.len() > 0 && words[0]@ != "commit"@ ==> {
            &&& final(terminal).calls() == old(terminal).calls()
            &&& ran_exactly(old(git).calls(), final(git).calls(), seq![words.deep_view()])
            &&& output matches Some(lines) && lines.deep_view() == lines_of(
                run_output(final(git).calls(), old(git).calls().len() as int),
            )
        },
{
    if words.len() == 0 {
        return None;
    }
    if words[0] == "commit".to_owned() {
        let ghost all = words.deep_view();
        let mut rest: Vec<&str> = Vec::new();
        let mut i: usize = 1;
        while i < words.len()
            invariant
                1 <= i <= words.len(),
                all == words.deep_view(),
                rest.deep_view() =~= all.subrange(1, i as int),
            decreases words.len() - i,
        {
            let ghost before = rest.deep_view();
            let word = words[i].as_str();
            rest.push(word);
            assert(rest.deep_view() =~= before.push(word@));
            assert(all[i as int] == words[i as int]@);
            assert(all.subrange(1, i + 1) =~= all.subrange(1, i as int).push(all[i as int]));
            i = i + 1;
        }
        proof {
            reveal_strlit("commit");
            assert(seq!["commit"@] + rest.deep_view() =~= all);
        }
        commit(terminal, Some(rest));
        None
    } else {
        Some(run_lines(git, words))
    }
}

} // verus!
