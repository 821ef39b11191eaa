//! Text handling shared by the git front end: splitting program output into
//! lines, and the UTF-8 facts that let byte offsets stand for characters.
use vstd::prelude::*;
use vstd::string::*;
use vstd::utf8::*;

verus! {

broadcast use {vstd::utf8::encode_utf8_valid_utf8, vstd::utf8::encode_utf8_decode_utf8};

/// The text obtained by putting a newline between each two of `lines`.
pub open spec fn join_lines(lines: Seq<Seq<char>>) -> Seq<char>
    decreases lines.len(),
{
    if lines.len() == 0 {
        seq![]
    } else if lines.len() == 1 {
        lines[0]
    } else {
        join_lines(lines.drop_last()) + seq!['\n'] + lines.last()
    }
}

/// `lines` is what cutting `text` at every newline gives: at least one line,
/// none holding a newline, and joined again by newlines they give `text` back.
pub open spec fn splits_into(text: Seq<char>, lines: Seq<Seq<char>>) -> bool {
    &&& lines.len() >= 1
    &&& join_lines(lines) == text
    &&& forall|i: int| 0 <= i < lines.len() ==> !(#[trigger] lines[i]).contains('\n')
}

/// The lines of `text`: what cutting it at every newline gives.
pub open spec fn lines_of(text: Seq<char>) -> Seq<Seq<char>> {
    choose|lines: Seq<Seq<char>>| splits_into(text, lines)
}

/// The first line of `text`: all of it up to its first newline.
pub open spec fn first_line(text: Seq<char>) -> Seq<char> {
    lines_of(text)[0]
}

/// Any split of `text` is its lines.
pub proof fn lemma_lines_of(text: Seq<char>, lines: Seq<Seq<char>>)
    requires
        splits_into(text, lines),
    ensures
        lines_of(text) == lines,
{
    lemma_splits_unique(text, lines_of(text), lines);
}

/// A split of `text` at every newline, built from its last character back.
proof fn lemma_some_split(text: Seq<char>) -> (lines: Seq<Seq<char>>)
    ensures
        splits_into(text, lines),
    decreases text.len(),
{
    if text.len() == 0 {
        let lines = seq![Seq::<char>::empty()];
        assert(lines[0] =~= text);
        assert forall|i: int| 0 <= i < lines.len() implies !(#[trigger] lines[i]).contains('\n') by {
            assert(lines[i] =~= Seq::<char>::empty());
        }
        lines
    } else {
        let rest = text.drop_last();
        let c = text.last();
        let before = lemma_some_split(rest);
        assert(text =~= rest.push(c));
        if c == '\n' {
            let lines = before.push(Seq::<char>::empty());
            assert(lines.drop_last() =~= before);
            assert(join_lines(lines) =~= text);
            assert forall|i: int| 0 <= i < lines.len() implies !(#[trigger] lines[i]).contains('\n') by {
                if i < before.len() {
                    assert(lines[i] == before[i]);
                } else {
                    assert(lines[i] =~= Seq::<char>::empty());
                }
            }
            lines
        } else {
            let n = before.len() - 1;
            let last = before[n].push(c);
            let lines = before.update(n, last);
            assert(lines.drop_last() =~= before.drop_last());
            if before.len() == 1 {
                assert(join_lines(lines) == last);
                assert(rest == before[0]);
                assert(join_lines(lines) =~= text);
            } else {
                assert(join_lines(before) == join_lines(before.drop_last()) + seq!['\n'] + before[n]);
                assert(join_lines(lines) == join_lines(before.drop_last()) + seq!['\n'] + last);
                assert(join_lines(lines) =~= text);
            }
            assert forall|i: int| 0 <= i < lines.len() implies !(#[trigger] lines[i]).contains('\n') by {
                if i < n {
                    assert(lines[i] == before[i]);
                } else {
                    assert(!before[n].contains('\n'));
                    if last.contains('\n') {
                        let k = choose|k: int| 0 <= k < last.len() && last[k] == '\n';
                        if k < before[n].len() {
                            assert(before[n][k] == '\n');
                        }
                    }
                }
            }
            lines
        }
    }
}

/// Every text has its lines: `lines_of` is a split of `text` at every
/// newline, so no line of it, the first among them, holds a newline.
pub proof fn lemma_lines_of_splits(text: Seq<char>)
    ensures
        splits_into(text, lines_of(text)),
        !first_line(text).contains('\n'),
{
    let lines = lemma_some_split(text);
    lemma_lines_of(text, lines);
    assert(!lines[0].contains('\n'));
}

/// What the lines read so far stand for: each of them followed by its newline.
spec fn terminated(lines: Seq<Seq<char>>) -> Seq<char> {
    if lines.len() == 0 {
        seq![]
    } else {
        join_lines(lines) + seq!['\n']
    }
}

proof fn lemma_join_push(lines: Seq<Seq<char>>, line: Seq<char>)
    ensures
        join_lines(lines.push(line)) == terminated(lines) + line,
{
    let pushed = lines.push(line);
    if lines.len() == 0 {
        assert(terminated(lines) + line =~= line);
    } else {
        assert(pushed.drop_last() =~= lines);
        assert(join_lines(pushed) == join_lines(lines) + seq!['\n'] + line);
        assert(terminated(lines) + line =~= join_lines(lines) + seq!['\n'] + line);
    }
}

/// UTF-8 encoding distributes over concatenation.
pub proof fn lemma_encode_concat(a: Seq<char>, b: Seq<char>)
    ensures
        encode_utf8(a + b) == encode_utf8(a) + encode_utf8(b),
    decreases a.len(),
{
    if a.len() == 0 {
        assert(a + b =~= b);
        assert(encode_utf8(a) + encode_utf8(b) =~= encode_utf8(b));
    } else {
        lemma_encode_concat(a.drop_first(), b);
        assert((a + b).drop_first() =~= a.drop_first() + b);
        assert((a + b)[0] == a[0]);
        assert(encode_utf8(a + b) =~= encode_utf8(a) + encode_utf8(b));
    }
}

proof fn lemma_encode_newline()
    ensures
        encode_utf8(seq!['\n']) == seq![10u8],
{
    assert(seq!['\n'].drop_first() =~= Seq::<char>::empty());
    let v: u32 = '\n' as u32;
    assert(v == 10);
    assert(((10u32) & 0x7F) as u8 == 10u8) by (bit_vector);
    assert(seq!['\n'][0] as u32 == 10u32);
    assert(has_width_1_encoding(10u32));
    assert(leading_byte_width_1(10u32) == 10u8);
    assert(encode_scalar(10u32) =~= seq![10u8]);
    assert(encode_utf8(Seq::<char>::empty()) =~= Seq::<u8>::empty());
    assert(encode_utf8(seq!['\n']) =~= encode_scalar(10u32) + encode_utf8(Seq::<char>::empty()));
    assert(encode_utf8(seq!['\n']) =~= seq![10u8]);
}

/// A text whose encoding holds no newline byte holds no newline.
proof fn lemma_no_newline_byte(s: Seq<char>)
    requires
        forall|k: int| 0 <= k < encode_utf8(s).len() ==> encode_utf8(s)[k] != 10u8,
    ensures
        !s.contains('\n'),
{
    if s.contains('\n') {
        let k = choose|k: int| 0 <= k < s.len() && s[k] == '\n';
        let pre = s.take(k);
        let post = s.skip(k + 1);
        assert(s =~= pre + (seq!['\n'] + post));
        lemma_encode_concat(pre, seq!['\n'] + post);
        lemma_encode_concat(seq!['\n'], post);
        lemma_encode_newline();
        let i = encode_utf8(pre).len() as int;
        assert(encode_utf8(s)[i] == 10u8);
    }
}

/// The end of the encoding of a prefix is a character boundary of the whole.
pub proof fn lemma_boundary_after(a: Seq<char>, b: Seq<char>)
    ensures
        is_char_boundary(encode_utf8(a + b), encode_utf8(a).len() as int),
    decreases a.len(),
{
    let bytes = encode_utf8(a + b);
    assert(valid_utf8(bytes));
    if a.len() == 0 {
        assert(encode_utf8(a).len() == 0);
    } else {
        lemma_encode_concat(a, b);
        lemma_encode_concat(a.drop_first(), b);
        encode_utf8_first_scalar(a + b);
        assert((a + b).drop_first() =~= a.drop_first() + b);
        assert((a + b)[0] == a[0]);
        assert(pop_first_scalar(bytes) =~= encode_utf8(a.drop_first() + b));
        lemma_boundary_after(a.drop_first(), b);
        assert(encode_scalar(a[0] as u32).len() >= 1);
    }
}

/// Joined text holds a newline exactly where there is more than one line.
proof fn lemma_join_has_newline(lines: Seq<Seq<char>>)
    requires
        lines.len() >= 1,
        forall|i: int| 0 <= i < lines.len() ==> !(#[trigger] lines[i]).contains('\n'),
    ensures
        join_lines(lines).contains('\n') <==> lines.len() > 1,
{
    if lines.len() > 1 {
        let head = join_lines(lines.drop_last());
        assert(join_lines(lines)[head.len() as int] == '\n');
    } else {
        assert(join_lines(lines) == lines[0]);
    }
}

/// Cutting a text at its newlines can be done one way only: two splits of
/// the same text are the same lines.
pub proof fn lemma_splits_unique(text: Seq<char>, a: Seq<Seq<char>>, b: Seq<Seq<char>>)
    requires
        splits_into(text, a),
        splits_into(text, b),
    ensures
        a == b,
    decreases a.len(),
{
    lemma_join_has_newline(a);
    lemma_join_has_newline(b);
    if a.len() == 1 {
        assert(b.len() == 1);
        assert(a =~= b);
    } else {
        assert(b.len() > 1);
        let xa = join_lines(a.drop_last());
        let xb = join_lines(b.drop_last());
        let la = a.last();
        let lb = b.last();
        assert(text == xa + seq!['\n'] + la);
        assert(text == xb + seq!['\n'] + lb);
        let n = text.len();
        if la.len() < lb.len() {
            let k = lb.len() - la.len() - 1;
            assert(text[n - la.len() - 1] == '\n');
            assert(lb[k] == text[n - lb.len() + k]);
            assert(lb.contains('\n'));
            assert(!b[b.len() - 1].contains('\n'));
        } else if lb.len() < la.len() {
            let k = la.len() - lb.len() - 1;
            assert(text[n - lb.len() - 1] == '\n');
            assert(la[k] == text[n - la.len() + k]);
            assert(la.contains('\n'));
            assert(!a[a.len() - 1].contains('\n'));
        }
        assert(la.len() == lb.len());
        assert(la =~= text.subrange(n - la.len(), n as int));
        assert(lb =~= text.subrange(n - lb.len(), n as int));
        assert(xa =~= text.subrange(0, n - la.len() - 1));
        assert(xb =~= text.subrange(0, n - lb.len() - 1));
        assert forall|i: int| 0 <= i < a.drop_last().len() implies !(#[trigger] a.drop_last()[i]).contains('\n') by {
            assert(a.drop_last()[i] == a[i]);
        }
        assert forall|i: int| 0 <= i < b.drop_last().len() implies !(#[trigger] b.drop_last()[i]).contains('\n') by {
            assert(b.drop_last()[i] == b[i]);
        }
        lemma_splits_unique(xa, a.drop_last(), b.drop_last());
        assert(a =~= a.drop_last().push(la));
        assert(b =~= b.drop_last().push(lb));
    }
}

/// Splits `text` at every newline, as `str::split('\n')` does: the pieces
/// hold no newline, there is always at least one, and joined by newlines
/// they give `text` back.
pub fn split_lines(text: &str) -> (lines: Vec<String>)
    ensures
        splits_into(text@, lines.deep_view()),
        lines.deep_view() == lines_of(text@),
{
    let mut lines: Vec<String> = Vec::new();
    let mut rest: &str = text;
    loop
        invariant
            text@ == terminated(lines.deep_view()) + rest@,
            forall|i: int| 0 <= i < lines.len() ==> !(#[trigger] lines.deep_view()[i]).contains('\n'),
        decreases rest@.len(),
    {
        let bytes = rest.as_bytes();
        let n = bytes.len();
        let mut j: usize = 0;
        while j < n && bytes[j] != 10u8
            invariant
                j <= n,
                n == bytes@.len(),
                bytes@ == rest.spec_bytes(),
                forall|k: int| 0 <= k < j ==> bytes@[k] != 10u8,
            decreases n - j,
        {
            j = j + 1;
        }
        let ghost old_lines = lines.deep_view();
        let ghost rb = rest.spec_bytes();
        assert(rest@ == decode_utf8(rb));
        if j == n {
            proof {
                lemma_no_newline_byte(rest@);
            }
            lines.push(rest.to_owned());
            proof {
                assert(lines.deep_view() =~= old_lines.push(rest@));
                lemma_join_push(old_lines, rest@);
                lemma_lines_of(text@, lines.deep_view());
            }
            return lines;
        }
        proof {
            assert(is_char_boundary(rb, j as int)) by {
                is_char_boundary_iff_not_is_continuation_byte(rb, j as int);
            }
        }
        let (piece, tail) = rest.split_at(j);
        let ghost tb = tail.spec_bytes();
        proof {
            decode_utf8_split(rb, j as int);
            assert(piece@ == decode_utf8(piece.spec_bytes()));
            assert(tail@ == decode_utf8(tb));
            assert(rest@ == piece@ + tail@);
            assert(tb[0] == 10u8);
            assert(valid_utf8(tb));
            assert(length_of_first_scalar(tb) == 1);
            assert(is_char_boundary(tb, 1)) by {
                reveal_with_fuel(is_char_boundary, 2);
                assert(is_char_boundary(pop_first_scalar(tb), 0));
            }
        }
        let (newline, after) = tail.split_at(1);
        proof {
            decode_utf8_split(tb, 1);
            lemma_encode_newline();
            assert(newline.spec_bytes() =~= seq![10u8]);
            assert(newline@ == decode_utf8(encode_utf8(seq!['\n'])));
            assert(newline@ == seq!['\n']);
            assert(after@ == decode_utf8(after.spec_bytes()));
            assert(tail@ == newline@ + after@);
            assert forall|k: int| 0 <= k < encode_utf8(piece@).len() implies encode_utf8(
                piece@,
            )[k] != 10u8 by {
                assert(encode_utf8(piece@)[k] == rb[k]);
            }
            lemma_no_newline_byte(piece@);
        }
        lines.push(piece.to_owned());
        proof {
            assert(lines.deep_view() =~= old_lines.push(piece@));
            lemma_join_push(old_lines, piece@);
            assert(terminated(lines.deep_view()) =~= terminated(old_lines) + piece@ + seq!['\n']);
            assert(text@ =~= terminated(lines.deep_view()) + after@);
        }
        rest = after;
    }
}

} // verus!
