//! Text as sequences of characters: splitting into lines, joining, and
//! removing a prefix. Every contract in the crate speaks of text through
//! these functions.

use itertools::Itertools;
use vstd::prelude::*;

verus! {

/// The pieces of `s` between occurrences of `sep`. There is always at least
/// one piece; none of them contains `sep`.
pub open spec fn split(s: Seq<char>, sep: char) -> Seq<Seq<char>>
    decreases s.len(),
{
    if s.len() == 0 {
        seq![Seq::empty()]
    } else {
        let head = split(s.drop_last(), sep);
        if s.last() == sep {
            head.push(Seq::empty())
        } else {
            head.update(head.len() - 1, head.last().push(s.last()))
        }
    }
}

/// The pieces of `parts` in order, with `sep` between neighbours.
pub open spec fn join(parts: Seq<Seq<char>>, sep: Seq<char>) -> Seq<char>
    decreases parts.len(),
{
    if parts.len() == 0 {
        Seq::empty()
    } else if parts.len() == 1 {
        parts[0]
    } else {
        join(parts.drop_last(), sep) + sep + parts.last()
    }
}

/// `line` without `prefix` at its start; `line` itself where it does not
/// start with `prefix`.
pub open spec fn strip_prefix(line: Seq<char>, prefix: Seq<char>) -> Seq<char> {
    if prefix.is_prefix_of(line) {
        line.skip(prefix.len() as int)
    } else {
        line
    }
}

/// Each of `lines` without `prefix` at its start.
pub open spec fn strip_each(lines: Seq<Seq<char>>, prefix: Seq<char>) -> Seq<Seq<char>> {
    Seq::new(lines.len(), |i: int| strip_prefix(lines[i], prefix))
}

/// `text` with `prefix` removed from the start of each of its lines.
pub open spec fn strip_lines(text: Seq<char>, prefix: Seq<char>) -> Seq<char> {
    join(strip_each(split(text, '\n'), prefix), seq!['\n'])
}

/// The number of occurrences of `c` in `s`.
pub open spec fn count_char(s: Seq<char>, c: char) -> nat
    decreases s.len(),
{
    if s.len() == 0 {
        0
    } else {
        count_char(s.drop_last(), c) + if s.last() == c {
            1nat
        } else {
            0nat
        }
    }
}

/// `n` copies of `c`.
pub open spec fn repeat_char(c: char, n: nat) -> Seq<char> {
    Seq::new(n, |i: int| c)
}

/// The views of a vector of character vectors.
pub open spec fn views(lines: Seq<Vec<char>>) -> Seq<Seq<char>> {
    Seq::new(lines.len(), |i: int| lines[i]@)
}

/// The views of a vector of strings.
pub open spec fn string_views(lines: Seq<String>) -> Seq<Seq<char>> {
    Seq::new(lines.len(), |i: int| lines[i]@)
}

/// `String::push` of std appends one character to the string.
pub assume_specification[ String::push ](s: &mut String, ch: char)
    ensures
        final(s)@ == old(s)@.push(ch),
;

/// Whether two characters differ.
pub(crate) fn differ(x: char, y: char) -> (b: bool)
    ensures
        b == (x != y),
{
    x != y
}

/// `Itertools::join` of itertools: the strings of `parts` in order, each
/// written as it is, with `sep` between neighbours; the empty string where
/// there are none.
#[verifier::external_body]
pub(crate) fn join_strings(parts: &Vec<String>, sep: &str) -> (joined: String)
    ensures
        joined@ == join(string_views(parts@), sep@),
{
    parts.iter().join(sep)
}

/// `Itertools::find_position` of itertools, over the characters of `a` and
/// `b` taken in pairs up to the end of the shorter: the position of the
/// first pair that differs, `None` where no pair does.
#[verifier::external_body]
pub(crate) fn first_mismatch(a: &str, b: &str) -> (at: Option<usize>)
    ensures
        match at {
            Some(k) => k < a@.len() && k < b@.len() && a@[k as int] != b@[k as int]
                && forall|j: int| 0 <= j < k ==> a@[j] == b@[j],
            None => forall|j: int| 0 <= j < a@.len() && j < b@.len() ==> a@[j] == b@[j],
        },
{
    a.chars().zip(b.chars()).find_position(|pair| differ(pair.0, pair.1)).map(|found| found.0)
}

/// `split` never returns an empty sequence.
pub proof fn lemma_split_nonempty(s: Seq<char>, sep: char)
    ensures
        split(s, sep).len() >= 1,
    decreases s.len(),
{
    if s.len() > 0 {
        lemma_split_nonempty(s.drop_last(), sep);
    }
}

/// No piece of a split contains the separator.
pub proof fn lemma_split_pieces_free(s: Seq<char>, sep: char)
    ensures
        forall|i: int, j: int|
            0 <= i < split(s, sep).len() && 0 <= j < split(s, sep)[i].len() ==> split(
                s,
                sep,
            )[i][j] != sep,
    decreases s.len(),
{
    if s.len() > 0 {
        lemma_split_nonempty(s.drop_last(), sep);
        lemma_split_pieces_free(s.drop_last(), sep);
    }
}

/// Splitting `a + [sep] + b`, where `b` holds no separator, gives the pieces
/// of `a` followed by `b`.
pub proof fn lemma_split_append_piece(a: Seq<char>, b: Seq<char>, sep: char)
    requires
        forall|j: int| 0 <= j < b.len() ==> b[j] != sep,
    ensures
        split(a + seq![sep] + b, sep) == split(a, sep).push(b),
    decreases b.len(),
{
    let whole = a + seq![sep] + b;
    if b.len() == 0 {
        assert(whole.drop_last() == a);
        assert(b == Seq::<char>::empty());
    } else {
        let shorter = b.drop_last();
        lemma_split_append_piece(a, shorter, sep);
        assert(whole.drop_last() == a + seq![sep] + shorter);
        assert(whole.last() == b.last());
        assert(shorter.push(b.last()) == b);
        assert(split(a, sep).push(shorter).update(split(a, sep).len() as int, b) == split(
            a,
            sep,
        ).push(b));
    }
}

/// Splitting a text that holds no separator gives the text as its one piece.
pub proof fn lemma_split_single(b: Seq<char>, sep: char)
    requires
        forall|j: int| 0 <= j < b.len() ==> b[j] != sep,
    ensures
        split(b, sep) == seq![b],
    decreases b.len(),
{
    if b.len() > 0 {
        lemma_split_single(b.drop_last(), sep);
        assert(b.drop_last().push(b.last()) == b);
        assert(seq![b.drop_last()].update(0, b) == seq![b]);
    } else {
        assert(b == Seq::<char>::empty());
    }
}

/// Splitting undoes joining: where no piece holds the separator and there is
/// at least one piece, the pieces of the joined text are the pieces joined.
pub proof fn lemma_split_join(parts: Seq<Seq<char>>, sep: char)
    requires
        parts.len() >= 1,
        forall|i: int, j: int|
            0 <= i < parts.len() && 0 <= j < parts[i].len() ==> parts[i][j] != sep,
    ensures
        split(join(parts, seq![sep]), sep) == parts,
    decreases parts.len(),
{
    if parts.len() == 1 {
        lemma_split_single(parts[0], sep);
        assert(seq![parts[0]] == parts);
    } else {
        lemma_split_join(parts.drop_last(), sep);
        lemma_split_append_piece(join(parts.drop_last(), seq![sep]), parts.last(), sep);
        assert(parts.drop_last().push(parts.last()) == parts);
    }
}

/// Joining undoes splitting.
pub proof fn lemma_join_split(s: Seq<char>, sep: char)
    ensures
        join(split(s, sep), seq![sep]) == s,
    decreases s.len(),
{
    if s.len() > 0 {
        let front = s.drop_last();
        let head = split(front, sep);
        lemma_join_split(front, sep);
        lemma_split_nonempty(front, sep);
        assert(front.push(s.last()) == s);
        if s.last() == sep {
            assert(head.push(Seq::empty()).drop_last() == head);
            assert(join(head, seq![sep]) + seq![sep] + Seq::<char>::empty() == s);
        } else {
            let grown = head.update(head.len() - 1, head.last().push(s.last()));
            if head.len() == 1 {
                assert(join(grown, seq![sep]) == head[0].push(s.last()));
            } else {
                assert(grown.drop_last() == head.drop_last());
                assert(join(grown, seq![sep]) == join(head.drop_last(), seq![sep]) + seq![sep]
                    + head.last().push(s.last()));
                assert(join(head, seq![sep]) == join(head.drop_last(), seq![sep]) + seq![sep]
                    + head.last());
                assert(join(grown, seq![sep]) == join(head, seq![sep]).push(s.last()));
            }
        }
    }
}

/// The characters of `s`, in order.
pub(crate) fn chars_of(s: &str) -> (v: Vec<char>)
    ensures
        v@ == s@,
{
    let mut v: Vec<char> = Vec::new();
    for c in it: s.chars()
        invariant
            v@ == it.seq().take(it.index() as int),
            it.seq() == s@,
    {
        v.push(c);
    }
    v
}

/// The string made of the characters `v[from..to]`.
pub(crate) fn string_of(v: &Vec<char>, from: usize, to: usize) -> (s: String)
    requires
        from <= to <= v.len(),
    ensures
        s@ == v@.subrange(from as int, to as int),
{
    let mut s = String::new();
    let mut i: usize = from;
    while i < to
        invariant
            from <= i <= to <= v.len(),
            s@ == v@.subrange(from as int, i as int),
        decreases to - i,
    {
        s.push(v[i]);
        i += 1;
    }
    s
}

/// Whether `line[at..]` starts with `prefix`.
pub(crate) fn starts_with_at(line: &Vec<char>, at: usize, prefix: &Vec<char>) -> (b: bool)
    requires
        at <= line.len(),
    ensures
        b == prefix@.is_prefix_of(line@.skip(at as int)),
{
    if prefix.len() > line.len() - at {
        return false;
    }
    let mut i: usize = 0;
    while i < prefix.len()
        invariant
            at <= line.len(),
            prefix.len() <= line.len() - at,
            i <= prefix.len(),
            prefix@.take(i as int) == line@.skip(at as int).take(i as int),
        decreases prefix.len() - i,
    {
        if prefix[i] != line[at + i] {
            assert(prefix@[i as int] != line@.skip(at as int)[i as int]);
            return false;
        }
        assert(prefix@.take(i + 1) == prefix@.take(i as int).push(prefix@[i as int]));
        assert(line@.skip(at as int).take(i + 1) == line@.skip(at as int).take(i as int).push(
            line@[at + i],
        ));
        i += 1;
    }
    assert(prefix@.take(prefix.len() as int) == prefix@);
    true
}

/// Splits `text` at each occurrence of `sep`.
pub(crate) fn split_chars(text: &Vec<char>, sep: char) -> (pieces: Vec<Vec<char>>)
    ensures
        views(pieces@) == split(text@, sep),
{
    let mut pieces: Vec<Vec<char>> = Vec::new();
    let mut current: Vec<char> = Vec::new();
    let mut i: usize = 0;
    while i < text.len()
        invariant
            i <= text.len(),
            views(pieces@).push(current@) == split(text@.take(i as int), sep),
        decreases text.len() - i,
    {
        let c = text[i];
        proof {
            assert(text@.take(i + 1).drop_last() == text@.take(i as int));
            assert(text@.take(i + 1).last() == c);
        }
        if c == sep {
            let ghost before = views(pieces@);
            pieces.push(current);
            current = Vec::new();
            assert(views(pieces@) == before.push(pieces@.last()@));
        } else {
            let ghost grown = views(pieces@).push(current@.push(c));
            let ghost head = views(pieces@).push(current@);
            current.push(c);
            assert(head.update(head.len() - 1, head.last().push(c)) == grown);
        }
        i += 1;
    }
    assert(text@.take(text.len() as int) == text@);
    let ghost before = views(pieces@);
    pieces.push(current);
    assert(views(pieces@) == before.push(pieces@.last()@));
    pieces
}

} // verus!
