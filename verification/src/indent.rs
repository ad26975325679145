//! Indentation: the leading run of spaces and tabs of a line, the prefix that
//! the lines of a text share, and its removal.

use crate::text::{
    chars_of, first_mismatch, join_strings, split, split_chars, starts_with_at, string_of,
    string_views, strip_each, strip_lines, strip_prefix, views,
};
use vstd::prelude::*;
use vstd::string::*;

verus! {

/// True for the two characters that count as indentation: space and tab.
pub open spec fn is_indent(c: char) -> bool {
    c == ' ' || c == '\t'
}

/// The length of the leading run of indentation of `line`.
pub open spec fn indent_len(line: Seq<char>) -> nat
    decreases line.len(),
{
    if line.len() > 0 && is_indent(line[0]) {
        1 + indent_len(line.drop_first())
    } else {
        0
    }
}

/// The indentation of `line`: its leading run of spaces and tabs, if anything
/// follows it. A line of indentation alone, or an empty one, has none.
pub open spec fn line_indent(line: Seq<char>) -> Option<Seq<char>> {
    if indent_len(line) < line.len() {
        Some(line.take(indent_len(line) as int))
    } else {
        None
    }
}

/// The longest sequence that both `a` and `b` start with.
pub open spec fn common_prefix(a: Seq<char>, b: Seq<char>) -> Seq<char>
    decreases a.len(),
{
    if a.len() > 0 && b.len() > 0 && a[0] == b[0] {
        seq![a[0]] + common_prefix(a.drop_first(), b.drop_first())
    } else {
        Seq::empty()
    }
}

/// The longest sequence that every candidate starts with; empty where there
/// is no candidate.
pub open spec fn shared_prefix(candidates: Seq<Seq<char>>) -> Seq<char>
    decreases candidates.len(),
{
    if candidates.len() == 0 {
        Seq::empty()
    } else if candidates.len() == 1 {
        candidates[0]
    } else {
        common_prefix(shared_prefix(candidates.drop_last()), candidates.last())
    }
}

/// `line` without one carriage return at its end.
pub open spec fn chomp(line: Seq<char>) -> Seq<char> {
    if line.len() > 0 && line.last() == '\r' {
        line.drop_last()
    } else {
        line
    }
}

/// Line `i` of a text split at its newlines. A line ends at a newline or at a
/// carriage return followed by one; neither belongs to the line. What follows
/// the last newline is a line as it stands.
pub open spec fn line_at(pieces: Seq<Seq<char>>, i: int) -> Seq<char> {
    if i < pieces.len() - 1 {
        chomp(pieces[i])
    } else {
        pieces[i]
    }
}

/// The indentations of the first `n` lines, in order, of those that have one.
pub open spec fn indents_upto(pieces: Seq<Seq<char>>, n: nat) -> Seq<Seq<char>>
    decreases n,
{
    if n == 0 {
        Seq::empty()
    } else {
        let head = indents_upto(pieces, (n - 1) as nat);
        match line_indent(line_at(pieces, n - 1)) {
            Some(indent) => head.push(indent),
            None => head,
        }
    }
}

/// The indentation of each line of `text` that has one, in order.
pub open spec fn indents(text: Seq<char>) -> Seq<Seq<char>> {
    indents_upto(split(text, '\n'), split(text, '\n').len())
}

/// The indentation that the lines of `text` share.
pub open spec fn shared_indent(text: Seq<char>) -> Seq<char> {
    shared_prefix(indents(text))
}

/// What `indent_len` counts: every character before position `k` is
/// indentation, and the one at `k`, if there is one, is not.
pub proof fn lemma_indent_len(line: Seq<char>, k: int)
    requires
        0 <= k <= line.len(),
        forall|j: int| 0 <= j < k ==> is_indent(line[j]),
        k < line.len() ==> !is_indent(line[k]),
    ensures
        indent_len(line) == k,
    decreases line.len(),
{
    if k > 0 {
        let rest = line.drop_first();
        assert forall|j: int| 0 <= j < k - 1 implies is_indent(rest[j]) by {
            assert(rest[j] == line[j + 1]);
        }
        lemma_indent_len(rest, k - 1);
    }
}

/// `indent_len` stays within the line, covers indentation only and stops at
/// the first character that is none.
pub proof fn lemma_indent_len_bounds(line: Seq<char>)
    ensures
        indent_len(line) <= line.len(),
        forall|j: int| 0 <= j < indent_len(line) ==> is_indent(line[j]),
        indent_len(line) < line.len() ==> !is_indent(line[indent_len(line) as int]),
    decreases line.len(),
{
    if line.len() > 0 && is_indent(line[0]) {
        let rest = line.drop_first();
        lemma_indent_len_bounds(rest);
        assert forall|j: int| 0 <= j < indent_len(line) implies is_indent(line[j]) by {
            if j > 0 {
                assert(line[j] == rest[j - 1]);
            }
        }
    }
}

/// What `common_prefix` computes, by the position `k` at which the two
/// sequences first differ or the shorter one ends.
pub proof fn lemma_common_prefix(a: Seq<char>, b: Seq<char>, k: int)
    requires
        0 <= k <= a.len(),
        k <= b.len(),
        forall|j: int| 0 <= j < k ==> a[j] == b[j],
        k < a.len() && k < b.len() ==> a[k] != b[k],
    ensures
        common_prefix(a, b) == a.take(k),
    decreases a.len(),
{
    if k > 0 {
        let ra = a.drop_first();
        let rb = b.drop_first();
        assert forall|j: int| 0 <= j < k - 1 implies ra[j] == rb[j] by {
            assert(ra[j] == a[j + 1]);
            assert(rb[j] == b[j + 1]);
        }
        lemma_common_prefix(ra, rb, k - 1);
        assert(seq![a[0]] + ra.take(k - 1) == a.take(k));
    } else {
        assert(a.take(0) == Seq::<char>::empty());
    }
}

/// The common prefix of two sequences is a prefix of both, and every
/// sequence that both start with is a prefix of it.
pub proof fn lemma_common_prefix_greatest(a: Seq<char>, b: Seq<char>)
    ensures
        common_prefix(a, b).is_prefix_of(a),
        common_prefix(a, b).is_prefix_of(b),
        forall|p: Seq<char>|
            p.is_prefix_of(a) && p.is_prefix_of(b) ==> #[trigger] p.is_prefix_of(
                common_prefix(a, b),
            ),
    decreases a.len(),
{
    let c = common_prefix(a, b);
    if a.len() > 0 && b.len() > 0 && a[0] == b[0] {
        let ra = a.drop_first();
        let rb = b.drop_first();
        let rc = common_prefix(ra, rb);
        lemma_common_prefix_greatest(ra, rb);
        assert(c == seq![a[0]] + rc);
        assert(c.is_prefix_of(a)) by {
            assert(rc == ra.subrange(0, rc.len() as int));
            assert(c == a.subrange(0, c.len() as int));
        }
        assert(c.is_prefix_of(b)) by {
            assert(rc == rb.subrange(0, rc.len() as int));
            assert(c == b.subrange(0, c.len() as int));
        }
        assert forall|p: Seq<char>|
            p.is_prefix_of(a) && p.is_prefix_of(b) implies #[trigger] p.is_prefix_of(c) by {
            if p.len() > 0 {
                let rp = p.drop_first();
                assert(p == a.subrange(0, p.len() as int));
                assert(p == b.subrange(0, p.len() as int));
                assert(rp == ra.subrange(0, rp.len() as int));
                assert(rp == rb.subrange(0, rp.len() as int));
                assert(rp.is_prefix_of(ra) && rp.is_prefix_of(rb));
                assert(rp.is_prefix_of(rc));
                assert(rp == rc.subrange(0, rp.len() as int));
                assert(p == c.subrange(0, p.len() as int));
            } else {
                assert(p == c.subrange(0, 0));
            }
        }
    } else {
        assert(c == a.subrange(0, 0));
        assert(c == b.subrange(0, 0));
        assert forall|p: Seq<char>|
            p.is_prefix_of(a) && p.is_prefix_of(b) implies #[trigger] p.is_prefix_of(c) by {
            assert(p == a.subrange(0, p.len() as int));
            assert(p == b.subrange(0, p.len() as int));
            if p.len() > 0 {
                assert(p[0] == a[0]);
                assert(p[0] == b[0]);
            }
            assert(p == c.subrange(0, p.len() as int));
        }
    }
}

/// The length of the leading run of indentation of `line[..end]`.
fn leading_indent(line: &Vec<char>, end: usize) -> (k: usize)
    requires
        end <= line.len(),
    ensures
        k == indent_len(line@.take(end as int)),
        k <= end,
{
    let mut k: usize = 0;
    while k < end && (line[k] == ' ' || line[k] == '\t')
        invariant
            k <= end <= line.len(),
            forall|j: int| 0 <= j < k ==> is_indent(line@[j]),
        decreases end - k,
    {
        k += 1;
    }
    proof {
        lemma_indent_len(line@.take(end as int), k as int);
    }
    k
}

/// The leading run of spaces and tabs of `line`, if anything follows it:
/// `None` for a line that holds nothing else.
pub fn whitespace_prefix(line: &str) -> (prefix: Option<&str>)
    ensures
        match prefix {
            Some(p) => line_indent(line@) == Some(p@),
            None => line_indent(line@) is None,
        },
{
    let chars = chars_of(line);
    let k = leading_indent(&chars, chars.len());
    assert(chars@.take(chars.len() as int) == chars@);
    if k < chars.len() {
        Some(line.substring_char(0, k))
    } else {
        None
    }
}

/// The longest string that every one of `prefixes` starts with, found by
/// comparing them character by character; empty where there is none.
pub fn longest_prefix(prefixes: &Vec<String>) -> (longest: String)
    ensures
        longest@ == shared_prefix(string_views(prefixes@)),
{
    if prefixes.len() == 0 {
        return String::new();
    }
    let mut longest: String = prefixes[0].clone();
    let mut i: usize = 1;
    assert(string_views(prefixes@).take(1) == seq![prefixes@[0]@]);
    while i < prefixes.len()
        invariant
            1 <= i <= prefixes.len(),
            longest@ == shared_prefix(string_views(prefixes@).take(i as int)),
        decreases prefixes.len() - i,
    {
        let other = prefixes[i].as_str();
        let cut = match first_mismatch(longest.as_str(), other) {
            Some(position) => position,
            None => {
                let a = longest.as_str().unicode_len();
                let b = other.unicode_len();
                if a <= b {
                    a
                } else {
                    b
                }
            },
        };
        proof {
            let seen = string_views(prefixes@).take(i + 1);
            lemma_common_prefix(longest@, other@, cut as int);
            assert(seen.drop_last() == string_views(prefixes@).take(i as int));
            assert(seen.last() == other@);
        }
        longest = longest.as_str().substring_char(0, cut).to_owned();
        i += 1;
    }
    assert(string_views(prefixes@).take(prefixes.len() as int) == string_views(prefixes@));
    longest
}

/// The indentation that the lines of `text` share: the longest run of spaces
/// and tabs that starts every line holding anything else.
pub fn shared_indentation(text: &str) -> (prefix: String)
    ensures
        prefix@ == shared_indent(text@),
{
    let chars = chars_of(text);
    let pieces = split_chars(&chars, '\n');
    let mut found: Vec<String> = Vec::new();
    let mut i: usize = 0;
    while i < pieces.len()
        invariant
            i <= pieces.len(),
            views(pieces@) == split(text@, '\n'),
            string_views(found@) == indents_upto(views(pieces@), i as nat),
        decreases pieces.len() - i,
    {
        let piece = &pieces[i];
        let mut end: usize = piece.len();
        if i + 1 < pieces.len() && end > 0 && piece[end - 1] == '\r' {
            end -= 1;
        }
        assert(piece@.take(end as int) == line_at(views(pieces@), i as int)) by {
            assert(piece@.take(piece.len() as int) == piece@);
            if piece.len() > 0 {
                assert(piece@.take(piece.len() - 1) == piece@.drop_last());
            }
        }
        let k = leading_indent(piece, end);
        if k < end {
            let ghost before = string_views(found@);
            found.push(string_of(piece, 0, k));
            assert(piece@.subrange(0, k as int) == piece@.take(end as int).take(k as int));
            assert(string_views(found@) == before.push(piece@.take(end as int).take(k as int)));
        }
        i += 1;
    }
    longest_prefix(&found)
}

/// `text` with `prefix` removed from the start of each line that starts with
/// it; the other lines stay as they are.
pub fn write_lines(text: &str, prefix: &str) -> (stripped: String)
    ensures
        stripped@ == strip_lines(text@, prefix@),
{
    let chars = chars_of(text);
    let lead = chars_of(prefix);
    let pieces = split_chars(&chars, '\n');
    let mut lines: Vec<String> = Vec::new();
    let mut i: usize = 0;
    while i < pieces.len()
        invariant
            i <= pieces.len(),
            lead@ == prefix@,
            string_views(lines@) == strip_each(views(pieces@), prefix@).take(i as int),
        decreases pieces.len() - i,
    {
        let piece = &pieces[i];
        let from: usize = if starts_with_at(piece, 0, &lead) {
            lead.len()
        } else {
            0
        };
        let ghost before = string_views(lines@);
        assert(piece@.skip(0) == piece@);
        lines.push(string_of(piece, from, piece.len()));
        assert(string_views(lines@) == before.push(strip_prefix(piece@, prefix@)));
        assert(strip_each(views(pieces@), prefix@).take(i + 1) == strip_each(
            views(pieces@),
            prefix@,
        ).take(i as int).push(strip_prefix(piece@, prefix@)));
        i += 1;
    }
    assert(strip_each(views(pieces@), prefix@).take(pieces.len() as int) == strip_each(
        views(pieces@),
        prefix@,
    ));
    proof {
        reveal_strlit("\n");
        assert("\n"@ == seq!['\n']);
    }
    join_strings(&lines, "\n")
}

} // verus!
