//! What holds of the shared indentation and of its removal: the shared
//! prefix is the longest common one, and a text that has lost its shared
//! indentation has none left to lose.

use crate::indent::{
    common_prefix, indent_len, indents, indents_upto, is_indent, lemma_common_prefix,
    lemma_common_prefix_greatest, lemma_indent_len, lemma_indent_len_bounds, line_at, line_indent,
    shared_indent, shared_prefix,
};
use crate::text::{
    lemma_join_split, lemma_split_join, lemma_split_nonempty, lemma_split_pieces_free, split,
    strip_each, strip_lines, strip_prefix,
};
use vstd::prelude::*;

verus! {

/// Whether a sequence holds indentation only.
pub open spec fn all_indent(s: Seq<char>) -> bool {
    forall|j: int| 0 <= j < s.len() ==> is_indent(s[j])
}

/// Each of `lines` without its first `k` characters.
pub open spec fn skip_each(lines: Seq<Seq<char>>, k: int) -> Seq<Seq<char>> {
    Seq::new(lines.len(), |i: int| lines[i].skip(k))
}

/// A prefix of a prefix is a prefix.
proof fn lemma_prefix_transitive(a: Seq<char>, b: Seq<char>, c: Seq<char>)
    requires
        a.is_prefix_of(b),
        b.is_prefix_of(c),
    ensures
        a.is_prefix_of(c),
{
    assert(a =~= c.subrange(0, a.len() as int)) by {
        assert forall|j: int| 0 <= j < a.len() implies a[j] == c[j] by {
            assert(a[j] == b.subrange(0, a.len() as int)[j]);
            assert(b[j] == c.subrange(0, b.len() as int)[j]);
        }
    }
}

/// The shared prefix of candidates is a prefix of each of them.
pub proof fn lemma_shared_prefix_is_prefix(candidates: Seq<Seq<char>>, i: int)
    requires
        0 <= i < candidates.len(),
    ensures
        shared_prefix(candidates).is_prefix_of(candidates[i]),
    decreases candidates.len(),
{
    if candidates.len() == 1 {
        assert(candidates[0] =~= candidates[0].subrange(0, candidates[0].len() as int));
    } else {
        let front = candidates.drop_last();
        lemma_common_prefix_greatest(shared_prefix(front), candidates.last());
        if i < candidates.len() - 1 {
            lemma_shared_prefix_is_prefix(front, i);
            lemma_prefix_transitive(shared_prefix(candidates), shared_prefix(front), front[i]);
        }
    }
}

/// Whatever every candidate starts with, the shared prefix starts with too:
/// it is the longest common prefix.
pub proof fn lemma_shared_prefix_greatest(candidates: Seq<Seq<char>>, q: Seq<char>)
    requires
        candidates.len() >= 1,
        forall|i: int| 0 <= i < candidates.len() ==> q.is_prefix_of(candidates[i]),
    ensures
        q.is_prefix_of(shared_prefix(candidates)),
    decreases candidates.len(),
{
    if candidates.len() > 1 {
        let front = candidates.drop_last();
        assert forall|i: int| 0 <= i < front.len() implies q.is_prefix_of(front[i]) by {
            assert(front[i] == candidates[i]);
        }
        lemma_shared_prefix_greatest(front, q);
        lemma_common_prefix_greatest(shared_prefix(front), candidates.last());
    }
}

/// The common prefix of two sequences ends where they first differ.
proof fn lemma_common_prefix_stops(a: Seq<char>, b: Seq<char>)
    ensures
        ({
            let k = common_prefix(a, b).len() as int;
            k < a.len() && k < b.len() ==> a[k] != b[k]
        }),
{
    let c = common_prefix(a, b);
    let k = c.len() as int;
    lemma_common_prefix_greatest(a, b);
    if k < a.len() && k < b.len() && a[k] == b[k] {
        let longer = a.take(k + 1);
        assert(longer.is_prefix_of(a));
        assert(longer =~= b.subrange(0, k + 1)) by {
            assert forall|j: int| 0 <= j < k + 1 implies longer[j] == b[j] by {
                if j < k {
                    assert(c[j] == a.subrange(0, k)[j]);
                    assert(c[j] == b.subrange(0, k)[j]);
                }
            }
        }
        assert(longer.is_prefix_of(b));
        assert(longer.is_prefix_of(c));
    }
}

/// Where two sequences start with `q`, their common prefix does, and what
/// follows `q` in it is the common prefix of what follows `q` in them.
proof fn lemma_common_prefix_skip(a: Seq<char>, b: Seq<char>, q: Seq<char>)
    requires
        q.is_prefix_of(a),
        q.is_prefix_of(b),
    ensures
        common_prefix(a.skip(q.len() as int), b.skip(q.len() as int)) == common_prefix(a, b).skip(
            q.len() as int,
        ),
{
    let c = common_prefix(a, b);
    let k = c.len() as int;
    let n = q.len() as int;
    lemma_common_prefix_greatest(a, b);
    lemma_common_prefix_stops(a, b);
    assert(q.is_prefix_of(c));
    let sa = a.skip(n);
    let sb = b.skip(n);
    assert forall|j: int| 0 <= j < k - n implies sa[j] == sb[j] by {
        assert(c[j + n] == a.subrange(0, k)[j + n]);
        assert(c[j + n] == b.subrange(0, k)[j + n]);
    }
    lemma_common_prefix(sa, sb, k - n);
    assert(sa.take(k - n) =~= c.skip(n)) by {
        assert forall|j: int| 0 <= j < k - n implies sa.take(k - n)[j] == c.skip(n)[j] by {
            assert(c[j + n] == a.subrange(0, k)[j + n]);
        }
    }
}

/// Where every candidate starts with `q`, what follows `q` in their shared
/// prefix is the shared prefix of what follows `q` in them.
proof fn lemma_shared_prefix_skip(candidates: Seq<Seq<char>>, q: Seq<char>)
    requires
        candidates.len() >= 1,
        forall|i: int| 0 <= i < candidates.len() ==> q.is_prefix_of(candidates[i]),
    ensures
        shared_prefix(skip_each(candidates, q.len() as int)) == shared_prefix(candidates).skip(
            q.len() as int,
        ),
    decreases candidates.len(),
{
    let n = q.len() as int;
    let skipped = skip_each(candidates, n);
    if candidates.len() > 1 {
        let front = candidates.drop_last();
        assert forall|i: int| 0 <= i < front.len() implies q.is_prefix_of(front[i]) by {
            assert(front[i] == candidates[i]);
        }
        lemma_shared_prefix_skip(front, q);
        lemma_shared_prefix_greatest(front, q);
        lemma_common_prefix_skip(shared_prefix(front), candidates.last(), q);
        assert(skipped.drop_last() == skip_each(front, n));
        assert(skipped.last() == candidates.last().skip(n));
    }
}

/// A line that starts with a run of indentation has at least that much of
/// it, and without the run as much less.
proof fn lemma_indent_len_skip(line: Seq<char>, p: Seq<char>)
    requires
        all_indent(p),
        p.is_prefix_of(line),
    ensures
        indent_len(line) >= p.len(),
        indent_len(line.skip(p.len() as int)) == indent_len(line) - p.len(),
{
    let k = indent_len(line) as int;
    let n = p.len() as int;
    lemma_indent_len_bounds(line);
    if k < n {
        assert(p[k] == line.subrange(0, n)[k]);
        assert(is_indent(p[k]));
    }
    let rest = line.skip(n);
    assert forall|j: int| 0 <= j < k - n implies is_indent(rest[j]) by {
        assert(rest[j] == line[j + n]);
    }
    lemma_indent_len(rest, k - n);
}

/// The indentation of a line without a run of indentation that it starts
/// with is its indentation without that run.
proof fn lemma_line_indent_skip(line: Seq<char>, p: Seq<char>)
    requires
        all_indent(p),
        p.is_prefix_of(line),
    ensures
        line_indent(line.skip(p.len() as int)) == match line_indent(line) {
            Some(indent) => Some(indent.skip(p.len() as int)),
            None => None,
        },
{
    let k = indent_len(line) as int;
    let n = p.len() as int;
    lemma_indent_len_skip(line, p);
    lemma_indent_len_bounds(line);
    if k < line.len() {
        assert(line.skip(n).take(k - n) =~= line.take(k).skip(n));
    }
}

/// The indentation of a line is indentation, and the line starts with it.
proof fn lemma_line_indent_is_indent(line: Seq<char>)
    ensures
        line_indent(line) matches Some(indent) ==> all_indent(indent) && indent.is_prefix_of(line),
{
    lemma_indent_len_bounds(line);
}

/// Line `i` of a text whose lines have lost the prefix `p`: where `p` is
/// indentation and the line's own indentation, if it has any, starts with
/// `p`, the line has lost `p` from its indentation and has one if it had one.
proof fn lemma_stripped_line(pieces: Seq<Seq<char>>, i: int, p: Seq<char>)
    requires
        0 <= i < pieces.len(),
        all_indent(p),
        line_indent(line_at(pieces, i)) matches Some(indent) ==> p.is_prefix_of(indent),
    ensures
        line_indent(line_at(strip_each(pieces, p), i)) == match line_indent(line_at(pieces, i)) {
            Some(indent) => Some(indent.skip(p.len() as int)),
            None => None,
        },
{
    let n = p.len() as int;
    let piece = pieces[i];
    let stripped = strip_each(pieces, p);
    let line = line_at(pieces, i);
    let after = line_at(stripped, i);
    assert(stripped[i] == strip_prefix(piece, p));
    if p.is_prefix_of(piece) {
        assert(stripped[i] == piece.skip(n));
        assert(p.is_prefix_of(line) && after == line.skip(n)) by {
            if i < pieces.len() - 1 && piece.len() > 0 && piece.last() == '\r' {
                if piece.len() == n {
                    assert(p[n - 1] == piece.subrange(0, n)[n - 1]);
                    assert(is_indent(p[n - 1]));
                }
                assert(piece.skip(n).drop_last() =~= piece.drop_last().skip(n));
                assert(p =~= piece.drop_last().subrange(0, n));
            }
        }
        lemma_line_indent_skip(line, p);
    } else {
        assert(stripped[i] == piece);
        assert(after == line);
        lemma_line_indent_is_indent(line);
        if let Some(indent) = line_indent(line) {
            lemma_prefix_transitive(p, indent, line);
            assert(line.is_prefix_of(piece)) by {
                assert(piece =~= piece.subrange(0, piece.len() as int));
                if piece.len() > 0 {
                    assert(piece.drop_last() =~= piece.subrange(0, piece.len() - 1));
                }
            }
            lemma_prefix_transitive(p, line, piece);
        }
    }
}

/// The indentations of the first `n` lines hold the indentation of each of
/// those lines that has one, and nothing but indentation.
proof fn lemma_indents_hold(pieces: Seq<Seq<char>>, n: nat, i: int)
    requires
        0 <= i < n <= pieces.len(),
    ensures
        forall|j: int|
            0 <= j < indents_upto(pieces, n).len() ==> all_indent(
                #[trigger] indents_upto(pieces, n)[j],
            ),
        line_indent(line_at(pieces, i)) matches Some(indent) ==> exists|j: int|
            0 <= j < indents_upto(pieces, n).len() && #[trigger] indents_upto(pieces, n)[j]
                == indent,
    decreases n,
{
    let head = indents_upto(pieces, (n - 1) as nat);
    let whole = indents_upto(pieces, n);
    lemma_line_indent_is_indent(line_at(pieces, n - 1));
    if n > 1 {
        lemma_indents_hold(pieces, (n - 1) as nat, if i < n - 1 {
            i
        } else {
            0
        });
    }
    assert forall|j: int| 0 <= j < whole.len() implies all_indent(#[trigger] whole[j]) by {
        if j < head.len() {
            assert(whole[j] == head[j]);
        }
    }
    if let Some(indent) = line_indent(line_at(pieces, i)) {
        if i == n - 1 {
            assert(whole[whole.len() - 1] == indent);
        } else {
            let j = choose|j: int| 0 <= j < head.len() && #[trigger] head[j] == indent;
            assert(whole[j] == indent);
        }
    }
}

/// The indentations of the lines of a text whose lines have lost the prefix
/// `p`: where `p` is indentation that the indentation of each line starts
/// with, they are the indentations of the text without `p`.
proof fn lemma_stripped_indents(pieces: Seq<Seq<char>>, n: nat, p: Seq<char>)
    requires
        n <= pieces.len(),
        all_indent(p),
        forall|i: int|
            0 <= i < n ==> (line_indent(#[trigger] line_at(pieces, i)) matches Some(indent)
                ==> p.is_prefix_of(indent)),
    ensures
        indents_upto(strip_each(pieces, p), n) == skip_each(
            indents_upto(pieces, n),
            p.len() as int,
        ),
    decreases n,
{
    if n > 0 {
        lemma_stripped_indents(pieces, (n - 1) as nat, p);
        assert(line_indent(line_at(pieces, n - 1)) matches Some(indent) ==> p.is_prefix_of(indent));
        lemma_stripped_line(pieces, n - 1, p);
        assert(indents_upto(strip_each(pieces, p), n) =~= skip_each(
            indents_upto(pieces, n),
            p.len() as int,
        ));
    } else {
        assert(indents_upto(strip_each(pieces, p), n) =~= skip_each(
            indents_upto(pieces, n),
            p.len() as int,
        ));
    }
}

/// The indentation that the lines of a text share is made of spaces and tabs
/// alone, and every line that has an indentation starts with it.
pub proof fn lemma_shared_indent_is_indent(text: Seq<char>)
    ensures
        all_indent(shared_indent(text)),
        forall|i: int|
            0 <= i < indents(text).len() ==> shared_indent(text).is_prefix_of(
                #[trigger] indents(text)[i],
            ),
{
    let pieces = split(text, '\n');
    let found = indents(text);
    let p = shared_indent(text);
    lemma_split_nonempty(text, '\n');
    if found.len() > 0 {
        lemma_indents_hold(pieces, pieces.len(), 0);
        lemma_shared_prefix_is_prefix(found, 0);
        assert(all_indent(found[0]));
        assert forall|j: int| 0 <= j < p.len() implies is_indent(p[j]) by {
            assert(p[j] == found[0].subrange(0, p.len() as int)[j]);
        }
    }
    assert forall|i: int| 0 <= i < found.len() implies p.is_prefix_of(#[trigger] found[i]) by {
        lemma_shared_prefix_is_prefix(found, i);
    }
}

/// De-indentation is idempotent. A text without the indentation that its
/// lines share has lines that share none, so taking the shared indentation
/// off once more changes nothing.
pub proof fn lemma_deindent_idempotent(text: Seq<char>)
    ensures
        shared_indent(strip_lines(text, shared_indent(text))) == Seq::<char>::empty(),
        strip_lines(
            strip_lines(text, shared_indent(text)),
            shared_indent(strip_lines(text, shared_indent(text))),
        ) == strip_lines(text, shared_indent(text)),
{
    let pieces = split(text, '\n');
    let found = indents(text);
    let p = shared_indent(text);
    let n = p.len() as int;
    let stripped = strip_each(pieces, p);
    let once = strip_lines(text, p);
    lemma_split_nonempty(text, '\n');
    lemma_split_pieces_free(text, '\n');
    assert forall|i: int, j: int|
        0 <= i < stripped.len() && 0 <= j < stripped[i].len() implies stripped[i][j] != '\n' by {
        if p.is_prefix_of(pieces[i]) {
            assert(stripped[i][j] == pieces[i][j + n]);
        }
    }
    lemma_split_join(stripped, '\n');
    assert(split(once, '\n') == stripped);
    lemma_shared_indent_is_indent(text);
    assert forall|i: int| 0 <= i < pieces.len() implies (line_indent(
        #[trigger] line_at(pieces, i),
    ) matches Some(indent) ==> p.is_prefix_of(indent)) by {
        if let Some(indent) = line_indent(line_at(pieces, i)) {
            lemma_indents_hold(pieces, pieces.len(), i);
            let j = choose|j: int| 0 <= j < found.len() && #[trigger] found[j] == indent;
            lemma_shared_prefix_is_prefix(found, j);
        }
    }
    lemma_stripped_indents(pieces, pieces.len(), p);
    assert(indents(once) == skip_each(found, n));
    if found.len() > 0 {
        assert forall|i: int| 0 <= i < found.len() implies p.is_prefix_of(found[i]) by {
            lemma_shared_prefix_is_prefix(found, i);
        }
        lemma_shared_prefix_skip(found, p);
        assert(p.skip(n) =~= Seq::<char>::empty());
    } else {
        assert(skip_each(found, n) =~= Seq::<Seq<char>>::empty());
    }
    assert(shared_indent(once) == Seq::<char>::empty());
    assert(strip_each(stripped, Seq::<char>::empty()) =~= stripped) by {
        assert forall|i: int| 0 <= i < stripped.len() implies strip_prefix(
            stripped[i],
            Seq::<char>::empty(),
        ) == stripped[i] by {
            assert(stripped[i].skip(0) =~= stripped[i]);
        }
    }
    lemma_join_split(once, '\n');
}

} // verus!
