//! Prose from a comment: the text between its markers, with the indentation
//! of the surrounding code taken off each line.

use crate::element::{Comment, CommentShape, CommentView};
use crate::text::{
    chars_of, join, join_strings, split, split_chars, starts_with_at, string_of, string_views,
    strip_prefix, views,
};
use vstd::prelude::*;

verus! {

/// Whether `text` ends with the marker that closes a block comment.
pub open spec fn ends_with_close(text: Seq<char>) -> bool {
    text.len() >= 2 && text[text.len() - 2] == '*' && text[text.len() - 1] == '/'
}

/// What a comment says: its text after the marker that introduces it and, for
/// a block comment, before the marker that closes it, where that is there.
pub open spec fn comment_content(comment: CommentView) -> Seq<char> {
    let after = if comment.marker_len <= comment.text.len() {
        comment.text.skip(comment.marker_len as int)
    } else {
        Seq::empty()
    };
    if comment.shape == CommentShape::Block && ends_with_close(after) {
        after.take(after.len() - 2)
    } else {
        after
    }
}

/// `line` without one space at its start.
pub open spec fn strip_space(line: Seq<char>) -> Seq<char> {
    if line.len() > 0 && line[0] == ' ' {
        line.drop_first()
    } else {
        line
    }
}

/// The lines of a comment's content as prose: the first without one leading
/// space, each later one without `prefix` where it starts with it.
pub open spec fn prose_lines(lines: Seq<Seq<char>>, prefix: Seq<char>) -> Seq<Seq<char>> {
    Seq::new(
        lines.len(),
        |i: int|
            if i == 0 {
                strip_space(lines[i])
            } else {
                strip_prefix(lines[i], prefix)
            },
    )
}

/// The prose that a comment stands for.
pub open spec fn comment_prose(comment: CommentView, prefix: Seq<char>) -> Seq<char> {
    join(prose_lines(split(comment_content(comment), '\n'), prefix), seq!['\n'])
}

/// The prose of a comment: what follows its marker, without one leading
/// space; of a block comment, without the closing marker; and from the second
/// line on without `prefix` where a line starts with it.
pub fn write_comment(comment: &Comment, prefix: &str) -> (prose: String)
    ensures
        prose@ == comment_prose(comment@, prefix@),
{
    let chars = chars_of(comment.text.as_str());
    let lead = chars_of(prefix);
    let from: usize = if comment.marker_len <= chars.len() {
        comment.marker_len
    } else {
        chars.len()
    };
    let mut content: Vec<char> = Vec::new();
    let mut j: usize = from;
    while j < chars.len()
        invariant
            from <= j <= chars.len(),
            content@ == chars@.subrange(from as int, j as int),
        decreases chars.len() - j,
    {
        content.push(chars[j]);
        j += 1;
    }
    assert(content@ == chars@.skip(from as int));
    let n = content.len();
    let closed = match comment.shape {
        CommentShape::Line => false,
        CommentShape::Block => n >= 2 && content[n - 2] == '*' && content[n - 1] == '/',
    };
    if closed {
        content.truncate(n - 2);
    }
    assert(content@ == comment_content(comment@));
    let pieces = split_chars(&content, '\n');
    let mut lines: Vec<String> = Vec::new();
    let mut i: usize = 0;
    while i < pieces.len()
        invariant
            i <= pieces.len(),
            lead@ == prefix@,
            string_views(lines@) == prose_lines(views(pieces@), prefix@).take(i as int),
        decreases pieces.len() - i,
    {
        let piece = &pieces[i];
        let skip: usize = if i == 0 {
            if piece.len() > 0 && piece[0] == ' ' {
                1
            } else {
                0
            }
        } else if starts_with_at(piece, 0, &lead) {
            lead.len()
        } else {
            0
        };
        let ghost before = string_views(lines@);
        assert(piece@.skip(0) == piece@);
        lines.push(string_of(piece, skip, piece.len()));
        assert(string_views(lines@) == before.push(piece@.skip(skip as int)));
        assert(prose_lines(views(pieces@), prefix@).take(i + 1) == prose_lines(
            views(pieces@),
            prefix@,
        ).take(i as int).push(piece@.skip(skip as int)));
        i += 1;
    }
    assert(prose_lines(views(pieces@), prefix@).take(pieces.len() as int) == prose_lines(
        views(pieces@),
        prefix@,
    ));
    proof {
        reveal_strlit("\n");
        assert("\n"@ == seq!['\n']);
    }
    join_strings(&lines, "\n")
}

} // verus!
