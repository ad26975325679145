//! What the Markdown of a body looks like, for bodies of a few plain kinds:
//! an empty one, one of plain comments, one of statements, and a declaration
//! with a comment above it.

use crate::comment::comment_prose;
use crate::element::{CommentView, ElementView, TokenView};
use crate::render::{
    body_markdown, close_brace, closing_fence, delimited, emit, enter_code, function_markdown,
    inner_elements, is_trivia, is_whitespace, lemma_trivia_len, newline_run, open_brace,
    opening_fence, render_element, render_elements, render_leading, render_node, render_token,
    start_state, trivia_len, verbatim, CodeFenceView, RenderStateView,
};
use crate::text::strip_lines;
use vstd::prelude::*;

verus! {

/// Whether an element is a comment token that documents nothing.
pub open spec fn is_plain_comment(element: ElementView) -> bool {
    element matches ElementView::Token(TokenView::Comment(comment)) && !comment.doc
}

/// Whether an element is a statement: a node that starts with something other
/// than a comment or whitespace.
pub open spec fn is_statement(element: ElementView) -> bool {
    element matches ElementView::Node(children) && children.len() > 0 && !is_trivia(children[0])
}

/// Whether one of the elements is a statement.
pub open spec fn has_statement(elements: Seq<ElementView>) -> bool {
    exists|i: int| 0 <= i < elements.len() && is_statement(#[trigger] elements[i])
}

/// The newlines of the whitespace that the elements end with; none where
/// they end with anything else.
pub open spec fn trailing_newlines(elements: Seq<ElementView>) -> Seq<char> {
    if elements.len() > 0 {
        match elements.last() {
            ElementView::Token(TokenView::Whitespace(text)) => newline_run(text),
            _ => Seq::empty(),
        }
    } else {
        Seq::empty()
    }
}

/// The prose of plain comments with whitespace between them: the prose of
/// each comment, after the newlines of the whitespace right before it.
pub open spec fn comments_prose(elements: Seq<ElementView>, prefix: Seq<char>) -> Seq<char>
    decreases elements.len(),
{
    if elements.len() == 0 {
        Seq::empty()
    } else {
        let front = elements.drop_last();
        match elements.last() {
            ElementView::Token(TokenView::Comment(comment)) => comments_prose(front, prefix)
                + trailing_newlines(front) + comment_prose(comment, prefix),
            _ => comments_prose(front, prefix),
        }
    }
}

/// The code of statements with whitespace between them: the text of each
/// statement with `prefix` taken off each line, after the newlines of the
/// whitespace that parts it from the statement before.
pub open spec fn statements_code(elements: Seq<ElementView>, prefix: Seq<char>) -> Seq<char>
    decreases elements.len(),
{
    if elements.len() == 0 {
        Seq::empty()
    } else {
        let front = elements.drop_last();
        match elements.last() {
            ElementView::Node(children) => statements_code(front, prefix) + if has_statement(
                front,
            ) {
                trailing_newlines(front)
            } else {
                Seq::empty()
            } + verbatim(children, prefix),
            _ => statements_code(front, prefix),
        }
    }
}

/// An empty body is one newline, whatever the indentation and the fence.
pub proof fn lemma_empty_body(prefix: Seq<char>, fence: CodeFenceView)
    ensures
        body_markdown(Seq::empty(), prefix, fence) == seq!['\n'],
        function_markdown(seq![open_brace(), close_brace()], fence) == seq!['\n'],
        delimited(seq![open_brace(), close_brace()]),
{
    let raw = seq![open_brace(), close_brace()];
    assert(inner_elements(raw) =~= Seq::<ElementView>::empty());
    assert(body_markdown(Seq::empty(), prefix, fence) =~= seq!['\n']);
    assert(function_markdown(raw, fence) =~= seq!['\n']);
}

/// The state after plain comments and whitespace: still prose, with the
/// comments' prose written and no fence.
pub proof fn lemma_prose_state(
    elements: Seq<ElementView>,
    prefix: Seq<char>,
    fence: CodeFenceView,
)
    requires
        forall|i: int|
            0 <= i < elements.len() ==> is_plain_comment(elements[i]) || is_whitespace(
                elements[i],
            ),
    ensures
        render_elements(start_state(), elements, prefix, fence) == (RenderStateView {
            in_code_block: false,
            whitespace: trailing_newlines(elements),
            output: comments_prose(elements, prefix),
        }),
    decreases elements.len(),
{
    if elements.len() > 0 {
        let front = elements.drop_last();
        assert forall|i: int| 0 <= i < front.len() implies is_plain_comment(front[i])
            || is_whitespace(front[i]) by {
            assert(front[i] == elements[i]);
        }
        lemma_prose_state(front, prefix, fence);
        let before = render_elements(start_state(), front, prefix, fence);
        let after = render_element(before, elements.last(), prefix, fence);
        assert(is_plain_comment(elements.last()) || is_whitespace(elements.last()));
        assert(after.output =~= comments_prose(elements, prefix));
        assert(after.whitespace =~= trailing_newlines(elements));
    }
}

/// A body of plain comments alone is prose alone: the prose of each comment
/// after the newlines that part it from the one before, and one newline at
/// the end. No fence is written, whatever the fence is.
pub proof fn lemma_prose_only(elements: Seq<ElementView>, prefix: Seq<char>, fence: CodeFenceView)
    requires
        forall|i: int|
            0 <= i < elements.len() ==> is_plain_comment(elements[i]) || is_whitespace(
                elements[i],
            ),
    ensures
        body_markdown(elements, prefix, fence) == comments_prose(elements, prefix) + seq!['\n'],
{
    lemma_prose_state(elements, prefix, fence);
    assert(body_markdown(elements, prefix, fence) =~= comments_prose(elements, prefix) + seq![
        '\n',
    ]);
}

/// The state after a statement: code, with nothing pending, and the text of
/// the statement written after the way to code.
pub proof fn lemma_statement(
    state: RenderStateView,
    children: Seq<ElementView>,
    prefix: Seq<char>,
    fence: CodeFenceView,
)
    requires
        children.len() > 0,
        !is_trivia(children[0]),
    ensures
        render_node(state, children, prefix, fence) == emit(
            enter_code(state, fence),
            verbatim(children, prefix),
        ),
{
    lemma_trivia_len(children, 0);
    assert(children.skip(0) =~= children);
}

/// Whitespace alone holds no code.
proof fn lemma_whitespace_no_code(elements: Seq<ElementView>, prefix: Seq<char>)
    requires
        forall|i: int| 0 <= i < elements.len() ==> is_whitespace(elements[i]),
    ensures
        statements_code(elements, prefix) == Seq::<char>::empty(),
    decreases elements.len(),
{
    if elements.len() > 0 {
        let front = elements.drop_last();
        assert forall|i: int| 0 <= i < front.len() implies is_whitespace(front[i]) by {
            assert(front[i] == elements[i]);
        }
        lemma_whitespace_no_code(front, prefix);
        assert(is_whitespace(elements[elements.len() - 1]));
    }
}

/// The state after statements and whitespace: prose with nothing written
/// before the first statement; from then on code, with the opening fence and
/// the statements' code written.
pub proof fn lemma_code_state(elements: Seq<ElementView>, prefix: Seq<char>, fence: CodeFenceView)
    requires
        forall|i: int|
            0 <= i < elements.len() ==> is_statement(elements[i]) || is_whitespace(elements[i]),
    ensures
        render_elements(start_state(), elements, prefix, fence) == (RenderStateView {
            in_code_block: has_statement(elements),
            whitespace: trailing_newlines(elements),
            output: if has_statement(elements) {
                opening_fence(fence) + statements_code(elements, prefix)
            } else {
                Seq::empty()
            },
        }),
    decreases elements.len(),
{
    if elements.len() > 0 {
        let front = elements.drop_last();
        let last = elements.last();
        assert forall|i: int| 0 <= i < front.len() implies is_statement(front[i]) || is_whitespace(
            front[i],
        ) by {
            assert(front[i] == elements[i]);
        }
        lemma_code_state(front, prefix, fence);
        let before = render_elements(start_state(), front, prefix, fence);
        let after = render_element(before, last, prefix, fence);
        assert(is_statement(last) || is_whitespace(last));
        if has_statement(front) {
            let i = choose|i: int| 0 <= i < front.len() && is_statement(#[trigger] front[i]);
            assert(is_statement(elements[i]));
        }
        if is_statement(last) {
            assert(is_statement(elements[elements.len() - 1]));
            lemma_statement(before, last->Node_0, prefix, fence);
            if !has_statement(front) {
                assert forall|i: int| 0 <= i < front.len() implies is_whitespace(front[i]) by {
                    assert(is_statement(front[i]) || is_whitespace(front[i]));
                }
                lemma_whitespace_no_code(front, prefix);
            }
            assert(after.output =~= opening_fence(fence) + statements_code(elements, prefix));
        } else {
            if has_statement(elements) {
                let i = choose|i: int|
                    0 <= i < elements.len() && is_statement(#[trigger] elements[i]);
                assert(is_statement(front[i]));
            }
            assert(after.output =~= before.output);
        }
        assert(after.whitespace =~= trailing_newlines(elements));
    } else {
        assert(!has_statement(elements));
    }
}

/// A body of statements alone is one code block: the opening fence, the text
/// of each statement after the newlines that part it from the one before, so
/// that a blank line between two statements stays as it is, then the closing
/// fence and one newline.
pub proof fn lemma_code_only(elements: Seq<ElementView>, prefix: Seq<char>, fence: CodeFenceView)
    requires
        forall|i: int|
            0 <= i < elements.len() ==> is_statement(elements[i]) || is_whitespace(elements[i]),
        has_statement(elements),
    ensures
        body_markdown(elements, prefix, fence) == opening_fence(fence) + statements_code(
            elements,
            prefix,
        ) + closing_fence() + seq!['\n'],
{
    lemma_code_state(elements, prefix, fence);
    assert(body_markdown(elements, prefix, fence) =~= opening_fence(fence) + statements_code(
        elements,
        prefix,
    ) + closing_fence() + seq!['\n']);
}

/// A declaration with a comment above it: the comment, whitespace, and then
/// the elements of the declaration itself.
pub open spec fn commented(
    comment: CommentView,
    gap: Seq<char>,
    declaration: Seq<ElementView>,
) -> Seq<ElementView> {
    seq![
        ElementView::Token(TokenView::Comment(comment)),
        ElementView::Token(TokenView::Whitespace(gap)),
    ] + declaration
}

/// The state after the comment and the whitespace that a commented
/// declaration starts with.
proof fn lemma_commented_leading(
    state: RenderStateView,
    comment: CommentView,
    gap: Seq<char>,
    declaration: Seq<ElementView>,
    prefix: Seq<char>,
    fence: CodeFenceView,
)
    requires
        declaration.len() > 0,
        !is_trivia(declaration[0]),
    ensures
        trivia_len(commented(comment, gap, declaration)) == 2,
        commented(comment, gap, declaration).skip(2) == declaration,
        render_leading(state, commented(comment, gap, declaration), 2, prefix, fence)
            == render_token(
            render_token(state, TokenView::Comment(comment), prefix, fence),
            TokenView::Whitespace(gap),
            prefix,
            fence,
        ),
{
    let children = commented(comment, gap, declaration);
    assert(children[2] == declaration[0]);
    lemma_trivia_len(children, 2);
    assert(children.skip(2) =~= declaration);
    reveal_with_fuel(render_leading, 3);
}

/// A doc comment above a declaration in a body is code: it stands inside the
/// fence that holds the declaration, its text as it is but for the
/// indentation, and the newlines below it part it from the declaration.
pub proof fn lemma_doc_comment_in_fence(
    comment: CommentView,
    gap: Seq<char>,
    declaration: Seq<ElementView>,
    prefix: Seq<char>,
    fence: CodeFenceView,
)
    requires
        comment.doc,
        declaration.len() > 0,
        !is_trivia(declaration[0]),
    ensures
        body_markdown(seq![ElementView::Node(commented(comment, gap, declaration))], prefix, fence)
            == opening_fence(fence) + strip_lines(comment.text, prefix) + newline_run(gap)
            + verbatim(declaration, prefix) + closing_fence() + seq!['\n'],
{
    let children = commented(comment, gap, declaration);
    let body = seq![ElementView::Node(children)];
    lemma_commented_leading(start_state(), comment, gap, declaration, prefix, fence);
    assert(body.drop_last() =~= Seq::<ElementView>::empty());
    assert(render_elements(start_state(), body.drop_last(), prefix, fence) == start_state());
    assert(body.last() == ElementView::Node(children));
    assert(render_elements(start_state(), body, prefix, fence) == render_node(
        start_state(),
        children,
        prefix,
        fence,
    ));
    assert(body_markdown(body, prefix, fence) =~= opening_fence(fence) + strip_lines(
        comment.text,
        prefix,
    ) + newline_run(gap) + verbatim(declaration, prefix) + closing_fence() + seq!['\n']);
}

/// A plain comment above a declaration in a body is prose: its prose stands
/// before the fence, and the fence opens for the declaration alone.
pub proof fn lemma_plain_comment_before_fence(
    comment: CommentView,
    gap: Seq<char>,
    declaration: Seq<ElementView>,
    prefix: Seq<char>,
    fence: CodeFenceView,
)
    requires
        !comment.doc,
        declaration.len() > 0,
        !is_trivia(declaration[0]),
    ensures
        body_markdown(seq![ElementView::Node(commented(comment, gap, declaration))], prefix, fence)
            == comment_prose(comment, prefix) + opening_fence(fence) + verbatim(
            declaration,
            prefix,
        ) + closing_fence() + seq!['\n'],
{
    let children = commented(comment, gap, declaration);
    let body = seq![ElementView::Node(children)];
    lemma_commented_leading(start_state(), comment, gap, declaration, prefix, fence);
    assert(body.drop_last() =~= Seq::<ElementView>::empty());
    assert(render_elements(start_state(), body.drop_last(), prefix, fence) == start_state());
    assert(body.last() == ElementView::Node(children));
    assert(render_elements(start_state(), body, prefix, fence) == render_node(
        start_state(),
        children,
        prefix,
        fence,
    ));
    assert(body_markdown(body, prefix, fence) =~= comment_prose(comment, prefix) + opening_fence(
        fence,
    ) + verbatim(declaration, prefix) + closing_fence() + seq!['\n']);
}

} // verus!
