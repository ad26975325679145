//! The renderer: a walk over the elements of a function body that writes
//! plain comments as prose and everything else inside fenced code blocks.

use crate::comment::{comment_prose, write_comment};
use crate::element::{
    element_text, elements_text, lemma_elements_text_push, lemma_views_of, text_of, views_of,
    Element, ElementView, Token, TokenView,
};
use crate::error::{structure_error, structure_failure, Error};
use crate::indent::{shared_indent, shared_indentation, write_lines};
use crate::text::{chars_of, count_char, repeat_char, strip_lines};
use vstd::prelude::*;
use vstd::string::*;

verus! {

/// How a code block opens: the language named after the fence, and whether
/// the block is marked as one that is not to be compiled.
#[derive(Debug)]
pub struct CodeFence {
    pub language: String,
    pub ignore: bool,
}

/// What a code fence holds.
pub struct CodeFenceView {
    pub language: Seq<char>,
    pub ignore: bool,
}

impl View for CodeFence {
    type V = CodeFenceView;

    open spec fn view(&self) -> CodeFenceView {
        CodeFenceView { language: self.language@, ignore: self.ignore }
    }
}

/// The state of a walk: whether a code block is open, the newlines seen
/// since the last text was written and not written themselves yet, and what
/// has been written.
#[derive(Debug)]
pub struct RenderState {
    pub in_code_block: bool,
    pub whitespace: String,
    pub output: String,
}

/// What a render state holds.
pub struct RenderStateView {
    pub in_code_block: bool,
    pub whitespace: Seq<char>,
    pub output: Seq<char>,
}

impl View for RenderState {
    type V = RenderStateView;

    open spec fn view(&self) -> RenderStateView {
        RenderStateView {
            in_code_block: self.in_code_block,
            whitespace: self.whitespace@,
            output: self.output@,
        }
    }
}

/// The mark that a block is not to be compiled, as it follows the language.
pub open spec fn ignore_mark() -> Seq<char> {
    seq![',', 'i', 'g', 'n', 'o', 'r', 'e']
}

/// What opens a code block: a blank line, the fence with its language and
/// mark, and a newline.
pub open spec fn opening_fence(fence: CodeFenceView) -> Seq<char> {
    seq!['\n', '\n', '`', '`', '`'] + fence.language + if fence.ignore {
        ignore_mark()
    } else {
        Seq::empty()
    } + seq!['\n']
}

/// What closes a code block: a newline and the fence.
pub open spec fn closing_fence() -> Seq<char> {
    seq!['\n', '`', '`', '`']
}

/// What leads from a code block to prose: the closing fence and a blank line.
pub open spec fn fence_gap() -> Seq<char> {
    closing_fence() + seq!['\n', '\n']
}

/// What is written on the way to code: the opening fence from prose, the
/// pending newlines inside a code block.
pub open spec fn code_entry(
    in_code_block: bool,
    whitespace: Seq<char>,
    fence: CodeFenceView,
) -> Seq<char> {
    if in_code_block {
        whitespace
    } else {
        opening_fence(fence)
    }
}

/// What is written on the way to prose: the closing fence and a blank line
/// from a code block, the pending newlines in prose.
pub open spec fn prose_entry(in_code_block: bool, whitespace: Seq<char>) -> Seq<char> {
    if in_code_block {
        fence_gap()
    } else {
        whitespace
    }
}

/// The state before anything is written: in prose, with nothing pending.
pub open spec fn start_state() -> RenderStateView {
    RenderStateView { in_code_block: false, whitespace: Seq::empty(), output: Seq::empty() }
}

/// The state after the way to code. Newlines that were written are pending no
/// longer.
pub open spec fn enter_code(state: RenderStateView, fence: CodeFenceView) -> RenderStateView {
    RenderStateView {
        in_code_block: true,
        whitespace: if state.in_code_block {
            Seq::empty()
        } else {
            state.whitespace
        },
        output: state.output + code_entry(state.in_code_block, state.whitespace, fence),
    }
}

/// The state after the way to prose. Newlines that were written are pending
/// no longer.
pub open spec fn enter_prose(state: RenderStateView) -> RenderStateView {
    RenderStateView {
        in_code_block: false,
        whitespace: if state.in_code_block {
            state.whitespace
        } else {
            Seq::empty()
        },
        output: state.output + prose_entry(state.in_code_block, state.whitespace),
    }
}

/// The state after `text` is written: nothing is pending.
pub open spec fn emit(state: RenderStateView, text: Seq<char>) -> RenderStateView {
    RenderStateView {
        in_code_block: state.in_code_block,
        whitespace: Seq::empty(),
        output: state.output + text,
    }
}

/// As many newlines as `text` holds.
pub open spec fn newline_run(text: Seq<char>) -> Seq<char> {
    repeat_char('\n', count_char(text, '\n'))
}

/// The state after a token.
///
/// - A doc comment is code: the way to code, then its text with `prefix`
///   taken off each line.
/// - A plain comment is prose: the way to prose, then its prose.
/// - Whitespace is not written: its newlines become the pending ones.
/// - Any other token is code: the way to code, then what is still pending and
///   its text with `prefix` taken off each line.
pub open spec fn render_token(
    state: RenderStateView,
    token: TokenView,
    prefix: Seq<char>,
    fence: CodeFenceView,
) -> RenderStateView {
    match token {
        TokenView::Comment(comment) => if comment.doc {
            emit(enter_code(state, fence), strip_lines(comment.text, prefix))
        } else {
            emit(enter_prose(state), comment_prose(comment, prefix))
        },
        TokenView::Whitespace(text) => RenderStateView {
            in_code_block: state.in_code_block,
            whitespace: newline_run(text),
            output: state.output,
        },
        TokenView::Substantive(text) => {
            let entered = enter_code(state, fence);
            emit(entered, entered.whitespace + strip_lines(text, prefix))
        },
    }
}

/// Whether an element is a comment or whitespace token.
pub open spec fn is_trivia(element: ElementView) -> bool {
    element matches ElementView::Token(token) && !(token is Substantive)
}

/// The number of comment and whitespace tokens that a node starts with.
pub open spec fn trivia_len(children: Seq<ElementView>) -> nat
    decreases children.len(),
{
    if children.len() > 0 && is_trivia(children[0]) {
        1 + trivia_len(children.drop_first())
    } else {
        0
    }
}

/// The state after the tokens among the first `n` of `children`, each taken
/// as a token of the body would be.
pub open spec fn render_leading(
    state: RenderStateView,
    children: Seq<ElementView>,
    n: nat,
    prefix: Seq<char>,
    fence: CodeFenceView,
) -> RenderStateView
    decreases n,
{
    if n == 0 {
        state
    } else {
        let before = render_leading(state, children, (n - 1) as nat, prefix, fence);
        match children[n - 1] {
            ElementView::Token(token) => render_token(before, token, prefix, fence),
            ElementView::Node(_) => before,
        }
    }
}

/// The text of each of `elements` with `prefix` taken off each line, one
/// after the other.
pub open spec fn verbatim(elements: Seq<ElementView>, prefix: Seq<char>) -> Seq<char>
    decreases elements.len(),
{
    if elements.len() == 0 {
        Seq::empty()
    } else {
        verbatim(elements.drop_last(), prefix) + strip_lines(element_text(elements.last()), prefix)
    }
}

/// The state after a node. The comments and whitespace that it starts with
/// are taken as tokens of the body would be. From its first other element on,
/// everything is code as it stands: the way to code once, then the text of
/// each element with `prefix` taken off each line. Nothing is pending after a
/// node.
pub open spec fn render_node(
    state: RenderStateView,
    children: Seq<ElementView>,
    prefix: Seq<char>,
    fence: CodeFenceView,
) -> RenderStateView {
    let k = trivia_len(children);
    let led = render_leading(state, children, k, prefix, fence);
    if k < children.len() {
        emit(enter_code(led, fence), verbatim(children.skip(k as int), prefix))
    } else {
        emit(led, Seq::empty())
    }
}

/// The state after an element.
pub open spec fn render_element(
    state: RenderStateView,
    element: ElementView,
    prefix: Seq<char>,
    fence: CodeFenceView,
) -> RenderStateView {
    match element {
        ElementView::Node(children) => render_node(state, children, prefix, fence),
        ElementView::Token(token) => render_token(state, token, prefix, fence),
    }
}

/// The state after a sequence of elements, taken in order.
pub open spec fn render_elements(
    state: RenderStateView,
    elements: Seq<ElementView>,
    prefix: Seq<char>,
    fence: CodeFenceView,
) -> RenderStateView
    decreases elements.len(),
{
    if elements.len() == 0 {
        state
    } else {
        render_element(
            render_elements(state, elements.drop_last(), prefix, fence),
            elements.last(),
            prefix,
            fence,
        )
    }
}

/// What a walk has written once it ends: an open code block is closed, and
/// one newline ends the text.
pub open spec fn finish(state: RenderStateView) -> Seq<char> {
    state.output + if state.in_code_block {
        closing_fence()
    } else {
        Seq::empty()
    } + seq!['\n']
}

/// The Markdown of a sequence of elements.
pub open spec fn body_markdown(
    elements: Seq<ElementView>,
    prefix: Seq<char>,
    fence: CodeFenceView,
) -> Seq<char> {
    finish(render_elements(start_state(), elements, prefix, fence))
}

/// What `trivia_len` counts: every element before position `k` is a comment
/// or whitespace token, and the one at `k`, if there is one, is not.
pub proof fn lemma_trivia_len(children: Seq<ElementView>, k: int)
    requires
        0 <= k <= children.len(),
        forall|j: int| 0 <= j < k ==> is_trivia(children[j]),
        k < children.len() ==> !is_trivia(children[k]),
    ensures
        trivia_len(children) == k,
    decreases children.len(),
{
    if k > 0 {
        let rest = children.drop_first();
        assert forall|j: int| 0 <= j < k - 1 implies is_trivia(rest[j]) by {
            assert(rest[j] == children[j + 1]);
        }
        lemma_trivia_len(rest, k - 1);
    }
}

impl CodeFence {
    /// A fence that names `language`, marked or not as one whose code is not
    /// to be compiled.
    pub fn new(language: &str, ignore: bool) -> (fence: CodeFence)
        ensures
            fence@ == (CodeFenceView { language: language@, ignore }),
    {
        CodeFence { language: language.to_owned(), ignore }
    }

    /// What opens a code block.
    pub fn opening(&self) -> (text: String)
        ensures
            text@ == opening_fence(self@),
    {
        proof {
            reveal_strlit("\n\n```");
            reveal_strlit(",ignore");
            reveal_strlit("\n");
        }
        let mut text = "\n\n```".to_owned();
        assert(text@ == seq!['\n', '\n', '`', '`', '`']);
        text.append(self.language.as_str());
        if self.ignore {
            text.append(",ignore");
            assert(",ignore"@ == ignore_mark());
        }
        text.append("\n");
        assert("\n"@ == seq!['\n']);
        assert(text@ == opening_fence(self@));
        text
    }
}

impl RenderState {
    /// The state before anything is written.
    pub fn new() -> (state: RenderState)
        ensures
            state@ == start_state(),
    {
        RenderState { in_code_block: false, whitespace: String::new(), output: String::new() }
    }
}

/// Leaves a code block, if one is open. Gives what is to be written on the
/// way: the closing fence and a blank line, or the pending newlines where
/// the text was prose already.
pub fn ensure_in_markdown<'a>(in_code_block: &mut bool, whitespace: &'a str) -> (text: &'a str)
    ensures
        *final(in_code_block) == false,
        text@ == prose_entry(*old(in_code_block), whitespace@),
{
    proof {
        reveal_strlit("\n```\n\n");
        assert("\n```\n\n"@ == fence_gap());
    }
    let text = if *in_code_block {
        "\n```\n\n"
    } else {
        whitespace
    };
    *in_code_block = false;
    text
}

/// Opens a code block, unless one is open. Gives what is to be written on the
/// way: the opening fence after a blank line, or the pending newlines where
/// the text was code already.
pub fn ensure_in_code_block(in_code_block: &mut bool, whitespace: &str, fence: &CodeFence) -> (text:
    String)
    ensures
        *final(in_code_block) == true,
        text@ == code_entry(*old(in_code_block), whitespace@, fence@),
{
    let text = if *in_code_block {
        whitespace.to_owned()
    } else {
        fence.opening()
    };
    *in_code_block = true;
    text
}

/// As many newlines as `text` holds.
fn newlines_of(text: &str) -> (run: String)
    ensures
        run@ == newline_run(text@),
{
    let chars = chars_of(text);
    let mut run = String::new();
    let mut i: usize = 0;
    while i < chars.len()
        invariant
            i <= chars.len(),
            run@ == newline_run(chars@.take(i as int)),
        decreases chars.len() - i,
    {
        proof {
            assert(chars@.take(i + 1).drop_last() == chars@.take(i as int));
        }
        if chars[i] == '\n' {
            run.push('\n');
        }
        assert(run@ == newline_run(chars@.take(i + 1)));
        i += 1;
    }
    assert(chars@.take(chars.len() as int) == chars@);
    run
}

/// Takes one token: a plain comment becomes prose, a doc comment and any
/// other token code, and the newlines of whitespace are kept for later.
pub fn write_token(state: &mut RenderState, token: &Token, prefix: &str, fence: &CodeFence)
    ensures
        final(state)@ == render_token(old(state)@, token@, prefix@, fence@),
{
    let ghost before = state@;
    let ghost after = render_token(before, token@, prefix@, fence@);
    match token {
        Token::Comment(comment) => {
            let mut in_code_block = state.in_code_block;
            if comment.doc {
                let entry = ensure_in_code_block(
                    &mut in_code_block,
                    state.whitespace.as_str(),
                    fence,
                );
                state.output.append(entry.as_str());
                state.output.append(write_lines(comment.text.as_str(), prefix).as_str());
            } else {
                let entry = ensure_in_markdown(&mut in_code_block, state.whitespace.as_str());
                state.output.append(entry);
                state.output.append(write_comment(comment, prefix).as_str());
            }
            state.in_code_block = in_code_block;
            state.whitespace = String::new();
            assert(state@.output =~= after.output);
        },
        Token::Whitespace(text) => {
            state.whitespace = newlines_of(text.as_str());
        },
        Token::Substantive(text) => {
            let was_code = state.in_code_block;
            let mut in_code_block = was_code;
            let entry = ensure_in_code_block(&mut in_code_block, state.whitespace.as_str(), fence);
            state.in_code_block = in_code_block;
            state.output.append(entry.as_str());
            if !was_code {
                state.output.append(state.whitespace.as_str());
            }
            state.output.append(write_lines(text.as_str(), prefix).as_str());
            state.whitespace = String::new();
            assert(state@.output =~= after.output);
        },
    }
}

/// Whether an element is a comment or whitespace token.
fn trivia(element: &Element) -> (b: bool)
    ensures
        b == is_trivia(element@),
{
    match element {
        Element::Token(Token::Comment(_)) => true,
        Element::Token(Token::Whitespace(_)) => true,
        _ => false,
    }
}

/// Takes one element of a body. A token goes the way of `write_token`. Of a
/// node, the comments and whitespace that it starts with go that way too;
/// from its first other element on the node is code as it stands.
pub fn write_node_or_token(
    state: &mut RenderState,
    element: &Element,
    prefix: &str,
    fence: &CodeFence,
)
    ensures
        final(state)@ == render_element(old(state)@, element@, prefix@, fence@),
{
    let ghost start = state@;
    match element {
        Element::Token(token) => {
            write_token(state, token, prefix, fence);
        },
        Element::Node(children) => {
            let ghost views = views_of(children@);
            proof {
                lemma_views_of(children@);
            }
            let mut i: usize = 0;
            while i < children.len() && trivia(&children[i])
                invariant
                    i <= children.len(),
                    views == views_of(children@),
                    views.len() == children.len(),
                    forall|j: int| 0 <= j < children.len() ==> views[j] == children@[j]@,
                    forall|j: int| 0 <= j < i ==> is_trivia(views[j]),
                    state@ == render_leading(start, views, i as nat, prefix@, fence@),
                decreases children.len() - i,
            {
                match &children[i] {
                    Element::Token(token) => {
                        write_token(state, token, prefix, fence);
                    },
                    Element::Node(_) => {},
                }
                i += 1;
            }
            proof {
                lemma_trivia_len(views, i as int);
            }
            if i < children.len() {
                let first: usize = i;
                let ghost led = state@;
                let mut in_code_block = state.in_code_block;
                let entry = ensure_in_code_block(
                    &mut in_code_block,
                    state.whitespace.as_str(),
                    fence,
                );
                state.in_code_block = in_code_block;
                state.output.append(entry.as_str());
                let ghost base = state.output@;
                assert(base == enter_code(led, fence@).output);
                assert(views.subrange(first as int, first as int).len() == 0);
                while i < children.len()
                    invariant
                        first <= i <= children.len(),
                        views.len() == children.len(),
                        forall|j: int| 0 <= j < children.len() ==> views[j] == children@[j]@,
                        state.in_code_block,
                        state.output@ == base + verbatim(
                            views.subrange(first as int, i as int),
                            prefix@,
                        ),
                    decreases children.len() - i,
                {
                    let text = text_of(&children[i]);
                    state.output.append(write_lines(text.as_str(), prefix).as_str());
                    proof {
                        let seen = views.subrange(first as int, i + 1);
                        assert(seen.drop_last() == views.subrange(first as int, i as int));
                        assert(seen.last() == children@[i as int]@);
                        assert(state.output@ =~= base + verbatim(seen, prefix@));
                    }
                    i += 1;
                }
                assert(views.subrange(first as int, children.len() as int) == views.skip(
                    first as int,
                ));
            }
            state.whitespace = String::new();
            assert(state@.output =~= render_element(start, element@, prefix@, fence@).output);
        },
    }
}

/// The Markdown of the elements of a body, its delimiters taken off: every
/// element in order, then the closing fence where a code block is open, and
/// one newline.
pub fn write_body(stmts: &[Element], prefix: &str, fence: &CodeFence) -> (markdown: String)
    ensures
        markdown@ == body_markdown(views_of(stmts@), prefix@, fence@),
{
    let mut state = RenderState::new();
    let ghost views = views_of(stmts@);
    proof {
        lemma_views_of(stmts@);
    }
    let mut i: usize = 0;
    while i < stmts.len()
        invariant
            i <= stmts.len(),
            views == views_of(stmts@),
            views.len() == stmts.len(),
            forall|j: int| 0 <= j < stmts.len() ==> views[j] == stmts@[j]@,
            state@ == render_elements(start_state(), views.take(i as int), prefix@, fence@),
        decreases stmts.len() - i,
    {
        write_node_or_token(&mut state, &stmts[i], prefix, fence);
        proof {
            assert(views.take(i + 1).drop_last() == views.take(i as int));
            assert(views.take(i + 1).last() == stmts@[i as int]@);
        }
        i += 1;
    }
    assert(views.take(stmts.len() as int) == views);
    proof {
        reveal_strlit("\n```");
        reveal_strlit("\n");
        assert("\n```"@ == closing_fence());
        assert("\n"@ == seq!['\n']);
    }
    let RenderState { in_code_block, whitespace: _, output } = state;
    let mut markdown = output;
    if in_code_block {
        markdown.append("\n```");
    }
    markdown.append("\n");
    assert(markdown@ =~= body_markdown(views, prefix@, fence@));
    markdown
}

/// The token whose text is the one character `c`.
pub open spec fn punctuation(c: char) -> ElementView {
    ElementView::Token(TokenView::Substantive(seq![c]))
}

/// The token that opens a block.
pub open spec fn open_brace() -> ElementView {
    punctuation('{')
}

/// The token that closes a block.
pub open spec fn close_brace() -> ElementView {
    punctuation('}')
}

/// Whether `raw` stands between the two delimiters of a block.
pub open spec fn delimited(raw: Seq<ElementView>) -> bool {
    raw.len() >= 2 && raw.first() == open_brace() && raw.last() == close_brace()
}

/// The elements between the two delimiters.
pub open spec fn inner_elements(raw: Seq<ElementView>) -> Seq<ElementView> {
    raw.subrange(1, raw.len() - 1)
}

/// Whether an element is a whitespace token.
pub open spec fn is_whitespace(element: ElementView) -> bool {
    element matches ElementView::Token(token) && token is Whitespace
}

/// `elements` without the whitespace that they start with, if they start
/// with any: the rest of the line that opens the block.
pub open spec fn anchored(elements: Seq<ElementView>) -> Seq<ElementView> {
    if elements.len() > 0 && is_whitespace(elements[0]) {
        elements.drop_first()
    } else {
        elements
    }
}

/// The Markdown of a function body given with its delimiters: that of the
/// elements between them, without the whitespace that follows the opening
/// one, and without the indentation that the lines of the body share.
pub open spec fn function_markdown(raw: Seq<ElementView>, fence: CodeFenceView) -> Seq<char> {
    body_markdown(
        anchored(inner_elements(raw)),
        shared_indent(elements_text(inner_elements(raw))),
        fence,
    )
}

/// Whether an element is the one token whose text is the character `c`.
fn is_punctuation(element: &Element, c: char) -> (b: bool)
    ensures
        b == (element@ == punctuation(c)),
{
    match element {
        Element::Token(Token::Substantive(text)) => {
            let chars = chars_of(text.as_str());
            let b = chars.len() == 1 && chars[0] == c;
            assert(b == (text@ =~= seq![c]));
            b
        },
        _ => false,
    }
}

/// Succeeds where `actual` is there and is the token whose text is the one
/// character `expected`; fails where there is no element, or another one.
pub fn expect_kind(expected: char, actual: Option<&Element>) -> (result: Result<(), Error>)
    ensures
        result is Ok <==> (actual matches Some(element) && element@ == punctuation(expected)),
        result matches Err(error) ==> error@ == structure_failure(),
{
    match actual {
        Some(element) => if is_punctuation(element, expected) {
            Ok(())
        } else {
            Err(structure_error())
        },
        None => Err(structure_error()),
    }
}

/// The Markdown of a function body, given as the elements of its block with
/// the two delimiters. Fails where the elements do not start with the
/// opening delimiter and end with the closing one.
pub fn render(body: &Vec<Element>, fence: &CodeFence) -> (result: Result<String, Error>)
    ensures
        match result {
            Ok(markdown) => delimited(views_of(body@)) && markdown@ == function_markdown(
                views_of(body@),
                fence@,
            ),
            Err(error) => !delimited(views_of(body@)) && error@ == structure_failure(),
        },
{
    let n = body.len();
    let ghost raw = views_of(body@);
    proof {
        lemma_views_of(body@);
    }
    let first = if n > 0 {
        Some(&body[0])
    } else {
        None
    };
    match expect_kind('{', first) {
        Ok(()) => {},
        Err(error) => {
            return Err(error);
        },
    }
    let last = if n > 1 {
        Some(&body[n - 1])
    } else {
        None
    };
    match expect_kind('}', last) {
        Ok(()) => {},
        Err(error) => {
            return Err(error);
        },
    }
    let mut text = String::new();
    let mut i: usize = 1;
    assert(raw.subrange(1, 1).len() == 0);
    while i < n - 1
        invariant
            1 <= i <= n - 1,
            n == body.len(),
            raw.len() == n,
            forall|j: int| 0 <= j < n ==> raw[j] == body@[j]@,
            text@ == elements_text(raw.subrange(1, i as int)),
        decreases n - i,
    {
        text.append(text_of(&body[i]).as_str());
        proof {
            lemma_elements_text_push(raw.subrange(1, i as int), body@[i as int]@);
            assert(raw.subrange(1, i + 1) == raw.subrange(1, i as int).push(body@[i as int]@));
        }
        i += 1;
    }
    let prefix = shared_indentation(text.as_str());
    let from: usize = if n > 2 && whitespace_token(&body[1]) {
        2
    } else {
        1
    };
    let stmts = vstd::slice::slice_subrange(body.as_slice(), from, n - 1);
    proof {
        let inner = inner_elements(raw);
        lemma_views_of(stmts@);
        assert(views_of(stmts@) =~= anchored(inner)) by {
            assert(inner.len() == n - 2);
            if n > 2 {
                assert(inner[0] == raw[1]);
            }
        }
    }
    Ok(write_body(stmts, prefix.as_str(), fence))
}

/// Whether an element is a whitespace token.
fn whitespace_token(element: &Element) -> (b: bool)
    ensures
        b == is_whitespace(element@),
{
    match element {
        Element::Token(Token::Whitespace(_)) => true,
        _ => false,
    }
}

} // verus!
