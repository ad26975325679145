//! From source text to the chapter of a module. The parser is
//! `ra_ap_syntax`: it is asked for its diagnostics, for a sketch of each
//! top-level item and for the outline of each function's block, and the
//! library makes its own items and elements of what it says.

use crate::element::{CommentKind, CommentShape};
use crate::error::{Error, ErrorKind, ErrorView};
use crate::module::{
    is_body_function, item_views, lemma_no_body_no_chapter, module_markdown, render_module,
    result_view, ModuleItem, ModuleItemView,
};
use crate::outline::{
    comment_views, module_items, module_of, outline_views, sketch_views, CommentKinds, ItemKind,
    ItemSketch, ItemSketchView, OutlineEntry, OutlineEntryView,
};
use crate::render::{CodeFence, CodeFenceView};
use crate::text::{join, join_strings, string_views};
use ra_ap_syntax::ast::{HasModuleItem, HasName, HasVisibility, Item, VisibilityKind};
use ra_ap_syntax::{ast, AstNode, AstToken, SourceFile, SyntaxElement};
use vstd::prelude::*;
use vstd::string::*;

verus! {

/// The messages of the diagnostics that `SourceFile::parse` of `ra_ap_syntax`
/// reports for a source text, in its order.
pub uninterp spec fn source_diagnostics(source: Seq<char>) -> Seq<Seq<char>>;

/// The sketch of each top-level item of the tree that `SourceFile::parse` of
/// `ra_ap_syntax` builds for a source text, in the order of the source.
pub uninterp spec fn source_items(source: Seq<char>) -> Seq<ItemSketchView>;

/// For each top-level item of the tree that `SourceFile::parse` of
/// `ra_ap_syntax` builds for a source text: the outline of the statement list
/// of its block, if it is a function that has one.
pub uninterp spec fn source_outlines(source: Seq<char>) -> Seq<Option<Seq<OutlineEntryView>>>;

/// For the entries of the outlines of a source text, in the same order: what
/// kind of comment each is, by `ast::Comment` of `ra_ap_syntax`, if it is one.
pub uninterp spec fn source_comments(source: Seq<char>) -> Seq<Option<Seq<Option<CommentKind>>>>;

/// Whether a source text is short enough for the parser, which counts the
/// bytes of a text in 32 bits.
pub open spec fn fits_parser(source: &str) -> bool {
    source.spec_bytes().len() <= u32::MAX
}

/// `SourceFile::parse` of `ra_ap_syntax` and the `errors` of what it gives:
/// the message of each diagnostic that the parser reports for `text`.
#[verifier::external_body]
fn parse_diagnostics(text: &str) -> (messages: Vec<String>)
    requires
        fits_parser(text),
    ensures
        string_views(messages@) == source_diagnostics(text@),
{
    SourceFile::parse(text).errors().iter().map(|error| error.to_string()).collect()
}

/// `SourceFile::parse` of `ra_ap_syntax` and the `items` of its tree: of each
/// top-level item whether it is a function, a module or something else, and
/// of a function or module its `name` and whether the `visibility` that it
/// declares is plain `pub`.
#[verifier::external_body]
fn parse_items(text: &str) -> (sketches: Vec<ItemSketch>)
    requires
        fits_parser(text),
    ensures
        sketch_views(sketches@) == source_items(text@),
{
    let pub_kind = |vis: ast::Visibility| matches!(vis.kind(), VisibilityKind::Pub);
    let sketch = |kind, name: Option<ast::Name>, visibility: Option<ast::Visibility>| ItemSketch {
        kind,
        name: name.map(|name| name.text().to_string()),
        visibility: visibility.map(pub_kind),
    };
    SourceFile::parse(text).tree().items().map(|item| match item {
        Item::Fn(it) => sketch(ItemKind::Function, it.name(), it.visibility()),
        Item::Module(it) => sketch(ItemKind::Module, it.name(), it.visibility()),
        _ => sketch(ItemKind::Other, None, None),
    }).collect()
}

/// `SourceFile::parse` of `ra_ap_syntax` and, for each of the `items` of its
/// tree that is a function with a `body` that has a `stmt_list`, the nodes
/// and tokens of that list as `descendants_with_tokens` of `rowan` hands them
/// out, the list itself first. Of each: under how many nodes it stands,
/// whether it is a node, whether it is `ast::Whitespace`, and its text.
#[verifier::external_body]
fn parse_outlines(text: &str) -> (outlines: Vec<Option<Vec<OutlineEntry>>>)
    requires
        fits_parser(text),
    ensures
        outline_views(outlines@) == source_outlines(text@),
{
    let entry = |element: SyntaxElement| OutlineEntry {
        depth: element.parent().map_or(0, |parent| parent.ancestors().count()),
        node: element.as_node().is_some(),
        whitespace: element.as_token().is_some_and(|it| ast::Whitespace::can_cast(it.kind())),
        text: element.to_string(),
    };
    let outline = |it: ast::StmtList| it.syntax().descendants_with_tokens().map(entry).collect();
    SourceFile::parse(text).tree().items().map(|item| match item {
        Item::Fn(it) => it.body().and_then(|body| body.stmt_list()).map(outline),
        _ => None,
    }).collect()
}

/// `SourceFile::parse` of `ra_ap_syntax` and, for the same nodes and tokens
/// in the same order as the outlines hold, what `ast::Comment::cast` makes of
/// each: no comment, or a comment with the shape of its `kind`, `is_doc` and
/// the length of its `prefix`.
#[verifier::external_body]
fn parse_comments(text: &str) -> (comments: Vec<Option<CommentKinds>>)
    requires
        fits_parser(text),
    ensures
        comment_views(comments@) == source_comments(text@),
{
    let kind = |comment: ast::Comment| CommentKind {
        shape: match comment.kind().shape {
            ast::CommentShape::Line => CommentShape::Line,
            ast::CommentShape::Block => CommentShape::Block,
        },
        doc: comment.is_doc(),
        marker_len: comment.prefix().len(),
    };
    let entry = |it: SyntaxElement| it.into_token().and_then(ast::Comment::cast).map(kind);
    let outline = |it: ast::StmtList| it.syntax().descendants_with_tokens().map(entry).collect();
    SourceFile::parse(text).tree().items().map(|item| match item {
        Item::Fn(it) => it.body().and_then(|body| body.stmt_list()).map(outline),
        _ => None,
    }).collect()
}

/// The error that a source text with the given diagnostics gives: all their
/// messages, one to a line.
pub open spec fn parse_error(diagnostics: Seq<Seq<char>>) -> ErrorView {
    ErrorView { kind: ErrorKind::Parse, message: join(diagnostics, seq!['\n']) }
}

/// The message of the error for a source text that the parser cannot measure.
pub open spec fn too_long() -> Seq<char> {
    seq![
        's', 'o', 'u', 'r', 'c', 'e', ' ', 't', 'e', 'x', 't', ' ', 'i', 's', ' ', 't', 'o', 'o',
        ' ', 'l', 'o', 'n', 'g',
    ]
}

/// Why a source text is no module, if it is none: it is too long for the
/// parser, or the parser reports diagnostics for it.
pub open spec fn source_failure(source: &str) -> Option<ErrorView> {
    if !fits_parser(source) {
        Some(ErrorView { kind: ErrorKind::Parse, message: too_long() })
    } else if source_diagnostics(source@).len() > 0 {
        Some(parse_error(source_diagnostics(source@)))
    } else {
        None
    }
}

/// The items of the module that a source text is, by what the parser says of
/// the text.
pub open spec fn source_module(source: Seq<char>) -> Seq<ModuleItemView> {
    module_of(source_items(source), source_outlines(source), source_comments(source))
}

/// The error for a source text that the parser reports diagnostics for.
pub fn parse_failure(diagnostics: &Vec<String>) -> (error: Error)
    ensures
        error@ == parse_error(string_views(diagnostics@)),
{
    proof {
        reveal_strlit("\n");
        assert("\n"@ == seq!['\n']);
    }
    Error { kind: ErrorKind::Parse, message: join_strings(diagnostics, "\n") }
}

/// The longest source text, in bytes, that the parser can measure.
pub const MAX_SOURCE_LEN: usize = 0xFFFF_FFFF;

/// Parses a module. Gives its top-level items, or an error where the text is
/// too long for the parser or the parser reports any diagnostic: the error
/// then holds them all. Of the block of a function the items hold the
/// elements and what stands right below each; a node further down keeps its
/// text in one piece.
pub fn parse_module(source_text: &str) -> (result: Result<Vec<ModuleItem>, Error>)
    ensures
        match result {
            Ok(items) => source_failure(source_text) is None && item_views(items@)
                == source_module(source_text@),
            Err(error) => source_failure(source_text) == Some(error@),
        },
{
    if source_text.as_bytes().len() > MAX_SOURCE_LEN {
        proof {
            reveal_strlit("source text is too long");
            assert("source text is too long"@ == too_long());
        }
        return Err(Error::new(ErrorKind::Parse, "source text is too long"));
    }
    let diagnostics = parse_diagnostics(source_text);
    if diagnostics.len() > 0 {
        return Err(parse_failure(&diagnostics));
    }
    let sketches = parse_items(source_text);
    let outlines = parse_outlines(source_text);
    let comments = parse_comments(source_text);
    Ok(module_items(&sketches, &outlines, &comments))
}

/// The fence of the chapters that `write_module` writes: Rust code that is
/// not to be compiled.
pub open spec fn chapter_fence() -> CodeFenceView {
    CodeFenceView { language: seq!['r', 'u', 's', 't'], ignore: true }
}

/// The chapter of a module given as source text: the error of a text that is
/// no module, else the chapter of the module that the text is.
pub open spec fn chapter_of(source: &str, fence: CodeFenceView) -> Result<
    Option<Seq<char>>,
    ErrorView,
> {
    match source_failure(source) {
        Some(error) => Err(error),
        None => module_markdown(source_module(source@), fence),
    }
}

/// A source text that is a module without a function named exactly `body`
/// has no chapter, whatever else it holds.
pub proof fn lemma_no_body_in_source(source: &str, fence: CodeFenceView)
    requires
        source_failure(source) is None,
        forall|i: int|
            0 <= i < source_items(source@).len() ==> !(source_items(source@)[i].kind
                == ItemKind::Function && source_items(source@)[i].name == Some(
                crate::module::body_name(),
            )),
    ensures
        chapter_of(source, fence) == Ok::<Option<Seq<char>>, ErrorView>(None),
{
    let items = source_module(source@);
    assert forall|i: int| 0 <= i < items.len() implies !is_body_function(items[i]) by {
        let sketch = source_items(source@)[i];
        assert(!(sketch.kind == ItemKind::Function && sketch.name == Some(
            crate::module::body_name(),
        )));
    }
    lemma_no_body_no_chapter(items, fence);
}

/// The chapter of a module given as source text, with code blocks opened by
/// `fence`: the Markdown of its first function named `body`, and `None` where
/// it has none. Fails where the text is no module, and where the block of
/// that function does not stand between its delimiters.
pub fn write_module_with(source_text: &str, fence: &CodeFence) -> (result: Result<
    Option<String>,
    Error,
>)
    ensures
        result_view(result) == chapter_of(source_text, fence@),
{
    match parse_module(source_text) {
        Ok(items) => render_module(&items, fence),
        Err(error) => Err(error),
    }
}

/// The chapter of a module given as source text, with code blocks marked as
/// Rust that is not to be compiled.
pub fn write_module(source_text: &str) -> (result: Result<Option<String>, Error>)
    ensures
        result_view(result) == chapter_of(source_text, chapter_fence()),
{
    proof {
        reveal_strlit("rust");
        assert("rust"@ == seq!['r', 'u', 's', 't']);
    }
    let fence = CodeFence::new("rust", true);
    assert(fence@ == chapter_fence());
    write_module_with(source_text, &fence)
}

} // verus!
