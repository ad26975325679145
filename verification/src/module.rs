//! A source module as its top-level items, and the chapter that it stands
//! for: the Markdown of its first function named `body`.

use crate::element::{views_of, Element, ElementView};
use crate::error::{structure_failure, Error, ErrorView};
use crate::render::{delimited, function_markdown, render, CodeFence, CodeFenceView};
use vstd::prelude::*;
use vstd::string::*;

verus! {

/// A function declared at the top level of a module.
#[derive(Debug)]
pub struct Function {
    /// Its name, if it has one.
    pub name: Option<String>,
    /// Whether it is declared `pub`, with no restriction.
    pub public: bool,
    /// The elements of its block, the two delimiters included, if it has one.
    pub body: Option<Vec<Element>>,
}

/// A module declared at the top level of a module.
#[derive(Debug)]
pub struct Submodule {
    /// Its name, if it has one.
    pub name: Option<String>,
    /// Whether it is declared `pub`, with no restriction.
    pub public: bool,
}

/// A top-level item of a module.
#[derive(Debug)]
pub enum ModuleItem {
    Function(Function),
    Module(Submodule),
    /// Any other item.
    Other,
}

/// What a function holds.
pub struct FunctionView {
    pub name: Option<Seq<char>>,
    pub public: bool,
    pub body: Option<Seq<ElementView>>,
}

/// What a submodule holds.
pub struct SubmoduleView {
    pub name: Option<Seq<char>>,
    pub public: bool,
}

/// What a top-level item holds.
pub enum ModuleItemView {
    Function(FunctionView),
    Module(SubmoduleView),
    Other,
}

/// What a name holds, if there is one.
pub open spec fn name_view(name: Option<String>) -> Option<Seq<char>> {
    match name {
        Some(text) => Some(text@),
        None => None,
    }
}

impl View for Function {
    type V = FunctionView;

    open spec fn view(&self) -> FunctionView {
        FunctionView {
            name: name_view(self.name),
            public: self.public,
            body: match self.body {
                Some(elements) => Some(views_of(elements@)),
                None => None,
            },
        }
    }
}

impl View for Submodule {
    type V = SubmoduleView;

    open spec fn view(&self) -> SubmoduleView {
        SubmoduleView { name: name_view(self.name), public: self.public }
    }
}

impl View for ModuleItem {
    type V = ModuleItemView;

    open spec fn view(&self) -> ModuleItemView {
        match self {
            ModuleItem::Function(function) => ModuleItemView::Function(function@),
            ModuleItem::Module(module) => ModuleItemView::Module(module@),
            ModuleItem::Other => ModuleItemView::Other,
        }
    }
}

/// The views of the items of a module, one for one.
pub open spec fn item_views(items: Seq<ModuleItem>) -> Seq<ModuleItemView> {
    Seq::new(items.len(), |i: int| items[i]@)
}

/// The name of the function that holds a chapter.
pub open spec fn body_name() -> Seq<char> {
    seq!['b', 'o', 'd', 'y']
}

/// Whether an item is a function named exactly `body`.
pub open spec fn is_body_function(item: ModuleItemView) -> bool {
    item matches ModuleItemView::Function(function) && function.name == Some(body_name())
}

/// The block of an item that is a function named `body` and has one.
pub open spec fn chapter_block(item: ModuleItemView) -> Option<Seq<ElementView>> {
    match item {
        ModuleItemView::Function(function) => if function.name == Some(body_name()) {
            function.body
        } else {
            None
        },
        _ => None,
    }
}

/// What a block gives: its Markdown, or the error of a block outside its
/// delimiters.
pub open spec fn block_result(raw: Seq<ElementView>, fence: CodeFenceView) -> Result<
    Option<Seq<char>>,
    ErrorView,
> {
    if delimited(raw) {
        Ok(Some(function_markdown(raw, fence)))
    } else {
        Err(structure_failure())
    }
}

/// The chapter of a module: what the block of its first function named `body`
/// that has a block gives, and nothing where there is no such function.
pub open spec fn module_markdown(items: Seq<ModuleItemView>, fence: CodeFenceView) -> Result<
    Option<Seq<char>>,
    ErrorView,
>
    decreases items.len(),
{
    if items.len() == 0 {
        Ok(None)
    } else {
        match chapter_block(items[0]) {
            Some(raw) => block_result(raw, fence),
            None => module_markdown(items.drop_first(), fence),
        }
    }
}

/// What a result of the library holds.
pub open spec fn result_view(result: Result<Option<String>, Error>) -> Result<
    Option<Seq<char>>,
    ErrorView,
> {
    match result {
        Ok(Some(markdown)) => Ok(Some(markdown@)),
        Ok(None) => Ok(None),
        Err(error) => Err(error@),
    }
}

/// A module without a function named exactly `body` has no chapter, whatever
/// else it holds.
pub proof fn lemma_no_body_no_chapter(items: Seq<ModuleItemView>, fence: CodeFenceView)
    requires
        forall|i: int| 0 <= i < items.len() ==> !is_body_function(items[i]),
    ensures
        module_markdown(items, fence) == Ok::<Option<Seq<char>>, ErrorView>(None),
    decreases items.len(),
{
    if items.len() > 0 {
        let rest = items.drop_first();
        assert forall|i: int| 0 <= i < rest.len() implies !is_body_function(rest[i]) by {
            assert(rest[i] == items[i + 1]);
        }
        lemma_no_body_no_chapter(rest, fence);
        assert(!is_body_function(items[0]));
    }
}

/// Whether `name` is there and reads exactly `wanted`.
pub fn is_named(name: &Option<String>, wanted: &str) -> (b: bool)
    ensures
        b == (name_view(*name) == Some(wanted@)),
{
    match name {
        Some(text) => {
            let same = *text == wanted.to_owned();
            assert(same == (text@ == wanted@));
            same
        },
        None => false,
    }
}

/// What a function gives: nothing where it has no block, else what its block
/// gives.
pub open spec fn function_result(function: FunctionView, fence: CodeFenceView) -> Result<
    Option<Seq<char>>,
    ErrorView,
> {
    match function.body {
        Some(raw) => block_result(raw, fence),
        None => Ok(None),
    }
}

/// The Markdown of a function's block. `None` where the function has no
/// block; an error where the block does not stand between its delimiters.
pub fn write_function(function: &Function, fence: &CodeFence) -> (result: Result<
    Option<String>,
    Error,
>)
    ensures
        result_view(result) == function_result(function@, fence@),
{
    match &function.body {
        Some(elements) => match render(elements, fence) {
            Ok(markdown) => Ok(Some(markdown)),
            Err(error) => Err(error),
        },
        None => Ok(None),
    }
}

/// The chapter of a module: the Markdown of its first function named `body`
/// that has a block. `None` where the module has no such function; an error
/// where that block does not stand between its delimiters.
pub fn render_module(items: &Vec<ModuleItem>, fence: &CodeFence) -> (result: Result<
    Option<String>,
    Error,
>)
    ensures
        result_view(result) == module_markdown(item_views(items@), fence@),
{
    let ghost views = item_views(items@);
    let mut i: usize = 0;
    proof {
        reveal_strlit("body");
        assert("body"@ == body_name());
        assert(views.skip(0) == views);
    }
    while i < items.len()
        invariant
            i <= items.len(),
            views == item_views(items@),
            "body"@ == body_name(),
            module_markdown(views, fence@) == module_markdown(views.skip(i as int), fence@),
        decreases items.len() - i,
    {
        proof {
            assert(views.skip(i as int)[0] == items@[i as int]@);
            assert(views.skip(i as int).drop_first() == views.skip(i + 1));
        }
        match &items[i] {
            ModuleItem::Function(function) => {
                if is_named(&function.name, "body") {
                    match write_function(function, fence) {
                        Ok(Some(markdown)) => {
                            return Ok(Some(markdown));
                        },
                        Ok(None) => {},
                        Err(error) => {
                            return Err(error);
                        },
                    }
                }
            },
            _ => {},
        }
        i += 1;
    }
    Ok(None)
}

} // verus!
