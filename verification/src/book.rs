//! A book out of a crate: each module whose public function `body` holds a
//! chapter gives a page, and each public module below it is visited in turn.
//! The library decides what is to be written and read next; reading and
//! writing are the caller's.

use crate::error::{structure_failure, Error, ErrorView};
use crate::module::{body_name, is_named, item_views, ModuleItem, ModuleItemView};
use crate::render::{delimited, function_markdown, render, CodeFence, CodeFenceView};
use crate::syntax::{parse_module, source_failure, source_module};
use crate::text::string_views;
use vstd::prelude::*;
use vstd::string::*;

verus! {

/// One thing to do for a module, in the order of its items.
#[derive(Debug)]
pub enum Step {
    /// Write the page of the module: `content` goes to the file that `path`
    /// names below the book's sources, one directory after the other and the
    /// file's stem last.
    Page { path: Vec<String>, content: String },
    /// Visit the module below this one that `segments` names from the
    /// crate's root.
    Visit { segments: Vec<String> },
}

/// What is to be done for a module: its steps in order, up to the first item
/// that fails, and that failure.
#[derive(Debug)]
pub struct ModulePlan {
    pub steps: Vec<Step>,
    pub failure: Option<Error>,
}

/// What a step holds.
pub enum StepView {
    Page { path: Seq<Seq<char>>, content: Seq<char> },
    Visit { segments: Seq<Seq<char>> },
}

/// What a plan holds.
pub struct ModulePlanView {
    pub steps: Seq<StepView>,
    pub failure: Option<ErrorView>,
}

impl View for Step {
    type V = StepView;

    open spec fn view(&self) -> StepView {
        match self {
            Step::Page { path, content } => StepView::Page {
                path: string_views(path@),
                content: content@,
            },
            Step::Visit { segments } => StepView::Visit {
                segments: string_views(segments@),
            },
        }
    }
}

/// The views of steps, one for one.
pub open spec fn step_views(steps: Seq<Step>) -> Seq<StepView> {
    Seq::new(steps.len(), |i: int| steps[i]@)
}

impl View for ModulePlan {
    type V = ModulePlanView;

    open spec fn view(&self) -> ModulePlanView {
        ModulePlanView {
            steps: step_views(self.steps@),
            failure: match self.failure {
                Some(error) => Some(error@),
                None => None,
            },
        }
    }
}

/// The name of the file that stands for the crate's root.
pub open spec fn root_name() -> Seq<char> {
    seq!['l', 'i', 'b']
}

/// The file of a module, without its extension: `lib` for the crate's root,
/// the module's path for any other.
pub open spec fn page_path(segments: Seq<Seq<char>>) -> Seq<Seq<char>> {
    if segments.len() == 0 {
        seq![root_name()]
    } else {
        segments
    }
}

/// The fence of the pages of a book: Rust code.
pub open spec fn book_fence() -> CodeFenceView {
    CodeFenceView { language: seq!['r', 'u', 's', 't'], ignore: false }
}

/// What one item asks for.
pub enum ItemOutcome {
    /// Nothing.
    Skip,
    /// A step.
    Do(StepView),
    /// The end of the plan, with a failure.
    Fail(ErrorView),
}

/// What an item asks for: a public function named `body` that has a block
/// gives the page of the module, or fails where its block does not stand
/// between its delimiters; a public module with a name is visited; all else
/// is passed over.
pub open spec fn item_outcome(
    segments: Seq<Seq<char>>,
    item: ModuleItemView,
    fence: CodeFenceView,
) -> ItemOutcome {
    match item {
        ModuleItemView::Function(function) => if function.public && function.name == Some(
            body_name(),
        ) {
            match function.body {
                Some(raw) => if delimited(raw) {
                    ItemOutcome::Do(
                        StepView::Page {
                            path: page_path(segments),
                            content: function_markdown(raw, fence),
                        },
                    )
                } else {
                    ItemOutcome::Fail(structure_failure())
                },
                None => ItemOutcome::Skip,
            }
        } else {
            ItemOutcome::Skip
        },
        ModuleItemView::Module(module) => if module.public {
            match module.name {
                Some(name) => ItemOutcome::Do(
                    StepView::Visit { segments: segments.push(name) },
                ),
                None => ItemOutcome::Skip,
            }
        } else {
            ItemOutcome::Skip
        },
        ModuleItemView::Other => ItemOutcome::Skip,
    }
}

/// The plan of a module after one more item.
pub open spec fn plan_after(plan: ModulePlanView, outcome: ItemOutcome) -> ModulePlanView {
    if plan.failure is Some {
        plan
    } else {
        match outcome {
            ItemOutcome::Skip => plan,
            ItemOutcome::Do(step) => ModulePlanView {
                steps: plan.steps.push(step),
                failure: None,
            },
            ItemOutcome::Fail(error) => ModulePlanView { steps: plan.steps, failure: Some(error) },
        }
    }
}

/// The plan of a module: what each of its items asks for, in order, up to the
/// first that fails.
pub open spec fn module_plan(
    segments: Seq<Seq<char>>,
    items: Seq<ModuleItemView>,
    fence: CodeFenceView,
) -> ModulePlanView
    decreases items.len(),
{
    if items.len() == 0 {
        ModulePlanView { steps: Seq::empty(), failure: None }
    } else {
        plan_after(
            module_plan(segments, items.drop_last(), fence),
            item_outcome(segments, items.last(), fence),
        )
    }
}

/// The plan that holds a failure and nothing to do.
pub open spec fn failed_plan(error: ErrorView) -> ModulePlanView {
    ModulePlanView { steps: Seq::empty(), failure: Some(error) }
}

/// A copy of a path.
fn copy_path(path: &Vec<String>) -> (copy: Vec<String>)
    ensures
        string_views(copy@) == string_views(path@),
{
    let mut copy: Vec<String> = Vec::new();
    let mut i: usize = 0;
    while i < path.len()
        invariant
            i <= path.len(),
            string_views(copy@) == string_views(path@).take(i as int),
        decreases path.len() - i,
    {
        copy.push(path[i].clone());
        assert(string_views(copy@) == string_views(path@).take(i as int).push(path@[i as int]@));
        i += 1;
    }
    assert(string_views(path@).take(path.len() as int) == string_views(path@));
    copy
}

/// The file of a module, without its extension.
pub fn page_file(segments: &Vec<String>) -> (path: Vec<String>)
    ensures
        string_views(path@) == page_path(string_views(segments@)),
{
    if segments.len() == 0 {
        proof {
            reveal_strlit("lib");
            assert("lib"@ == root_name());
        }
        let mut path: Vec<String> = Vec::new();
        path.push("lib".to_owned());
        assert(string_views(path@) == seq![root_name()]);
        path
    } else {
        copy_path(segments)
    }
}

/// The plan of a module given as its items: the page to write for each public
/// function named `body`, and the public modules to visit, in the order of
/// the items and up to the first that fails.
pub fn plan_module(segments: &Vec<String>, items: &Vec<ModuleItem>, fence: &CodeFence) -> (plan:
    ModulePlan)
    ensures
        plan@ == module_plan(string_views(segments@), item_views(items@), fence@),
{
    let ghost path = string_views(segments@);
    let ghost views = item_views(items@);
    let mut steps: Vec<Step> = Vec::new();
    let mut i: usize = 0;
    proof {
        reveal_strlit("body");
        assert("body"@ == body_name());
        assert(step_views(steps@) == Seq::<StepView>::empty());
    }
    while i < items.len()
        invariant
            i <= items.len(),
            path == string_views(segments@),
            views == item_views(items@),
            "body"@ == body_name(),
            (ModulePlanView { steps: step_views(steps@), failure: None }) == module_plan(
                path,
                views.take(i as int),
                fence@,
            ),
        decreases items.len() - i,
    {
        let ghost before = step_views(steps@);
        proof {
            assert(views.take(i + 1).drop_last() == views.take(i as int));
            assert(views.take(i + 1).last() == items@[i as int]@);
        }
        match &items[i] {
            ModuleItem::Function(function) => {
                if function.public && is_named(&function.name, "body") {
                    match &function.body {
                        Some(elements) => match render(elements, fence) {
                            Ok(content) => {
                                steps.push(Step::Page { path: page_file(segments), content });
                                assert(step_views(steps@) == before.push(steps@.last()@));
                            },
                            Err(error) => {
                                let plan = ModulePlan { steps, failure: Some(error) };
                                proof {
                                    lemma_plan_failed(path, views, i + 1, fence@);
                                    assert(views.take(items.len() as int) == views);
                                }
                                return plan;
                            },
                        },
                        None => {},
                    }
                }
            },
            ModuleItem::Module(module) => {
                if module.public {
                    match &module.name {
                        Some(name) => {
                            let mut segments = copy_path(segments);
                            let ghost shorter = string_views(segments@);
                            segments.push(name.clone());
                            assert(string_views(segments@) == shorter.push(name@));
                            steps.push(Step::Visit { segments });
                            assert(step_views(steps@) == before.push(steps@.last()@));
                        },
                        None => {},
                    }
                }
            },
            ModuleItem::Other => {},
        }
        i += 1;
    }
    assert(views.take(items.len() as int) == views);
    ModulePlan { steps, failure: None }
}

/// Once a plan has failed, further items change nothing.
pub proof fn lemma_plan_failed(
    segments: Seq<Seq<char>>,
    items: Seq<ModuleItemView>,
    n: int,
    fence: CodeFenceView,
)
    requires
        0 <= n <= items.len(),
        module_plan(segments, items.take(n), fence).failure is Some,
    ensures
        module_plan(segments, items, fence) == module_plan(segments, items.take(n), fence),
    decreases items.len() - n,
{
    if n < items.len() {
        assert(items.take(n + 1).drop_last() == items.take(n));
        lemma_plan_failed(segments, items, n + 1, fence);
    } else {
        assert(items.take(n) == items);
    }
}

/// The plan of a module given as source text: the plan that holds the error
/// of a text that is no module, else the plan of the module that the text is.
pub open spec fn plan_of(segments: Seq<Seq<char>>, source: &str) -> ModulePlanView {
    match source_failure(source) {
        Some(error) => failed_plan(error),
        None => module_plan(segments, source_module(source@), book_fence()),
    }
}

/// The plan of the module that `segments` names from the crate's root, given
/// as source text, for a book whose code blocks are plain Rust: the page to
/// write and the modules to visit next.
pub fn build(segments: &Vec<String>, source_text: &str) -> (plan: ModulePlan)
    ensures
        plan@ == plan_of(string_views(segments@), source_text),
{
    match parse_module(source_text) {
        Ok(items) => {
            proof {
                reveal_strlit("rust");
                assert("rust"@ == seq!['r', 'u', 's', 't']);
            }
            let fence = CodeFence::new("rust", false);
            assert(fence@ == book_fence());
            plan_module(segments, &items, &fence)
        },
        Err(error) => {
            let plan = ModulePlan { steps: Vec::new(), failure: Some(error) };
            assert(step_views(plan.steps@) == Seq::<StepView>::empty());
            plan
        },
    }
}

} // verus!
