//! What a parser says of a source text, written down as plain values: a
//! sketch of each top-level item, and for the block of a function its
//! outline, the nodes and tokens of the block one after the other with the
//! depth of each. From these the items and elements of the library are made.

use crate::element::{
    lemma_views_of, views_of, Comment, CommentKind, CommentView, Element, ElementView, Token,
    TokenView,
};
use crate::module::{
    item_views, name_view, Function, FunctionView, ModuleItem, ModuleItemView, Submodule,
    SubmoduleView,
};
use vstd::prelude::*;

verus! {

/// The kinds of top-level item that the library tells apart.
#[derive(Clone, Copy, Debug, PartialEq, Eq, Structural)]
pub enum ItemKind {
    Function,
    Module,
    Other,
}

/// What a parser says of a top-level item.
#[derive(Debug)]
pub struct ItemSketch {
    pub kind: ItemKind,
    /// The name of a function or module, if it has one.
    pub name: Option<String>,
    /// Of a function or module that declares a visibility, whether that is
    /// plain `pub`.
    pub visibility: Option<bool>,
}

/// One node or token of a syntax tree, as it stands in an outline.
#[derive(Debug)]
pub struct OutlineEntry {
    /// How many nodes the entry stands below.
    pub depth: usize,
    /// Whether the entry is a node.
    pub node: bool,
    /// Whether the entry is a whitespace token.
    pub whitespace: bool,
    /// The source text of the entry.
    pub text: String,
}

/// What a sketch of an item holds.
pub struct ItemSketchView {
    pub kind: ItemKind,
    pub name: Option<Seq<char>>,
    pub visibility: Option<bool>,
}

/// What an entry of an outline holds.
pub struct OutlineEntryView {
    pub depth: nat,
    pub node: bool,
    pub whitespace: bool,
    pub text: Seq<char>,
}

impl View for ItemSketch {
    type V = ItemSketchView;

    open spec fn view(&self) -> ItemSketchView {
        ItemSketchView {
            kind: self.kind,
            name: name_view(self.name),
            visibility: self.visibility,
        }
    }
}

impl View for OutlineEntry {
    type V = OutlineEntryView;

    open spec fn view(&self) -> OutlineEntryView {
        OutlineEntryView {
            depth: self.depth as nat,
            node: self.node,
            whitespace: self.whitespace,
            text: self.text@,
        }
    }
}

/// The views of sketches, one for one.
pub open spec fn sketch_views(sketches: Seq<ItemSketch>) -> Seq<ItemSketchView> {
    Seq::new(sketches.len(), |i: int| sketches[i]@)
}

/// The views of the entries of an outline, one for one.
pub open spec fn entry_views(entries: Seq<OutlineEntry>) -> Seq<OutlineEntryView> {
    Seq::new(entries.len(), |i: int| entries[i]@)
}

/// The views of the outlines of the items of a module, one for one.
pub open spec fn outline_views(outlines: Seq<Option<Vec<OutlineEntry>>>) -> Seq<
    Option<Seq<OutlineEntryView>>,
> {
    Seq::new(
        outlines.len(),
        |i: int|
            match outlines[i] {
                Some(entries) => Some(entry_views(entries@)),
                None => None,
            },
    )
}

/// For the entries of outlines, what kind of comment each is, if it is one.
pub type CommentKinds = Vec<Option<CommentKind>>;

/// The views of the comment kinds of the outlines of the items of a module,
/// one for one.
pub open spec fn comment_views(comments: Seq<Option<CommentKinds>>) -> Seq<
    Option<Seq<Option<CommentKind>>>,
> {
    Seq::new(
        comments.len(),
        |i: int|
            match comments[i] {
                Some(kinds) => Some(kinds@),
                None => None,
            },
    )
}

/// The kind of comment that entry `at` is, where the parser gave one.
pub open spec fn comment_at(comments: Seq<Option<CommentKind>>, at: int) -> Option<CommentKind> {
    if 0 <= at < comments.len() {
        comments[at]
    } else {
        None
    }
}

/// How far below the elements of a body the renderer reads: into their own
/// elements, and no further.
pub const RENDER_DEPTH: usize = 1;

/// The token that a text stands for, by what the parser says of it: a
/// comment with its kind, whitespace, or anything else.
pub open spec fn token_of(
    text: Seq<char>,
    comment: Option<CommentKind>,
    whitespace: bool,
) -> TokenView {
    match comment {
        Some(kind) => TokenView::Comment(
            CommentView {
                shape: kind.shape,
                doc: kind.doc,
                marker_len: kind.marker_len as nat,
                text,
            },
        ),
        None => if whitespace {
            TokenView::Whitespace(text)
        } else {
            TokenView::Substantive(text)
        },
    }
}

/// Where what stands below entry `parent` ends: the first position from
/// `from` on whose entry is no deeper than `parent`, or the end of the
/// outline.
pub open spec fn subtree_end(outline: Seq<OutlineEntryView>, parent: int, from: int) -> int
    decreases outline.len() - from,
{
    if 0 <= from < outline.len() && outline[from].depth > outline[parent].depth {
        subtree_end(outline, parent, from + 1)
    } else {
        from
    }
}

/// The element that entry `at` stands for. A token is told apart by what the
/// parser says of it. A node holds the elements right below it, each
/// followed down `levels` levels; with no level left, a node keeps its text
/// in one piece.
pub open spec fn entry_element(
    outline: Seq<OutlineEntryView>,
    comments: Seq<Option<CommentKind>>,
    at: int,
    levels: nat,
) -> ElementView
    decreases levels, 0nat, 0nat,
{
    let entry = outline[at];
    if !entry.node {
        ElementView::Token(token_of(entry.text, comment_at(comments, at), entry.whitespace))
    } else if levels == 0 {
        ElementView::Node(seq![ElementView::Token(TokenView::Substantive(entry.text))])
    } else {
        ElementView::Node(
            children_upto(
                outline,
                comments,
                at,
                subtree_end(outline, at, at + 1),
                (levels - 1) as nat,
            ),
        )
    }
}

/// The elements right below entry `parent` that stand before position `to`:
/// the entries after `parent` that are one level deeper than it.
pub open spec fn children_upto(
    outline: Seq<OutlineEntryView>,
    comments: Seq<Option<CommentKind>>,
    parent: int,
    to: int,
    levels: nat,
) -> Seq<ElementView>
    decreases levels, 1nat, to,
{
    if parent < 0 || to <= parent + 1 {
        Seq::empty()
    } else {
        let head = children_upto(outline, comments, parent, to - 1, levels);
        if to - 1 < outline.len() && outline[to - 1].depth == outline[parent].depth + 1 {
            head.push(entry_element(outline, comments, to - 1, levels))
        } else {
            head
        }
    }
}

/// The elements of a block given by its outline, whose first entry is the
/// block itself, and by the kinds of the comments among its entries.
pub open spec fn outline_elements(
    outline: Seq<OutlineEntryView>,
    comments: Seq<Option<CommentKind>>,
) -> Seq<ElementView> {
    if outline.len() == 0 {
        Seq::empty()
    } else {
        children_upto(outline, comments, 0, subtree_end(outline, 0, 1), RENDER_DEPTH as nat)
    }
}

/// The outline of item `i`, where the parser gave one.
pub open spec fn outline_at(outlines: Seq<Option<Seq<OutlineEntryView>>>, i: int) -> Option<
    Seq<OutlineEntryView>,
> {
    if 0 <= i < outlines.len() {
        outlines[i]
    } else {
        None
    }
}

/// The kinds of the comments in the outline of item `i`; none where the
/// parser gave no kinds.
pub open spec fn comments_at(comments: Seq<Option<Seq<Option<CommentKind>>>>, i: int) -> Seq<
    Option<CommentKind>,
> {
    if 0 <= i < comments.len() {
        match comments[i] {
            Some(kinds) => kinds,
            None => Seq::empty(),
        }
    } else {
        Seq::empty()
    }
}

/// The item that a sketch stands for. The block of a function is made of its
/// outline.
pub open spec fn sketch_item(
    sketch: ItemSketchView,
    outline: Option<Seq<OutlineEntryView>>,
    comments: Seq<Option<CommentKind>>,
) -> ModuleItemView {
    match sketch.kind {
        ItemKind::Function => ModuleItemView::Function(
            FunctionView {
                name: sketch.name,
                public: sketch.visibility == Some(true),
                body: match outline {
                    Some(entries) => Some(outline_elements(entries, comments)),
                    None => None,
                },
            },
        ),
        ItemKind::Module => ModuleItemView::Module(
            SubmoduleView { name: sketch.name, public: sketch.visibility == Some(true) },
        ),
        ItemKind::Other => ModuleItemView::Other,
    }
}

/// The items of a module, given the sketch of each, the outline of each
/// block and the kinds of the comments in it.
pub open spec fn module_of(
    sketches: Seq<ItemSketchView>,
    outlines: Seq<Option<Seq<OutlineEntryView>>>,
    comments: Seq<Option<Seq<Option<CommentKind>>>>,
) -> Seq<ModuleItemView> {
    Seq::new(
        sketches.len(),
        |i: int| sketch_item(sketches[i], outline_at(outlines, i), comments_at(comments, i)),
    )
}

/// The views of elements with one more at the end.
pub proof fn lemma_views_of_push(elements: Seq<Element>, last: Element)
    ensures
        views_of(elements.push(last)) == views_of(elements).push(last@),
{
    lemma_views_of(elements);
    lemma_views_of(elements.push(last));
    assert(views_of(elements.push(last)) =~= views_of(elements).push(last@));
}

/// The token that `text` stands for. `comment` holds the kind of a comment;
/// `whitespace` says whether a token that is no comment is whitespace.
pub fn classify_token(text: String, comment: Option<CommentKind>, whitespace: bool) -> (token:
    Token)
    ensures
        token@ == token_of(text@, comment, whitespace),
{
    match comment {
        Some(kind) => Token::Comment(
            Comment { shape: kind.shape, doc: kind.doc, marker_len: kind.marker_len, text },
        ),
        None => if whitespace {
            Token::Whitespace(text)
        } else {
            Token::Substantive(text)
        },
    }
}

/// Whether a declared visibility is there and is plain `pub`.
pub fn is_public(visibility: Option<bool>) -> (public: bool)
    ensures
        public == (visibility == Some(true)),
{
    match visibility {
        Some(public) => public,
        None => false,
    }
}

/// The element that entry `at` of an outline stands for, followed down
/// `levels` levels.
fn element_at(
    outline: &Vec<OutlineEntry>,
    comments: &CommentKinds,
    at: usize,
    levels: usize,
) -> (element: Element)
    requires
        at < outline.len(),
    ensures
        element@ == entry_element(entry_views(outline@), comments@, at as int, levels as nat),
    decreases levels, 0nat,
{
    let entry = &outline[at];
    if !entry.node {
        let comment = if at < comments.len() {
            comments[at]
        } else {
            None
        };
        Element::Token(classify_token(entry.text.clone(), comment, entry.whitespace))
    } else if levels == 0 {
        let mut whole: Vec<Element> = Vec::new();
        whole.push(Element::Token(Token::Substantive(entry.text.clone())));
        proof {
            lemma_views_of(whole@);
            assert(views_of(whole@) =~= seq![
                ElementView::Token(TokenView::Substantive(entry.text@)),
            ]);
        }
        Element::Node(whole)
    } else {
        Element::Node(children_of(outline, comments, at, levels - 1))
    }
}

/// The elements right below entry `parent` of an outline, each followed down
/// `levels` levels.
fn children_of(
    outline: &Vec<OutlineEntry>,
    comments: &CommentKinds,
    parent: usize,
    levels: usize,
) -> (elements: Vec<Element>)
    requires
        parent < outline.len(),
    ensures
        views_of(elements@) == children_upto(
            entry_views(outline@),
            comments@,
            parent as int,
            subtree_end(entry_views(outline@), parent as int, parent + 1),
            levels as nat,
        ),
    decreases levels, 1nat,
{
    let ghost entries = entry_views(outline@);
    let mut elements: Vec<Element> = Vec::new();
    let mut k: usize = parent + 1;
    proof {
        lemma_views_of(elements@);
        assert(views_of(elements@) =~= children_upto(
            entries,
            comments@,
            parent as int,
            k as int,
            levels as nat,
        ));
    }
    while k < outline.len() && outline[k].depth > outline[parent].depth
        invariant
            parent < k <= outline.len(),
            entries == entry_views(outline@),
            subtree_end(entries, parent as int, k as int) == subtree_end(
                entries,
                parent as int,
                parent + 1,
            ),
            views_of(elements@) == children_upto(
                entries,
                comments@,
                parent as int,
                k as int,
                levels as nat,
            ),
        decreases outline.len() - k,
    {
        if outline[k].depth - 1 == outline[parent].depth {
            let element = element_at(outline, comments, k, levels);
            proof {
                lemma_views_of_push(elements@, element);
            }
            elements.push(element);
        }
        k += 1;
    }
    elements
}

/// The elements of a block, given its outline and the kinds of the comments
/// among its entries.
pub fn block_elements(outline: &Vec<OutlineEntry>, comments: &CommentKinds) -> (elements: Vec<
    Element,
>)
    ensures
        views_of(elements@) == outline_elements(entry_views(outline@), comments@),
{
    if outline.len() == 0 {
        let elements: Vec<Element> = Vec::new();
        proof {
            lemma_views_of(elements@);
            assert(views_of(elements@) =~= Seq::<ElementView>::empty());
        }
        elements
    } else {
        children_of(outline, comments, 0, RENDER_DEPTH)
    }
}

/// A copy of a name.
fn copy_name(name: &Option<String>) -> (copy: Option<String>)
    ensures
        name_view(copy) == name_view(*name),
{
    match name {
        Some(text) => Some(text.clone()),
        None => None,
    }
}

/// The block of item `i`, given the outlines of all items and the kinds of
/// the comments in them.
fn block_at(
    outlines: &Vec<Option<Vec<OutlineEntry>>>,
    comments: &Vec<Option<CommentKinds>>,
    i: usize,
) -> (body: Option<Vec<Element>>)
    ensures
        match outline_at(outline_views(outlines@), i as int) {
            Some(entries) => body matches Some(elements) && views_of(elements@)
                == outline_elements(entries, comments_at(comment_views(comments@), i as int)),
            None => body is None,
        },
{
    if i >= outlines.len() {
        return None;
    }
    match &outlines[i] {
        Some(outline) => {
            if i < comments.len() {
                match &comments[i] {
                    Some(kinds) => {
                        return Some(block_elements(outline, kinds));
                    },
                    None => {},
                }
            }
            let kinds: CommentKinds = Vec::new();
            Some(block_elements(outline, &kinds))
        },
        None => None,
    }
}

/// The items of a module, given what the parser says of each: its sketch,
/// and for a function with a block the outline of that block and the kinds
/// of the comments in it.
pub fn module_items(
    sketches: &Vec<ItemSketch>,
    outlines: &Vec<Option<Vec<OutlineEntry>>>,
    comments: &Vec<Option<CommentKinds>>,
) -> (items: Vec<ModuleItem>)
    ensures
        item_views(items@) == module_of(
            sketch_views(sketches@),
            outline_views(outlines@),
            comment_views(comments@),
        ),
{
    let ghost wanted = module_of(
        sketch_views(sketches@),
        outline_views(outlines@),
        comment_views(comments@),
    );
    let mut items: Vec<ModuleItem> = Vec::new();
    let mut i: usize = 0;
    while i < sketches.len()
        invariant
            i <= sketches.len(),
            wanted == module_of(
                sketch_views(sketches@),
                outline_views(outlines@),
                comment_views(comments@),
            ),
            item_views(items@) == wanted.take(i as int),
        decreases sketches.len() - i,
    {
        let sketch = &sketches[i];
        let public = is_public(sketch.visibility);
        let ghost before = item_views(items@);
        let item = match sketch.kind {
            ItemKind::Function => ModuleItem::Function(
                Function {
                    name: copy_name(&sketch.name),
                    public,
                    body: block_at(outlines, comments, i),
                },
            ),
            ItemKind::Module => ModuleItem::Module(
                Submodule { name: copy_name(&sketch.name), public },
            ),
            ItemKind::Other => ModuleItem::Other,
        };
        assert(item@ == wanted[i as int]);
        items.push(item);
        assert(item_views(items@) == before.push(wanted[i as int]));
        assert(wanted.take(i + 1) == wanted.take(i as int).push(wanted[i as int]));
        i += 1;
    }
    assert(wanted.take(sketches.len() as int) == wanted);
    items
}

} // verus!
