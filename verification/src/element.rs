//! The elements of a function body: nodes and tokens, as a parser that keeps
//! comments and whitespace hands them out.

use vstd::prelude::*;
use vstd::string::*;

verus! {

/// The two shapes of a comment.
#[derive(Clone, Copy, Debug, PartialEq, Eq, Structural)]
pub enum CommentShape {
    /// From its marker to the end of the line.
    Line,
    /// Between an opening and a closing marker.
    Block,
}

/// What a parser says of a comment, apart from its text.
#[derive(Clone, Copy, Debug)]
pub struct CommentKind {
    /// Line or block.
    pub shape: CommentShape,
    /// Whether the marker says that the comment documents a declaration.
    pub doc: bool,
    /// The number of characters of the marker that introduces the comment.
    pub marker_len: usize,
}

/// A comment token.
#[derive(Debug)]
pub struct Comment {
    /// Line or block.
    pub shape: CommentShape,
    /// Whether the marker says that the comment documents a declaration.
    pub doc: bool,
    /// The number of characters of the marker that introduces the comment.
    pub marker_len: usize,
    /// The comment as it stands in the source, markers included.
    pub text: String,
}

/// A token: an atomic piece of source text.
#[derive(Debug)]
pub enum Token {
    /// A comment.
    Comment(Comment),
    /// A run of whitespace.
    Whitespace(String),
    /// Anything else: a keyword, a name, punctuation, a literal.
    Substantive(String),
}

/// A node or a token.
#[derive(Debug)]
pub enum Element {
    /// A construct made of elements of its own.
    Node(Vec<Element>),
    /// A single token.
    Token(Token),
}

/// What a comment holds.
pub struct CommentView {
    pub shape: CommentShape,
    pub doc: bool,
    pub marker_len: nat,
    pub text: Seq<char>,
}

/// What a token holds.
pub enum TokenView {
    Comment(CommentView),
    Whitespace(Seq<char>),
    Substantive(Seq<char>),
}

/// What an element holds.
pub enum ElementView {
    Node(Seq<ElementView>),
    Token(TokenView),
}

impl View for Comment {
    type V = CommentView;

    open spec fn view(&self) -> CommentView {
        CommentView {
            shape: self.shape,
            doc: self.doc,
            marker_len: self.marker_len as nat,
            text: self.text@,
        }
    }
}

impl View for Token {
    type V = TokenView;

    open spec fn view(&self) -> TokenView {
        match self {
            Token::Comment(comment) => TokenView::Comment(comment@),
            Token::Whitespace(text) => TokenView::Whitespace(text@),
            Token::Substantive(text) => TokenView::Substantive(text@),
        }
    }
}

/// The views of the first `n` of `elements`.
pub open spec fn element_views(elements: Seq<Element>, n: nat) -> Seq<ElementView>
    decreases elements, n,
{
    if n == 0 || n > elements.len() {
        Seq::empty()
    } else {
        element_views(elements, (n - 1) as nat).push(elements[n - 1].view())
    }
}

/// The views of `elements`, one for one.
pub open spec fn views_of(elements: Seq<Element>) -> Seq<ElementView> {
    element_views(elements, elements.len())
}

impl View for Element {
    type V = ElementView;

    open spec fn view(&self) -> ElementView
        decreases self,
    {
        match self {
            Element::Node(children) => ElementView::Node(
                element_views(children@, children@.len()),
            ),
            Element::Token(token) => ElementView::Token(token@),
        }
    }
}

/// The source text of a token.
pub open spec fn token_text(token: TokenView) -> Seq<char> {
    match token {
        TokenView::Comment(comment) => comment.text,
        TokenView::Whitespace(text) => text,
        TokenView::Substantive(text) => text,
    }
}

/// The source text of an element: that of a token, or that of a node's
/// elements one after the other.
pub open spec fn element_text(element: ElementView) -> Seq<char>
    decreases element,
{
    match element {
        ElementView::Node(children) => elements_text(children),
        ElementView::Token(token) => token_text(token),
    }
}

/// The source text of a sequence of elements.
pub open spec fn elements_text(elements: Seq<ElementView>) -> Seq<char>
    decreases elements,
{
    if elements.len() == 0 {
        Seq::empty()
    } else {
        elements_text(elements.drop_last()) + element_text(elements.last())
    }
}

/// `element_views` holds the view of each of the first `n` elements, in
/// order.
pub proof fn lemma_element_views(elements: Seq<Element>, n: nat)
    requires
        n <= elements.len(),
    ensures
        element_views(elements, n).len() == n,
        forall|i: int| 0 <= i < n ==> element_views(elements, n)[i] == elements[i]@,
    decreases n,
{
    if n > 0 {
        lemma_element_views(elements, (n - 1) as nat);
        assert(element_views(elements, n) == element_views(elements, (n - 1) as nat).push(
            elements[n - 1]@,
        ));
    }
}

/// `views_of` keeps the length and holds the view of each element.
pub proof fn lemma_views_of(elements: Seq<Element>)
    ensures
        views_of(elements).len() == elements.len(),
        forall|i: int| 0 <= i < elements.len() ==> views_of(elements)[i] == elements[i]@,
{
    lemma_element_views(elements, elements.len());
}

/// The text of elements that follow one another is their texts one after the
/// other.
pub proof fn lemma_elements_text_push(elements: Seq<ElementView>, last: ElementView)
    ensures
        elements_text(elements.push(last)) == elements_text(elements) + element_text(last),
{
    assert(elements.push(last).drop_last() == elements);
}

/// The source text of a token.
pub fn token_str(token: &Token) -> (text: &str)
    ensures
        text@ == token_text(token@),
{
    match token {
        Token::Comment(comment) => comment.text.as_str(),
        Token::Whitespace(text) => text.as_str(),
        Token::Substantive(text) => text.as_str(),
    }
}

/// The source text of an element.
pub fn text_of(element: &Element) -> (text: String)
    ensures
        text@ == element_text(element@),
    decreases element,
{
    match element {
        Element::Token(token) => token_str(token).to_owned(),
        Element::Node(children) => {
            let mut text = String::new();
            let mut i: usize = 0;
            proof {
                lemma_views_of(children@);
            }
            while i < children.len()
                invariant
                    i <= children.len(),
                    element == Element::Node(*children),
                    views_of(children@).len() == children.len(),
                    forall|k: int|
                        0 <= k < children.len() ==> views_of(children@)[k] == children@[k]@,
                    text@ == elements_text(views_of(children@).take(i as int)),
                decreases children.len() - i,
            {
                proof {
                    assert(element->Node_0 == *children);
                    assert(decreases_to!(element => element->Node_0));
                    assert(decreases_to!(*children => children@));
                    assert(decreases_to!(children@ => children@[i as int]));
                }
                let piece = text_of(&children[i]);
                text.append(piece.as_str());
                proof {
                    let seen = views_of(children@).take(i as int);
                    lemma_elements_text_push(seen, children@[i as int]@);
                    assert(views_of(children@).take(i + 1) == seen.push(children@[i as int]@));
                }
                i += 1;
            }
            assert(views_of(children@).take(children.len() as int) == views_of(children@));
            text
        },
    }
}

} // verus!
