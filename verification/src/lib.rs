//! Chapters of a book written as Rust source: the body of a function named
//! `body` becomes Markdown. Plain comments are the prose; doc comments and
//! code stand in fenced code blocks.
//!
//! - [`text`], [`indent`] and [`deindent`]: lines, the indentation that they
//!   share, its removal, and what holds of both.
//! - [`element`]: the nodes and tokens of a function body.
//! - [`comment`]: the prose of a comment.
//! - [`render`]: the walk that writes prose and code; [`shape`] says what
//!   its Markdown looks like for some plain kinds of body.
//! - [`module`]: the chapter of a module given as its items.
//! - [`outline`]: what a parser says of a source text, and the items and
//!   elements that are made of it.
//! - [`syntax`]: source text parsed with `ra_ap_syntax`, and [`write_module`].
//! - [`book`]: what a module asks of the build of a whole book.
//! - [`error`]: the error type.

pub mod book;
pub mod comment;
pub mod deindent;
pub mod element;
pub mod error;
pub mod indent;
pub mod module;
pub mod outline;
pub mod render;
pub mod shape;
pub mod syntax;
pub mod text;

pub use book::build;
pub use element::{Comment, CommentShape, Element, Token};
pub use error::{Error, ErrorKind};
pub use render::{render, CodeFence};
pub use syntax::{write_module, write_module_with};
