//! The domain's error type.
use vstd::prelude::*;

use crate::ports::{secret_error_text, SecretError, SecretErrorView};
use crate::text::append_str;
use crate::value_objects::{slug_error_text, SlugError};

verus! {

/// What went wrong in a domain operation.
#[derive(Debug, Clone, PartialEq, Eq)]
pub enum MindPalaceError {
    PageNotFound(String),
    AccessDenied(String),
    Validation(String),
    Slug(SlugError),
    Store(String),
    Embedding(String),
    Graph(String),
    Serialization(String),
    Secret(SecretError),
    Changelog(String),
}

/// The mathematical value of a [`MindPalaceError`].
pub enum ErrorView {
    PageNotFound(Seq<char>),
    AccessDenied(Seq<char>),
    Validation(Seq<char>),
    Slug(SlugError),
    Store(Seq<char>),
    Embedding(Seq<char>),
    Graph(Seq<char>),
    Serialization(Seq<char>),
    Secret(SecretErrorView),
    Changelog(Seq<char>),
}

impl View for MindPalaceError {
    type V = ErrorView;

    open spec fn view(&self) -> ErrorView {
        match self {
            MindPalaceError::PageNotFound(m) => ErrorView::PageNotFound(m@),
            MindPalaceError::AccessDenied(m) => ErrorView::AccessDenied(m@),
            MindPalaceError::Validation(m) => ErrorView::Validation(m@),
            MindPalaceError::Slug(s) => ErrorView::Slug(*s),
            MindPalaceError::Store(m) => ErrorView::Store(m@),
            MindPalaceError::Embedding(m) => ErrorView::Embedding(m@),
            MindPalaceError::Graph(m) => ErrorView::Graph(m@),
            MindPalaceError::Serialization(m) => ErrorView::Serialization(m@),
            MindPalaceError::Secret(s) => ErrorView::Secret(s@),
            MindPalaceError::Changelog(m) => ErrorView::Changelog(m@),
        }
    }
}

/// The text of an error.
pub open spec fn error_text(e: MindPalaceError) -> Seq<char> {
    match e {
        MindPalaceError::PageNotFound(m) => "page not found: "@ + m@,
        MindPalaceError::AccessDenied(m) => "access denied: "@ + m@,
        MindPalaceError::Validation(m) => "validation error: "@ + m@,
        MindPalaceError::Slug(s) => "slug error: "@ + slug_error_text(s),
        MindPalaceError::Store(m) => "store error: "@ + m@,
        MindPalaceError::Embedding(m) => "embedding error: "@ + m@,
        MindPalaceError::Graph(m) => "graph error: "@ + m@,
        MindPalaceError::Serialization(m) => "serialization error: "@ + m@,
        MindPalaceError::Secret(s) => "secret error: "@ + secret_error_text(s),
        MindPalaceError::Changelog(m) => "changelog error: "@ + m@,
    }
}

impl MindPalaceError {
    /// The human-readable message of the error.
    pub fn message(&self) -> (r: String)
        ensures
            r@ == error_text(*self),
    {
        let mut out = String::new();
        match self {
            MindPalaceError::PageNotFound(m) => {
                append_str(&mut out, "page not found: ");
                append_str(&mut out, m.as_str());
            },
            MindPalaceError::AccessDenied(m) => {
                append_str(&mut out, "access denied: ");
                append_str(&mut out, m.as_str());
            },
            MindPalaceError::Validation(m) => {
                append_str(&mut out, "validation error: ");
                append_str(&mut out, m.as_str());
            },
            MindPalaceError::Slug(s) => {
                append_str(&mut out, "slug error: ");
                append_str(&mut out, s.message());
            },
            MindPalaceError::Store(m) => {
                append_str(&mut out, "store error: ");
                append_str(&mut out, m.as_str());
            },
            MindPalaceError::Embedding(m) => {
                append_str(&mut out, "embedding error: ");
                append_str(&mut out, m.as_str());
            },
            MindPalaceError::Graph(m) => {
                append_str(&mut out, "graph error: ");
                append_str(&mut out, m.as_str());
            },
            MindPalaceError::Serialization(m) => {
                append_str(&mut out, "serialization error: ");
                append_str(&mut out, m.as_str());
            },
            MindPalaceError::Secret(s) => {
                append_str(&mut out, "secret error: ");
                let t = s.message();
                append_str(&mut out, t.as_str());
            },
            MindPalaceError::Changelog(m) => {
                append_str(&mut out, "changelog error: ");
                append_str(&mut out, m.as_str());
            },
        }
        out
    }
}

} // verus!
