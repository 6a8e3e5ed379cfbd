//! The errors of the rendering pipeline.
use vstd::prelude::*;

verus! {

/// An error of parsing, evaluation, import resolution or I/O.
#[derive(Debug)]
pub enum JsxrsError {
    Parse(String),
    NoDefaultExport,
    UndefinedProp(String),
    Unsupported(String),
    ImportNotFound { path: String },
    BaseDirRequired,
    FileNotFound(String),
    Io(String),
    Serde(String),
}

/// The mathematical model of a [`JsxrsError`]: its kind and its text.
pub enum ErrorView {
    Parse(Seq<char>),
    NoDefaultExport,
    UndefinedProp(Seq<char>),
    Unsupported(Seq<char>),
    ImportNotFound(Seq<char>),
    BaseDirRequired,
    FileNotFound(Seq<char>),
    Io(Seq<char>),
    Serde(Seq<char>),
}

impl View for JsxrsError {
    type V = ErrorView;

    open spec fn view(&self) -> ErrorView {
        match self {
            JsxrsError::Parse(s) => ErrorView::Parse(s@),
            JsxrsError::NoDefaultExport => ErrorView::NoDefaultExport,
            JsxrsError::UndefinedProp(s) => ErrorView::UndefinedProp(s@),
            JsxrsError::Unsupported(s) => ErrorView::Unsupported(s@),
            JsxrsError::ImportNotFound { path } => ErrorView::ImportNotFound(path@),
            JsxrsError::BaseDirRequired => ErrorView::BaseDirRequired,
            JsxrsError::FileNotFound(s) => ErrorView::FileNotFound(s@),
            JsxrsError::Io(s) => ErrorView::Io(s@),
            JsxrsError::Serde(s) => ErrorView::Serde(s@),
        }
    }
}

/// An unsupported-construct error with the given message.
pub fn unsupported(msg: &str) -> (e: JsxrsError)
    ensures
        e@ == ErrorView::Unsupported(msg@),
{
    JsxrsError::Unsupported(String::from_str(msg))
}

/// A copy of an error.
pub fn copy_error(e: &JsxrsError) -> (r: JsxrsError)
    ensures
        r@ == e@,
{
    match e {
        JsxrsError::Parse(s) => JsxrsError::Parse(crate::text::copy_string(s)),
        JsxrsError::NoDefaultExport => JsxrsError::NoDefaultExport,
        JsxrsError::UndefinedProp(s) => JsxrsError::UndefinedProp(crate::text::copy_string(s)),
        JsxrsError::Unsupported(s) => JsxrsError::Unsupported(crate::text::copy_string(s)),
        JsxrsError::ImportNotFound { path } => JsxrsError::ImportNotFound {
            path: crate::text::copy_string(path),
        },
        JsxrsError::BaseDirRequired => JsxrsError::BaseDirRequired,
        JsxrsError::FileNotFound(s) => JsxrsError::FileNotFound(crate::text::copy_string(s)),
        JsxrsError::Io(s) => JsxrsError::Io(crate::text::copy_string(s)),
        JsxrsError::Serde(s) => JsxrsError::Serde(crate::text::copy_string(s)),
    }
}

} // verus!
