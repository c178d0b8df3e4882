//! The library's error type.
use vstd::prelude::*;
use crate::text::{concat2, decimal, i64_to_decimal, to_owned_string};

verus! {

/// An error of the task manager.
///
/// `Io` and `Json` hold the message of the underlying I/O or JSON error, which the
/// program's edge reports into the library.
#[derive(Clone, Debug, PartialEq, Eq)]
pub enum AppError {
    Io(String),
    Json(String),
    GlueSql(String),
    NotFound(i64),
    InvalidCommand(String),
    Unsupported(String),
    Domain(String),
}

/// The mathematical value of an `AppError`.
pub enum ErrorView {
    Io(Seq<char>),
    Json(Seq<char>),
    GlueSql(Seq<char>),
    NotFound(i64),
    InvalidCommand(Seq<char>),
    Unsupported(Seq<char>),
    Domain(Seq<char>),
}

impl View for AppError {
    type V = ErrorView;

    open spec fn view(&self) -> ErrorView {
        match self {
            AppError::Io(m) => ErrorView::Io(m@),
            AppError::Json(m) => ErrorView::Json(m@),
            AppError::GlueSql(m) => ErrorView::GlueSql(m@),
            AppError::NotFound(id) => ErrorView::NotFound(*id),
            AppError::InvalidCommand(m) => ErrorView::InvalidCommand(m@),
            AppError::Unsupported(m) => ErrorView::Unsupported(m@),
            AppError::Domain(m) => ErrorView::Domain(m@),
        }
    }
}

impl ErrorView {
    /// The text shown to the user for an error.
    pub open spec fn message(self) -> Seq<char> {
        match self {
            ErrorView::Io(m) => "I/O error: "@ + m,
            ErrorView::Json(m) => "JSON error: "@ + m,
            ErrorView::GlueSql(m) => "GlueSQL error: "@ + m,
            ErrorView::NotFound(id) => "Task not found: "@ + decimal(id as int),
            ErrorView::InvalidCommand(m) => m,
            ErrorView::Unsupported(m) => m,
            ErrorView::Domain(m) => m,
        }
    }
}

impl AppError {
    /// The text shown to the user for this error.
    pub fn message(&self) -> (s: String)
        ensures
            s@ == self@.message(),
    {
        match self {
            AppError::Io(m) => concat2("I/O error: ", m.as_str()),
            AppError::Json(m) => concat2("JSON error: ", m.as_str()),
            AppError::GlueSql(m) => concat2("GlueSQL error: ", m.as_str()),
            AppError::NotFound(id) => {
                let digits = i64_to_decimal(*id);
                concat2("Task not found: ", digits.as_str())
            },
            AppError::InvalidCommand(m) => to_owned_string(m.as_str()),
            AppError::Unsupported(m) => to_owned_string(m.as_str()),
            AppError::Domain(m) => to_owned_string(m.as_str()),
        }
    }
}

} // verus!
