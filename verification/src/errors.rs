//! Structured errors handed to the frontend: a kind, a message, an optional
//! recovery hint and an optional one-click fix.

use vstd::prelude::*;

verus! {

#[derive(Clone, Copy, Debug, PartialEq, Eq, Structural)]
pub enum ErrorKind {
    BadInput,
    Io,
    Misconfigured,
    Unsupported,
    Internal,
}

/// A fix the frontend can apply on the user's behalf.
#[derive(Clone, Copy, Debug, PartialEq, Eq, Structural)]
pub enum AutoFix {
    /// Point op `op_id` at tool `suggested_tool_id`.
    AssignTool { op_id: u32, suggested_tool_id: u32 },
}

#[derive(Clone, Debug)]
pub struct Error {
    pub kind: ErrorKind,
    pub message: String,
    pub recovery_hint: Option<String>,
    pub auto_fix: Option<AutoFix>,
}

/// An error's contents as plain values.
pub struct ErrorView {
    pub kind: ErrorKind,
    pub message: Seq<char>,
    pub recovery_hint: Option<Seq<char>>,
    pub auto_fix: Option<AutoFix>,
}

impl View for Error {
    type V = ErrorView;

    open spec fn view(&self) -> ErrorView {
        ErrorView {
            kind: self.kind,
            message: self.message@,
            recovery_hint: match self.recovery_hint {
                Some(h) => Some(h@),
                None => None,
            },
            auto_fix: self.auto_fix,
        }
    }
}

/// The error of `kind` with `message` and neither hint nor fix.
pub open spec fn plain(kind: ErrorKind, message: Seq<char>) -> ErrorView {
    ErrorView { kind, message, recovery_hint: None, auto_fix: None }
}

/// `e` with recovery hint `hint`.
pub open spec fn hinted(e: ErrorView, hint: Seq<char>) -> ErrorView {
    ErrorView { recovery_hint: Some(hint), ..e }
}

impl Error {
    /// A misconfiguration error with `message`.
    pub fn misconfigured(message: String) -> (e: Error)
        ensures
            e@ == plain(ErrorKind::Misconfigured, message@),
    {
        Error { kind: ErrorKind::Misconfigured, message, recovery_hint: None, auto_fix: None }
    }

    /// An unsupported-feature error with `message`.
    pub fn unsupported(message: String) -> (e: Error)
        ensures
            e@ == plain(ErrorKind::Unsupported, message@),
    {
        Error { kind: ErrorKind::Unsupported, message, recovery_hint: None, auto_fix: None }
    }

    /// An internal error with `message`.
    pub fn internal(message: String) -> (e: Error)
        ensures
            e@ == plain(ErrorKind::Internal, message@),
    {
        Error { kind: ErrorKind::Internal, message, recovery_hint: None, auto_fix: None }
    }

    /// The same error with recovery hint `hint`.
    pub fn with_hint(self, hint: &str) -> (e: Error)
        ensures
            e@ == hinted(self@, hint@),
    {
        Error { recovery_hint: Some(String::from_str(hint)), ..self }
    }

    /// The same error with auto-fix `fix`.
    pub fn with_auto_fix(self, fix: AutoFix) -> (e: Error)
        ensures
            e@ == (ErrorView { auto_fix: Some(fix), ..self@ }),
    {
        Error { auto_fix: Some(fix), ..self }
    }
}

} // verus!
