//! Error types shared by every export operation.

use vstd::prelude::*;

verus! {

/// Errors raised while rendering a TikZ drawing.
#[derive(Debug, Clone, Copy, PartialEq, Eq, Structural)]
pub enum TikzError {
    /// A drawable primitive was exported with an empty point sequence.
    NoPoints,
    /// A numeric option held a value that is not a finite decimal numeral.
    NotFiniteFloat,
}

/// Errors raised while exporting a document or writing it out.
///
/// Only `Tikz` errors arise during the in-memory export itself; the
/// remaining variants describe failures of the surrounding text
/// formatting, file writing and compiler invocation, which callers
/// perform after a successful export.
#[derive(Debug, Clone, Copy, PartialEq, Eq, Structural)]
pub enum LatexError {
    /// A text-buffer write operation failed.
    Formatting,
    /// A drawing inside the document failed to render.
    Tikz(TikzError),
    /// An underlying file write or process invocation failed.
    IO,
    /// The destination path for the rendered text has no file-name component.
    PathIsNoFile,
}

pub type LatexResult<T> = Result<T, LatexError>;

impl LatexError {
    /// A short description of the error, suitable for display.
    pub fn describe(&self) -> (r: &'static str)
        ensures
            r@ == spec_describe(*self),
    {
        match self {
            LatexError::Formatting => "formatting failed",
            LatexError::Tikz(TikzError::NoPoints) => "a drawable has no points",
            LatexError::Tikz(TikzError::NotFiniteFloat) => "an option holds a non-finite number",
            LatexError::IO => "input/output failed",
            LatexError::PathIsNoFile => "the path has no file name",
        }
    }
}

/// The text `LatexError::describe` returns for each error.
pub open spec fn spec_describe(e: LatexError) -> Seq<char> {
    match e {
        LatexError::Formatting => "formatting failed"@,
        LatexError::Tikz(TikzError::NoPoints) => "a drawable has no points"@,
        LatexError::Tikz(TikzError::NotFiniteFloat) => "an option holds a non-finite number"@,
        LatexError::IO => "input/output failed"@,
        LatexError::PathIsNoFile => "the path has no file name"@,
    }
}

} // verus!
