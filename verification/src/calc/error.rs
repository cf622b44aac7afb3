//! The failures that the library reports.

use vstd::prelude::*;

verus! {

/// What the parser was looking for at the place where it gave up.
#[derive(Debug, Clone, Copy, PartialEq, Eq, Structural)]
pub enum Expected {
    /// An integer, a name or an opening parenthesis.
    Operand,
    /// An integer literal that fits in sixty-four bits.
    SmallerInteger,
    /// A closing parenthesis.
    CloseParen,
    /// The name that a `let` binds.
    Name,
    /// The `=` of a `let`.
    Equals,
    /// The `;` of a `let`.
    Semicolon,
    /// The end of the text.
    EndOfInput,
}

/// One violation of the grammar: where it is, counted in characters from
/// the start of the text, and what was expected there.
#[derive(Debug, Clone, Copy, PartialEq, Eq, Structural)]
pub struct SyntaxFailure {
    pub position: usize,
    pub expected: Expected,
}

/// A failure of parsing, evaluation or compilation.
#[derive(Debug, PartialEq, Eq)]
pub enum Error {
    /// The text does not match the grammar.
    SyntaxError(SyntaxFailure),
    /// A name was used before any `let` bound it.
    UnboundName(String),
    /// The compilation session could not be set up, or the function could
    /// not be declared or defined. The text says why.
    CompilationError(String),
}

/// An [`Error`] with its texts as sequences of characters.
pub enum ErrorView {
    SyntaxError(SyntaxFailure),
    UnboundName(Seq<char>),
    CompilationError(Seq<char>),
}

impl View for Error {
    type V = ErrorView;

    open spec fn view(&self) -> ErrorView {
        match self {
            Error::SyntaxError(f) => ErrorView::SyntaxError(*f),
            Error::UnboundName(n) => ErrorView::UnboundName(n@),
            Error::CompilationError(m) => ErrorView::CompilationError(m@),
        }
    }
}

/// A result with its error taken by its view.
pub open spec fn outcome<T>(r: Result<T, Error>) -> Result<T, ErrorView> {
    match r {
        Ok(v) => Ok(v),
        Err(e) => Err(e@),
    }
}

} // verus!
