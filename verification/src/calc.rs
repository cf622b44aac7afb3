//! The calculator language: syntax tree, parser, interpreter, code
//! generator and compilation session.

pub mod ast;
pub mod backend;
pub mod error;
pub mod interp;
pub mod ir;
pub mod laws;
pub mod parser;
pub mod scope;
pub mod staged;
pub mod text;

pub use ast::{Expr, Term};
pub use error::{Error, ErrorView, Expected, SyntaxFailure};
pub use interp::{eval, Interpreter};
pub use parser::parse;
pub use staged::{eval_staged, Compiled, FunctionTranslator, Generated, StagedInterpreter};
