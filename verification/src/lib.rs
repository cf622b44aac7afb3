//! A small expression language with two back ends over one syntax tree:
//! a tree-walking interpreter and a code generator for a native-code
//! compiler.

pub mod calc;
