//! PArL compiler core: a lexer, a recursive-descent parser, the two
//! semantic passes (scope resolution and static type checking) over a
//! lexically scoped symbol-table stack, and a PArIR code generator.

pub mod analysis;
pub mod ast;
pub mod codegen;
pub mod errors;
pub mod grammar;
pub mod laws;
pub mod lexer;
pub mod lowering;
pub mod parser;
pub mod scope_checker;
pub mod scopes;
pub mod symbols;
pub mod text;
pub mod tokens;
pub mod type_checker;
pub mod typing;
