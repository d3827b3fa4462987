use crate::symbols::Type;
use crate::tokens::{TextSpan, Token, TokenKind};
use crate::typing::SemErr;
use vstd::prelude::*;

verus! {

/// An unrecognised or unterminated token.
#[derive(Debug, PartialEq, Eq)]
pub enum LexicalError {
    InvalidCharacter(TextSpan),
}

/// The first place where the token stream leaves the grammar.
#[derive(Debug, PartialEq, Eq)]
pub enum ParseError {
    UnexpectedToken { expected: TokenKind, found: Token, source_file: String },
    UnexpectedTokenList { source_file: String, found: Token, expected: Vec<TokenKind> },
    UnclosedBlock,
}

/// The first scope or type error of a program.
#[derive(Debug, PartialEq, Eq)]
pub enum SemanticError {
    UndefinedVariable(Token),
    AlreadyDefinedVariable(Token),
    UndefinedFunction(Token),
    AlreadyDefinedFunction(Token),
    VariableRedeclaration(Token),
    InvalidOperation(Token),
    /// What was being checked, the type found, the type expected.
    TypeMismatch(String, Type, Type),
    /// What was being checked, the type found, the types allowed.
    TypeMismatchUnion(String, Type, Vec<Type>),
    /// The function, its declared return type, the type its body returns.
    FunctionReturnTypeMismatch(Token, Type, Type),
    /// The function, which takes no parameters, and the argument types.
    FunctionCallNoParams(String, Vec<Type>),
    /// The function, its number of parameters, the number of arguments.
    ArgumentCountMismatch(Token, usize, usize),
    /// The type cast from and the type cast to.
    InvalidCast(Type, Type),
}

/// Any error of the front end. An I/O error is carried as its message.
#[derive(Debug, PartialEq, Eq)]
pub enum Error {
    Lexical(LexicalError),
    Parse(ParseError),
    Semantic(SemanticError),
    Io(String),
}

impl View for SemanticError {
    type V = SemErr;

    open spec fn view(&self) -> SemErr {
        match self {
            SemanticError::UndefinedVariable(t) => SemErr::UndefinedVariable(*t),
            SemanticError::AlreadyDefinedVariable(t) => SemErr::AlreadyDefinedVariable(*t),
            SemanticError::UndefinedFunction(t) => SemErr::UndefinedFunction(*t),
            SemanticError::AlreadyDefinedFunction(t) => SemErr::AlreadyDefinedFunction(*t),
            SemanticError::VariableRedeclaration(t) => SemErr::VariableRedeclaration(*t),
            SemanticError::InvalidOperation(t) => SemErr::InvalidOperation(*t),
            SemanticError::TypeMismatch(c, f, e) => SemErr::TypeMismatch(c@, *f, *e),
            SemanticError::TypeMismatchUnion(c, f, e) => SemErr::TypeMismatchUnion(c@, *f, e@),
            SemanticError::FunctionReturnTypeMismatch(t, d, f) => SemErr::FunctionReturnTypeMismatch(*t, *d, *f),
            SemanticError::FunctionCallNoParams(n, a) => SemErr::FunctionCallNoParams(n@, a@),
            SemanticError::ArgumentCountMismatch(t, p, a) => SemErr::ArgumentCountMismatch(*t, *p as nat, *a as nat),
            SemanticError::InvalidCast(f, t) => SemErr::InvalidCast(*f, *t),
        }
    }
}

} // verus!
