use crate::ast::AstNode;
use crate::errors::SemanticError;
use crate::scope_checker::ScopeChecker;
use crate::type_checker::TypeChecker;
use crate::typing::{check_node, scope_node, TcState};
use vstd::prelude::*;

verus! {

/// The state a fresh scope pass starts in: no scope.
pub open spec fn scope_start() -> TcState {
    TcState { env: Seq::empty(), in_fn: false, limit: 0 }
}

/// The state a fresh type pass starts in: no scope.
pub open spec fn type_start() -> TcState {
    TcState { env: Seq::empty(), in_fn: false, limit: 0 }
}

/// Semantic analysis of a syntax tree: the scope pass, then the type pass,
/// each from a fresh checker; the first error of the first pass that fails.
pub fn analyze(ast: &AstNode) -> (r: Result<(), SemanticError>)
    ensures
        match scope_node(scope_start(), *ast) {
            Err(e) => r matches Err(re) && re@ == e,
            Ok(_) => match check_node(type_start(), *ast) {
                Err(e) => r matches Err(re) && re@ == e,
                Ok(_) => r is Ok,
            },
        },
{
    let mut scopes = ScopeChecker::new();
    match scopes.visit(ast) {
        Ok(_) => {},
        Err(e) => {
            return Err(e);
        },
    }
    let mut types = TypeChecker::new();
    match types.visit(ast) {
        Ok(_) => Ok(()),
        Err(e) => Err(e),
    }
}

} // verus!
