use crate::ast::AstNode;
use crate::errors::SemanticError;
use crate::scopes::ScopeStack;
use crate::symbols::{lookup_type_name, type_named, Binding, Symbol, Type};
use crate::tokens::Token;
use crate::type_checker::TypeChecker;
use crate::typing::{scope_body, declare_at, with_env, lookup, name_of, names_variable, pop_env, scope_node, scope_seq, top_has, SemErr, Scoped, TcState};
use vstd::prelude::*;

verus! {

broadcast use vstd::std_specs::vec::axiom_vec_index_decreases;

/// How a scope pass result agrees with the scoping rules.
pub open spec fn scope_agrees(r: Result<(), SemanticError>, c: Scoped, after: TcState) -> bool {
    match c {
        Ok(s) => r is Ok && after == s,
        Err(e) => r matches Err(re) && re@ == e,
    }
}

/// The type a type token names; the token must name one.
pub fn token_type(type_token: &Token) -> (r: Type)
    requires
        type_named(type_token.span.lexeme@) is Some,
    ensures
        type_named(type_token.span.lexeme@) == Some(r),
{
    match lookup_type_name(&type_token.span.lexeme) {
        Some(t) => t,
        None => Type::Void,
    }
}

/// Scope pass: checks that every name is declared before use, at most once
/// per scope, and that function bodies capture nothing from outside.
#[derive(Debug)]
pub struct ScopeChecker {
    scopes: ScopeStack,
}

impl View for ScopeChecker {
    type V = TcState;

    closed spec fn view(&self) -> TcState {
        self.scopes@
    }
}

impl ScopeChecker {
    pub closed spec fn inv(&self) -> bool {
        self.scopes.inv()
    }

    /// A checker with no scope open.
    pub fn new() -> (r: Self)
        ensures
            r.inv(),
            r@ == (TcState { env: Seq::empty(), in_fn: false, limit: 0 }),
    {
        ScopeChecker { scopes: ScopeStack::new() }
    }

    /// The innermost symbol named like `symbol`, in any scope.
    pub fn find_symbol(&self, symbol: &Token) -> (r: Option<&Symbol>)
        ensures
            match r {
                Some(s) => lookup(self@.env, 0, name_of(*symbol)) == Some(s.binding()),
                None => lookup(self@.env, 0, name_of(*symbol)) is None,
            },
    {
        self.scopes.find_from(0, &symbol.span.lexeme)
    }

    /// Declares the variable `symbol` with the type `type_token` names in
    /// the innermost scope, opening one first if none is open; an error if
    /// that scope already declares it.
    pub fn add_symbol(&mut self, symbol: &Token, type_token: &Token) -> (r: Result<(), SemanticError>)
        requires
            old(self).inv(),
        ensures
            final(self).inv(),
            ({
                let env0 = if old(self)@.env.len() == 0 {
                    seq![Seq::empty()]
                } else {
                    old(self)@.env
                };
                &&& top_has(env0, name_of(*symbol)) ==> (r matches Err(e) && e@ == SemErr::AlreadyDefinedVariable(
                    *symbol,
                )) && final(self)@ == old(self)@
                &&& !top_has(env0, name_of(*symbol)) ==> r is Ok && final(self)@ == with_env(
                    old(self)@,
                    declare_at(
                        env0,
                        env0.len() - 1,
                        name_of(*symbol),
                        Binding { ty: type_named(name_of(*type_token)), sig: None },
                    ),
                )
            }),
    {
        if self.scopes.depth() == 0 {
            self.scopes.push();
            assert(self@.env =~= seq![Seq::empty()]);
            assert(!top_has(self@.env, name_of(*symbol)));
        }
        self.declare_variable(symbol, type_token)
    }

    /// Declares the variable `symbol` in the innermost scope, which must
    /// not declare it yet.
    fn declare_variable(&mut self, symbol: &Token, type_token: &Token) -> (r: Result<(), SemanticError>)
        requires
            old(self).inv(),
        ensures
            final(self).inv(),
            top_has(old(self)@.env, name_of(*symbol)) ==> (r matches Err(e) && e@
                == SemErr::AlreadyDefinedVariable(*symbol)) && final(self)@ == old(self)@,
            !top_has(old(self)@.env, name_of(*symbol)) ==> r is Ok && final(self)@ == with_env(
                old(self)@,
                declare_at(
                    old(self)@.env,
                    old(self)@.env.len() - 1,
                    name_of(*symbol),
                    Binding { ty: type_named(name_of(*type_token)), sig: None },
                ),
            ),
    {
        if self.scopes.top_has(&symbol.span.lexeme) {
            return Err(SemanticError::AlreadyDefinedVariable(symbol.duplicate()));
        }
        let n = self.scopes.depth();
        if n > 0 {
            self.scopes.declare_in(
                n - 1,
                Symbol {
                    lexeme: symbol.span.lexeme.clone(),
                    ty: lookup_type_name(&type_token.span.lexeme),
                    signature: None,
                },
            );
        }
        Ok(())
    }

    /// Whether the innermost scope declares `symbol`.
    pub fn check_scope(&self, symbol: &Token) -> (r: bool)
        ensures
            r == top_has(self@.env, name_of(*symbol)),
    {
        self.scopes.top_has(&symbol.span.lexeme)
    }

    /// Whether a scope enclosing the innermost one declares `symbol`.
    pub fn check_parent_scope(&self, symbol: &Token) -> (r: bool)
        ensures
            r == (lookup(pop_env(self@.env), 0, name_of(*symbol)) is Some),
    {
        let n = self.scopes.depth();
        if n == 0 {
            return false;
        }
        assert(pop_env(self@.env) =~= self@.env.subrange(0, n - 1));
        self.scopes.find_below(n - 1, &symbol.span.lexeme)
    }

    /// Whether `name` resolves to a variable under the capture rule.
    fn resolves_variable(&self, name: &String) -> (r: bool)
        ensures
            r == names_variable(self@, name@),
    {
        let lo = if self.scopes.inside_function() { self.scopes.peek_limit() } else { 0 };
        match self.scopes.find_from(lo, name) {
            Some(s) => s.signature.is_none(),
            None => false,
        }
    }

    /// Resolves the names of `stmts` in order.
    fn visit_seq(&mut self, stmts: &Vec<AstNode>) -> (r: Result<(), SemanticError>)
        requires
            old(self).inv(),
        ensures
            final(self).inv(),
            scope_agrees(r, scope_seq(old(self)@, *stmts, 0), final(self)@),
        decreases stmts, 0int,
    {
        let mut i: usize = 0;
        while i < stmts.len()
            invariant
                self.inv(),
                i <= stmts.len(),
                scope_seq(old(self)@, *stmts, 0) == scope_seq(self@, *stmts, i as int),
            decreases stmts.len() - i,
        {
            proof {
                assert(decreases_to!(*stmts => stmts[i as int]));
            }
            match self.visit(&stmts[i]) {
                Ok(_) => {},
                Err(e) => {
                    return Err(e);
                },
            }
            i = i + 1;
        }
        Ok(())
    }

    /// Checks that every name in `node` is declared where it is used and
    /// declared at most once per scope. A program leaves a checker that
    /// started with no scope open as it found it, whatever the outcome.
    pub fn visit(&mut self, node: &AstNode) -> (r: Result<(), SemanticError>)
        requires
            old(self).inv(),
        ensures
            final(self).inv(),
            scope_agrees(r, scope_node(old(self)@, *node), final(self)@),
            (*node is Program && old(self)@.env.len() == 0) ==> final(self)@ == old(self)@,
        decreases node, 1int,
    {
        match node {
            AstNode::Program { .. } => self.visit_program(node),
            AstNode::Block { statements } => {
                proof {
                    assert(decreases_to!(*node => node->Block_statements));
                }
                self.scopes.push();
                match self.visit_seq(statements) {
                    Ok(_) => {
                        self.scopes.pop();
                        Ok(())
                    },
                    Err(e) => Err(e),
                }
            },
            AstNode::FunctionDecl { .. } => self.visit_function_decl(node),
            AstNode::VarDec { identifier, var_type, expression } => {
                match self.visit(expression) {
                    Ok(_) => {},
                    Err(e) => {
                        return Err(e);
                    },
                }
                self.declare_variable(identifier, var_type)
            },
            AstNode::FormalParam { identifier, param_type } => self.declare_variable(identifier, param_type),
            AstNode::FunctionCall { identifier, args } => {
                proof {
                    assert(decreases_to!(*node => node->FunctionCall_args));
                }
                let found = match self.find_symbol(identifier) {
                    Some(s) => s.signature.is_some(),
                    None => false,
                };
                if !found {
                    return Err(SemanticError::UndefinedFunction(identifier.duplicate()));
                }
                self.visit_seq(args)
            },
            AstNode::Identifier { token } => {
                if self.resolves_variable(&token.span.lexeme) {
                    Ok(())
                } else {
                    Err(SemanticError::UndefinedVariable(token.duplicate()))
                }
            },
            AstNode::Assignment { identifier, expression } => {
                if self.resolves_variable(&identifier.span.lexeme) {
                    self.visit(expression)
                } else {
                    Err(SemanticError::UndefinedVariable(identifier.duplicate()))
                }
            },
            AstNode::For { .. } => self.visit_for(node),
            AstNode::Return { expression } => self.visit(expression),
            AstNode::Print { expression } => self.visit(expression),
            AstNode::Delay { expression } => self.visit(expression),
            AstNode::PadClear { expr } => self.visit(expr),
            AstNode::PadRandI { upper_bound } => self.visit(upper_bound),
            AstNode::Expression { expr, .. } => self.visit(expr),
            AstNode::UnaryOp { expr, .. } => self.visit(expr),
            AstNode::If { .. } => self.visit_children(node),
            AstNode::While { .. } => self.visit_children(node),
            AstNode::BinOp { .. } => self.visit_children(node),
            AstNode::PadRead { .. } => self.visit_children(node),
            AstNode::PadWrite { .. } => self.visit_children(node),
            AstNode::PadWriteBox { .. } => self.visit_children(node),
            _ => Ok(()),
        }
    }

    fn visit_program(&mut self, node: &AstNode) -> (r: Result<(), SemanticError>)
        requires
            old(self).inv(),
            *node is Program,
        ensures
            final(self).inv(),
            scope_agrees(r, scope_node(old(self)@, *node), final(self)@),
            old(self)@.env.len() == 0 ==> final(self)@ == old(self)@,
        decreases node, 0int,
    {
        match node {
            AstNode::Program { statements } => {
                proof {
                    assert(decreases_to!(*node => node->Program_statements));
                }
                let depth = self.scopes.depth();
                let in_fn = self.scopes.inside_function();
                let limit = self.scopes.peek_limit();
                self.scopes.push();
                let r = self.visit_seq(statements);
                self.scopes.truncate(depth);
                self.scopes.set_flags(in_fn, limit);
                assert(old(self)@.env.len() == 0 ==> self@.env =~= old(self)@.env);
                r
            },
            _ => Ok(()),
        }
    }

    fn visit_function_decl(&mut self, node: &AstNode) -> (r: Result<(), SemanticError>)
        requires
            old(self).inv(),
            *node is FunctionDecl,
        ensures
            final(self).inv(),
            scope_agrees(r, scope_node(old(self)@, *node), final(self)@),
        decreases node, 0int,
    {
        match node {
            AstNode::FunctionDecl { identifier, params, return_type, block } => {
                proof {
                    assert(decreases_to!(*node => node->FunctionDecl_params));
                }
                if self.scopes.top_has(&identifier.span.lexeme) {
                    return Err(SemanticError::AlreadyDefinedFunction(identifier.duplicate()));
                }
                let sig = TypeChecker::signature_of(params, return_type);
                let ret = sig.return_type;
                let depth = self.scopes.depth();
                if depth > 0 {
                    self.scopes.declare_in(
                        depth - 1,
                        Symbol { lexeme: identifier.span.lexeme.clone(), ty: Some(ret), signature: Some(sig) },
                    );
                }
                let in_fn = self.scopes.inside_function();
                let limit = self.scopes.peek_limit();
                self.scopes.push();
                self.scopes.set_flags(in_fn, depth);
                match self.visit_seq(params) {
                    Ok(_) => {},
                    Err(e) => {
                        return Err(e);
                    },
                }
                let limit_now = self.scopes.peek_limit();
                self.scopes.set_flags(true, limit_now);
                match self.visit_body(block) {
                    Ok(_) => {},
                    Err(e) => {
                        return Err(e);
                    },
                }
                self.scopes.pop();
                self.scopes.set_flags(in_fn, limit);
                Ok(())
            },
            _ => Ok(()),
        }
    }

    fn visit_for(&mut self, node: &AstNode) -> (r: Result<(), SemanticError>)
        requires
            old(self).inv(),
            *node is For,
        ensures
            final(self).inv(),
            scope_agrees(r, scope_node(old(self)@, *node), final(self)@),
        decreases node, 0int,
    {
        match node {
            AstNode::For { initializer, condition, increment, body } => {
                self.scopes.push();
                match initializer {
                    Some(i) => match self.visit(i) {
                        Ok(_) => {},
                        Err(e) => {
                            return Err(e);
                        },
                    },
                    None => {},
                }
                match self.visit(condition) {
                    Ok(_) => {},
                    Err(e) => {
                        return Err(e);
                    },
                }
                match increment {
                    Some(a) => match self.visit(a) {
                        Ok(_) => {},
                        Err(e) => {
                            return Err(e);
                        },
                    },
                    None => {},
                }
                match self.visit(body) {
                    Ok(_) => {},
                    Err(e) => {
                        return Err(e);
                    },
                }
                self.scopes.pop();
                Ok(())
            },
            _ => Ok(()),
        }
    }

    /// Nodes whose children are resolved in order and declare nothing.
    fn visit_children(&mut self, node: &AstNode) -> (r: Result<(), SemanticError>)
        requires
            old(self).inv(),
            *node is If || *node is While || *node is BinOp || *node is PadRead || *node is PadWrite
                || *node is PadWriteBox,
        ensures
            final(self).inv(),
            scope_agrees(r, scope_node(old(self)@, *node), final(self)@),
        decreases node, 0int,
    {
        match node {
            AstNode::If { condition, if_true, if_false } => {
                match self.visit(condition) {
                    Ok(_) => {},
                    Err(e) => {
                        return Err(e);
                    },
                }
                match self.visit(if_true) {
                    Ok(_) => {},
                    Err(e) => {
                        return Err(e);
                    },
                }
                match if_false {
                    Some(f) => self.visit(f),
                    None => Ok(()),
                }
            },
            AstNode::While { condition, body } => {
                match self.visit(condition) {
                    Ok(_) => {},
                    Err(e) => {
                        return Err(e);
                    },
                }
                self.visit(body)
            },
            AstNode::BinOp { left, right, .. } => {
                match self.visit(left) {
                    Ok(_) => {},
                    Err(e) => {
                        return Err(e);
                    },
                }
                self.visit(right)
            },
            AstNode::PadRead { x, y } => {
                match self.visit(x) {
                    Ok(_) => {},
                    Err(e) => {
                        return Err(e);
                    },
                }
                self.visit(y)
            },
            AstNode::PadWrite { loc_x, loc_y, colour } => {
                match self.visit(loc_x) {
                    Ok(_) => {},
                    Err(e) => {
                        return Err(e);
                    },
                }
                match self.visit(loc_y) {
                    Ok(_) => {},
                    Err(e) => {
                        return Err(e);
                    },
                }
                self.visit(colour)
            },
            AstNode::PadWriteBox { loc_x, loc_y, width, height, colour } => {
                match self.visit(loc_x) {
                    Ok(_) => {},
                    Err(e) => {
                        return Err(e);
                    },
                }
                match self.visit(loc_y) {
                    Ok(_) => {},
                    Err(e) => {
                        return Err(e);
                    },
                }
                match self.visit(width) {
                    Ok(_) => {},
                    Err(e) => {
                        return Err(e);
                    },
                }
                match self.visit(height) {
                    Ok(_) => {},
                    Err(e) => {
                        return Err(e);
                    },
                }
                self.visit(colour)
            },
            _ => Ok(()),
        }
    }

    /// Resolves a function body's statements in the function's own scope.
    fn visit_body(&mut self, block: &AstNode) -> (r: Result<(), SemanticError>)
        requires
            old(self).inv(),
        ensures
            final(self).inv(),
            scope_agrees(r, scope_body(old(self)@, *block), final(self)@),
        decreases block, 2int,
    {
        match block {
            AstNode::Block { statements } => {
                proof {
                    assert(decreases_to!(*block => block->Block_statements));
                }
                self.visit_seq(statements)
            },
            _ => self.visit(block),
        }
    }
}

} // verus!
