use crate::ast::AstNode;
use crate::errors::SemanticError;
use crate::scopes::ScopeStack;
use crate::symbols::{lookup_type_name, SigView, Signature, Symbol, Type};
use crate::tokens::{Token, TokenKind};
use crate::typing::{
    check_body,
    check_call_types, check_write, expect, first_arg_mismatch, first_non_int, write_context, check_args, check_block, check_node, check_seq, param_descs, lookup, name_of, resolve_function, resolve_variable, top_has,
    type_of_token, unary_type, binary_type, cast_type, visible_from, Checked, SemErr, TcState,
};
use vstd::prelude::*;

verus! {

broadcast use vstd::std_specs::vec::axiom_vec_index_decreases;

/// The type a type token denotes, `Void` for a token that names no type.
fn token_to_type(t: &Token) -> (r: Type)
    ensures
        r == type_of_token(*t),
{
    match lookup_type_name(&t.span.lexeme) {
        Some(ty) => ty,
        None => Type::Void,
    }
}

/// How a visit's result agrees with the typing rules: on success the type
/// and the state after, on failure the error.
pub open spec fn agrees(r: Result<Type, SemanticError>, c: Checked, after: TcState) -> bool {
    match c {
        Ok((s, t)) => r matches Ok(rt) && rt == t && after == s,
        Err(e) => r matches Err(re) && re@ == e,
    }
}

/// `acc` put before the types of a successful argument check.
pub open spec fn prepend(acc: Seq<Type>, r: Result<(TcState, Seq<Type>), SemErr>) -> Result<
    (TcState, Seq<Type>),
    SemErr,
> {
    match r {
        Ok((s, ts)) => Ok((s, acc + ts)),
        Err(e) => Err(e),
    }
}

/// Static type checker: resolves every name under the scoping rules and
/// computes the type of every node.
#[derive(Debug)]
pub struct TypeChecker {
    /// The scopes enclosing the node being checked
    scopes: ScopeStack,
}

impl View for TypeChecker {
    type V = TcState;

    closed spec fn view(&self) -> TcState {
        self.scopes@
    }
}

impl TypeChecker {
    /// Every scope holds each lexeme at most once.
    pub closed spec fn inv(&self) -> bool {
        self.scopes.inv()
    }

    pub fn new() -> (r: Self)
        ensures
            r.inv(),
            r@ == (TcState { env: Seq::empty(), in_fn: false, limit: 0 }),
    {
        TypeChecker { scopes: ScopeStack::new() }
    }


    /// The innermost symbol named like `symbol`, in any scope.
    pub fn find_symbol(&self, symbol: &Token) -> (r: Option<&Symbol>)
        ensures
            match r {
                Some(s) => lookup(self@.env, 0, name_of(*symbol)) == Some(s.binding()),
                None => lookup(self@.env, 0, name_of(*symbol)) is None,
            },
    {
        self.scopes.find_from(0, &symbol.span.lexeme)
    }

    /// Whether `symbol` is declared in the innermost scope.
    pub fn check_scope(&self, symbol: &Token) -> (r: bool)
        ensures
            r == top_has(self@.env, name_of(*symbol)),
    {
        self.scopes.top_has(&symbol.span.lexeme)
    }

    /// Whether `symbol` resolves inside the current function's scopes (in
    /// any scope outside a function).
    pub fn check_up_to_scope(&self, symbol: &Token) -> (r: bool)
        ensures
            r == lookup(self@.env, visible_from(self@), name_of(*symbol)) is Some,
    {
        let lo = if self.scopes.inside_function() { self.scopes.peek_limit() } else { 0 };
        self.scopes.find_from(lo, &symbol.span.lexeme).is_some()
    }

    /// The type bound to the innermost symbol named like `symbol`, in any
    /// scope: a variable's declared type or a function's return type.
    pub fn get_symbol_type(&self, symbol: &Token) -> (r: Result<Type, SemanticError>)
        ensures
            match lookup(self@.env, 0, name_of(*symbol)) {
                Some(b) if b.ty is Some => r matches Ok(rt) && b.ty == Some(rt),
                _ => r matches Err(e) && e@ == SemErr::UndefinedVariable(*symbol),
            },
    {
        match self.find_symbol(symbol) {
            Some(s) => match s.ty {
                Some(t) => {
                    return Ok(t);
                },
                None => {},
            },
            None => {},
        }
        Err(SemanticError::UndefinedVariable(symbol.duplicate()))
    }

    /// The declared type of the variable `symbol` refers to, resolved under
    /// the capture rule; a function name is no variable.
    fn get_variable_type(&self, symbol: &Token) -> (r: Result<Type, SemanticError>)
        ensures
            match resolve_variable(self@, name_of(*symbol)) {
                Some(t) => r matches Ok(rt) && rt == t,
                None => r matches Err(e) && e@ == SemErr::UndefinedVariable(*symbol),
            },
    {
        let lo = if self.scopes.inside_function() { self.scopes.peek_limit() } else { 0 };
        match self.scopes.find_from(lo, &symbol.span.lexeme) {
            Some(s) => {
                if s.signature.is_none() {
                    match s.ty {
                        Some(t) => {
                            return Ok(t);
                        },
                        None => {},
                    }
                }
            },
            None => {},
        }
        Err(SemanticError::UndefinedVariable(symbol.duplicate()))
    }

    /// The signature of the function `symbol` refers to.
    pub fn get_signature(&self, symbol: &Token) -> (r: Result<Signature, SemanticError>)
        ensures
            match resolve_function(self@, name_of(*symbol)) {
                Some(sig) => r matches Ok(rs) && rs@ == sig,
                None => r matches Err(e) && e@ == SemErr::UndefinedFunction(*symbol),
            },
    {
        match self.find_symbol(symbol) {
            Some(s) => match &s.signature {
                Some(sig) => {
                    return Ok(sig.duplicate());
                },
                None => {},
            },
            None => {},
        }
        Err(SemanticError::UndefinedFunction(symbol.duplicate()))
    }

    /// The type of a unary operation on an operand of type `expr`.
    pub fn get_unary_op_type(&self, op: &Token, expr: Type) -> (r: Result<Type, SemanticError>)
        ensures
            match unary_type(op.kind, expr) {
                Some(t) => r matches Ok(rt) && rt == t,
                None => r matches Err(e) && e@ == SemErr::InvalidOperation(*op),
            },
    {
        match (op.kind, expr) {
            (TokenKind::Minus, Type::Int) => Ok(Type::Int),
            (TokenKind::Minus, Type::Float) => Ok(Type::Float),
            (TokenKind::Not, Type::Bool) => Ok(Type::Bool),
            _ => Err(SemanticError::InvalidOperation(op.duplicate())),
        }
    }

    /// The type of a binary operation on operands of types `left` and `right`.
    pub fn get_bin_op_type(&self, op: &Token, left: Type, right: Type) -> (r: Result<Type, SemanticError>)
        ensures
            match binary_type(op.kind, left, right) {
                Some(t) => r matches Ok(rt) && rt == t,
                None => r matches Err(e) && e@ == SemErr::InvalidOperation(*op),
            },
    {
        match (op.kind, left, right) {
            (TokenKind::Plus, Type::Int, Type::Int) => Ok(Type::Int),
            (TokenKind::Plus, Type::Float, Type::Int) => Ok(Type::Float),
            (TokenKind::Plus, Type::Int, Type::Float) => Ok(Type::Float),
            (TokenKind::Plus, Type::Float, Type::Float) => Ok(Type::Float),
            (TokenKind::Plus, Type::Colour, Type::Colour) => Ok(Type::Colour),
            (TokenKind::Minus, Type::Int, Type::Int) => Ok(Type::Int),
            (TokenKind::Minus, Type::Float, Type::Float) => Ok(Type::Float),
            (TokenKind::Minus, Type::Colour, Type::Colour) => Ok(Type::Colour),
            (TokenKind::Multiply, Type::Int, Type::Int) => Ok(Type::Int),
            (TokenKind::Multiply, Type::Float, Type::Float) => Ok(Type::Float),
            (TokenKind::Multiply, Type::Colour, Type::Colour) => Ok(Type::Colour),
            (TokenKind::Divide, Type::Int, Type::Int) => Ok(Type::Int),
            (TokenKind::Divide, Type::Float, Type::Float) => Ok(Type::Float),
            (TokenKind::Divide, Type::Colour, Type::Colour) => Ok(Type::Colour),
            (TokenKind::EqEq, Type::Int, Type::Int) => Ok(Type::Bool),
            (TokenKind::EqEq, Type::Float, Type::Float) => Ok(Type::Bool),
            (TokenKind::EqEq, Type::Bool, Type::Bool) => Ok(Type::Bool),
            (TokenKind::EqEq, Type::Colour, Type::Colour) => Ok(Type::Bool),
            (TokenKind::NotEqual, Type::Int, Type::Int) => Ok(Type::Bool),
            (TokenKind::NotEqual, Type::Float, Type::Float) => Ok(Type::Bool),
            (TokenKind::NotEqual, Type::Bool, Type::Bool) => Ok(Type::Bool),
            (TokenKind::NotEqual, Type::Colour, Type::Colour) => Ok(Type::Bool),
            (TokenKind::LessThan, Type::Int, Type::Int) => Ok(Type::Bool),
            (TokenKind::LessThan, Type::Float, Type::Float) => Ok(Type::Bool),
            (TokenKind::LessThan, Type::Colour, Type::Colour) => Ok(Type::Bool),
            (TokenKind::LessThanEqual, Type::Int, Type::Int) => Ok(Type::Bool),
            (TokenKind::LessThanEqual, Type::Float, Type::Float) => Ok(Type::Bool),
            (TokenKind::LessThanEqual, Type::Colour, Type::Colour) => Ok(Type::Bool),
            (TokenKind::GreaterThan, Type::Int, Type::Int) => Ok(Type::Bool),
            (TokenKind::GreaterThan, Type::Float, Type::Float) => Ok(Type::Bool),
            (TokenKind::GreaterThan, Type::Colour, Type::Colour) => Ok(Type::Bool),
            (TokenKind::GreaterThanEqual, Type::Int, Type::Int) => Ok(Type::Bool),
            (TokenKind::GreaterThanEqual, Type::Float, Type::Float) => Ok(Type::Bool),
            (TokenKind::GreaterThanEqual, Type::Colour, Type::Colour) => Ok(Type::Bool),
            (TokenKind::And, Type::Bool, Type::Bool) => Ok(Type::Bool),
            (TokenKind::Or, Type::Bool, Type::Bool) => Ok(Type::Bool),
            _ => Err(SemanticError::InvalidOperation(op.duplicate())),
        }
    }

    /// `found` where it is `expected`, else a mismatch reported under `token`.
    pub fn assert_type(&self, token: &String, expected: Type, found: Type) -> (r: Result<Type, SemanticError>)
        ensures
            found == expected ==> (r matches Ok(rt) && rt == found),
            found != expected ==> (r matches Err(e) && e@ == SemErr::TypeMismatch(token@, found, expected)),
    {
        if expected != found {
            return Err(SemanticError::TypeMismatch(token.clone(), found, expected));
        }
        Ok(found)
    }

    /// The type of a cast of a value of type `from` to the type `to` names.
    pub fn check_cast(&self, to: &Token, from: Type) -> (r: Result<Type, SemanticError>)
        ensures
            match cast_type(from, type_of_token(*to)) {
                Some(t) => r matches Ok(rt) && rt == t,
                None => r matches Err(e) && e@ == SemErr::InvalidCast(from, type_of_token(*to)),
            },
    {
        let to = token_to_type(to);
        if from == to {
            return Ok(from);
        }
        match (from, to) {
            (Type::Int, Type::Float) => Ok(Type::Float),
            (Type::Colour, Type::Int) => Ok(Type::Int),
            (Type::Bool, Type::Int) => Ok(Type::Int),
            (Type::Bool, Type::Float) => Ok(Type::Float),
            _ => Err(SemanticError::InvalidCast(from, to)),
        }
    }

    /// The signature a function declaration states.
    pub(crate) fn signature_of(params: &Vec<AstNode>, return_type: &Token) -> (r: Signature)
        ensures
            r@ == (SigView { ret: type_of_token(*return_type), params: param_descs(params@) }),
    {
        let mut sig = Signature::new(token_to_type(return_type));
        let mut i: usize = 0;
        assert(sig@.params =~= param_descs(params@.subrange(0, 0)));
        while i < params.len()
            invariant
                i <= params.len(),
                sig@.ret == type_of_token(*return_type),
                sig@.params == param_descs(params@.subrange(0, i as int)),
            decreases params.len() - i,
        {
            assert(params@.subrange(0, i + 1).drop_last() =~= params@.subrange(0, i as int));
            let ghost before = sig@.params;
            match &params[i] {
                AstNode::FormalParam { identifier, param_type } => {
                    sig.parameters.push((token_to_type(param_type), identifier.span.lexeme.clone()));
                    assert(sig@.params =~= before.push((type_of_token(*param_type), name_of(*identifier))));
                },
                _ => {},
            }
            i = i + 1;
        }
        assert(params@.subrange(0, i as int) =~= params@);
        sig
    }

    /// Checks `stmts` in order.
    fn visit_seq(&mut self, stmts: &Vec<AstNode>) -> (r: Result<Type, SemanticError>)
        requires
            old(self).inv(),
        ensures
            final(self).inv(),
            agrees(r, check_seq(old(self)@, *stmts, 0), final(self)@),
        decreases stmts, 0int,
    {
        let mut i: usize = 0;
        while i < stmts.len()
            invariant
                self.inv(),
                i <= stmts.len(),
                check_seq(old(self)@, *stmts, 0) == check_seq(self@, *stmts, i as int),
            decreases stmts.len() - i,
        {
            proof {
                assert(decreases_to!(*stmts => stmts[i as int]));
            }
            match self.visit(&stmts[i]) {
                Ok(_) => {},
                Err(e) => {
                    return Err(e);
                },
            }
            i = i + 1;
        }
        Ok(Type::Void)
    }

    /// Checks the statements of a block up to the first `return`.
    fn visit_block_stmts(&mut self, stmts: &Vec<AstNode>) -> (r: Result<Type, SemanticError>)
        requires
            old(self).inv(),
        ensures
            final(self).inv(),
            agrees(r, check_block(old(self)@, *stmts, 0), final(self)@),
        decreases stmts, 0int,
    {
        let mut i: usize = 0;
        while i < stmts.len()
            invariant
                self.inv(),
                i <= stmts.len(),
                check_block(old(self)@, *stmts, 0) == check_block(self@, *stmts, i as int),
            decreases stmts.len() - i,
        {
            proof {
                assert(decreases_to!(*stmts => stmts[i as int]));
            }
            match self.visit(&stmts[i]) {
                Ok(t) => {
                    match &stmts[i] {
                        AstNode::Return { .. } => {
                            return Ok(t);
                        },
                        _ => {},
                    }
                },
                Err(e) => {
                    return Err(e);
                },
            }
            i = i + 1;
        }
        Ok(Type::Void)
    }

    /// Checks the arguments of a call in order and gives their types.
    fn visit_args(&mut self, args: &Vec<AstNode>) -> (r: Result<Vec<Type>, SemanticError>)
        requires
            old(self).inv(),
        ensures
            final(self).inv(),
            match check_args(old(self)@, *args, 0) {
                Ok((s, ts)) => r matches Ok(v) && v@ == ts && final(self)@ == s,
                Err(e) => r matches Err(re) && re@ == e,
            },
        decreases args, 0int,
    {
        let mut types: Vec<Type> = Vec::new();
        let mut i: usize = 0;
        assert(types@ + Seq::<Type>::empty() =~= Seq::<Type>::empty());
        while i < args.len()
            invariant
                self.inv(),
                i <= args.len(),
                check_args(old(self)@, *args, 0) == prepend(types@, check_args(self@, *args, i as int)),
            decreases args.len() - i,
        {
            proof {
                assert(decreases_to!(*args => args[i as int]));
            }
            let ghost before = types@;
            match self.visit(&args[i]) {
                Ok(t) => {
                    types.push(t);
                    proof {
                        match check_args(self@, *args, i + 1) {
                            Ok((s2, ts)) => {
                                assert(before + (seq![t] + ts) =~= types@ + ts);
                            },
                            Err(_) => {},
                        }
                    }
                },
                Err(e) => {
                    return Err(e);
                },
            }
            i = i + 1;
        }
        assert(types@ + Seq::<Type>::empty() =~= types@);
        Ok(types)
    }

    /// Checks `node` against the typing and scoping rules. A program leaves
    /// a checker that started with no scope as it found it.
    pub fn visit(&mut self, node: &AstNode) -> (r: Result<Type, SemanticError>)
        requires
            old(self).inv(),
        ensures
            final(self).inv(),
            agrees(r, check_node(old(self)@, *node), final(self)@),
            (*node is Program && old(self)@.env.len() == 0) ==> final(self)@ == old(self)@,
        decreases node, 1int,
    {
        match node {
            AstNode::Program { .. } => self.visit_program(node),
            AstNode::Block { .. } => self.visit_block(node),
            AstNode::FunctionDecl { .. } => self.visit_function_decl(node),
            AstNode::VarDec { .. } => self.visit_var_dec(node),
            AstNode::Assignment { .. } => self.visit_assignment(node),
            AstNode::FormalParam { .. } => self.visit_formal_param(node),
            AstNode::FunctionCall { .. } => self.visit_call(node),
            AstNode::If { .. } => self.visit_if(node),
            AstNode::For { .. } => self.visit_for(node),
            AstNode::While { .. } => self.visit_while(node),
            AstNode::Return { expression } => self.visit(expression),
            AstNode::Print { .. } => self.visit_print(node),
            AstNode::Delay { expression } => self.visit_operand(expression, Type::Int, "delay", Type::Void),
            AstNode::PadClear { expr } => self.visit_operand(expr, Type::Colour, "__clear <expr>", Type::Void),
            AstNode::PadRandI { upper_bound } => self.visit_operand(upper_bound, Type::Int, "upper_bound", Type::Int),
            AstNode::PadWidth => Ok(Type::Int),
            AstNode::PadHeight => Ok(Type::Int),
            AstNode::PadRead { .. } => self.visit_pad_read(node),
            AstNode::PadWrite { .. } => self.visit_pad_write(node),
            AstNode::PadWriteBox { .. } => self.visit_pad_write(node),
            AstNode::Expression { .. } => self.visit_expression(node),
            AstNode::BinOp { .. } => self.visit_bin_op(node),
            AstNode::UnaryOp { .. } => self.visit_unary_op(node),
            AstNode::Identifier { token } => self.get_variable_type(token),
            AstNode::IntLiteral(_) => Ok(Type::Int),
            AstNode::FloatLiteral(_) => Ok(Type::Float),
            AstNode::BoolLiteral(_) => Ok(Type::Bool),
            AstNode::ColourLiteral(_) => Ok(Type::Colour),
            AstNode::EndOfFile => Ok(Type::Void),
        
        }
    }

    fn visit_program(&mut self, node: &AstNode) -> (r: Result<Type, SemanticError>)
        requires
            old(self).inv(),
            *node is Program,
        ensures
            final(self).inv(),
            agrees(r, check_node(old(self)@, *node), final(self)@),
            old(self)@.env.len() == 0 ==> final(self)@ == old(self)@,
        decreases node, 0int,
    {
        match node {
            AstNode::Program { statements } => {
                proof {
                    assert(decreases_to!(*node => node->Program_statements));
                }
                let depth = self.scopes.depth();
                let in_fn = self.scopes.inside_function();
                let limit = self.scopes.peek_limit();
                self.scopes.push();
                let r = self.visit_seq(statements);
                self.scopes.truncate(depth);
                self.scopes.set_flags(in_fn, limit);
                assert(old(self)@.env.len() == 0 ==> self@.env =~= old(self)@.env);
                match r {
                    Ok(_) => Ok(Type::Void),
                    Err(e) => Err(e),
                }
            },
            _ => Ok(Type::Void),
        }
    }

    fn visit_function_decl(&mut self, node: &AstNode) -> (r: Result<Type, SemanticError>)
        requires
            old(self).inv(),
            *node is FunctionDecl,
        ensures
            final(self).inv(),
            agrees(r, check_node(old(self)@, *node), final(self)@),
        decreases node, 0int,
    {
        match node {
            AstNode::FunctionDecl { identifier, params, return_type, block } => {
                proof {
                    assert(decreases_to!(*node => node->FunctionDecl_params));
                }
                if self.check_scope(identifier) {
                    return Err(SemanticError::AlreadyDefinedFunction(identifier.duplicate()));
                }
                let in_fn = self.scopes.inside_function();
                let limit = self.scopes.peek_limit();
                let depth = self.scopes.depth();
                self.scopes.push();
                self.scopes.set_flags(in_fn, depth);
                match self.visit_seq(params) {
                    Ok(_) => {},
                    Err(e) => {
                        return Err(e);
                    },
                }
                let sig = Self::signature_of(params, return_type);
                let ret = sig.return_type;
                let n = self.scopes.depth();
                if n >= 2 {
                    self.scopes.declare_in(
                        n - 2,
                        Symbol { lexeme: identifier.span.lexeme.clone(), ty: Some(ret), signature: Some(sig) },
                    );
                }
                self.scopes.set_flags(true, self.scopes.peek_limit());
                let t = match self.visit_body(block) {
                    Ok(t) => t,
                    Err(e) => {
                        return Err(e);
                    },
                };
                if t != ret {
                    return Err(SemanticError::FunctionReturnTypeMismatch(identifier.duplicate(), ret, t));
                }
                self.scopes.pop();
                self.scopes.set_flags(in_fn, limit);
                Ok(Type::Void)
            },
            _ => Ok(Type::Void),
        }
    }

    /// Checks argument types against a signature, first the count, then
    /// each argument against its parameter in order.
    fn match_arguments(&self, identifier: &Token, sig: &Signature, types: Vec<Type>) -> (r: Result<
        Type,
        SemanticError,
    >)
        ensures
            agrees(r, check_call_types(self@, *identifier, sig@, types@), self@),
    {
        if sig.parameters.len() == 0 && types.len() > 0 {
            return Err(SemanticError::FunctionCallNoParams(identifier.span.lexeme.clone(), types));
        }
        if sig.parameters.len() != types.len() {
            return Err(
                SemanticError::ArgumentCountMismatch(identifier.duplicate(), sig.parameters.len(), types.len()),
            );
        }
        let mut i: usize = 0;
        while i < types.len()
            invariant
                i <= types.len(),
                types.len() == sig.parameters.len(),
                first_arg_mismatch(sig@.params, types@, 0) == first_arg_mismatch(sig@.params, types@, i as int),
            decreases types.len() - i,
        {
            let p = &sig.parameters[i];
            assert(sig@.params[i as int] == (p.0, p.1@));
            if types[i] != p.0 {
                return Err(SemanticError::TypeMismatch(p.1.clone(), types[i], p.0));
            }
            i = i + 1;
        }
        Ok(sig.return_type)
    }

    /// Checks an operand that must have type `expected`; the node then has
    /// type `result`.
    fn visit_operand(&mut self, e: &AstNode, expected: Type, context: &str, result: Type) -> (r: Result<
        Type,
        SemanticError,
    >)
        requires
            old(self).inv(),
        ensures
            final(self).inv(),
            agrees(
                r,
                match check_node(old(self)@, *e) {
                    Err(x) => Err(x),
                    Ok((s, t)) => expect(s, t, expected, context@, result),
                },
                final(self)@,
            ),
        decreases e, 2int,
    {
        let t = match self.visit(e) {
            Ok(t) => t,
            Err(x) => {
                return Err(x);
            },
        };
        if t != expected {
            return Err(SemanticError::TypeMismatch(context.to_owned(), t, expected));
        }
        Ok(result)
    }

    fn visit_pad_write(&mut self, node: &AstNode) -> (r: Result<Type, SemanticError>)
        requires
            old(self).inv(),
            *node is PadWrite || *node is PadWriteBox,
        ensures
            final(self).inv(),
            agrees(r, check_node(old(self)@, *node), final(self)@),
        decreases node, 0int,
    {
        proof {
            reveal_with_fuel(first_non_int, 6);
        }
        let mut ints: Vec<Type> = Vec::new();
        let colour = match node {
            AstNode::PadWrite { loc_x, loc_y, colour } => {
                match self.visit(loc_x) {
                    Ok(t) => ints.push(t),
                    Err(e) => {
                        return Err(e);
                    },
                }
                match self.visit(loc_y) {
                    Ok(t) => ints.push(t),
                    Err(e) => {
                        return Err(e);
                    },
                }
                colour
            },
            AstNode::PadWriteBox { loc_x, loc_y, width, height, colour } => {
                match self.visit(loc_x) {
                    Ok(t) => ints.push(t),
                    Err(e) => {
                        return Err(e);
                    },
                }
                match self.visit(loc_y) {
                    Ok(t) => ints.push(t),
                    Err(e) => {
                        return Err(e);
                    },
                }
                match self.visit(width) {
                    Ok(t) => ints.push(t),
                    Err(e) => {
                        return Err(e);
                    },
                }
                match self.visit(height) {
                    Ok(t) => ints.push(t),
                    Err(e) => {
                        return Err(e);
                    },
                }
                colour
            },
            _ => {
                return Ok(Type::Void);
            },
        };
        let tc = match self.visit(colour) {
            Ok(t) => t,
            Err(e) => {
                return Err(e);
            },
        };
        self.check_write_types(&ints, tc)
    }

    fn visit_block(&mut self, node: &AstNode) -> (r: Result<Type, SemanticError>)
        requires
            old(self).inv(),
            *node is Block,
        ensures
            final(self).inv(),
            agrees(r, check_node(old(self)@, *node), final(self)@),
        decreases node, 0int,
    {
        match node {
            AstNode::Block { statements } => {
                    proof {
                        assert(decreases_to!(*node => node->Block_statements));
                    }
                    self.scopes.push();
                    match self.visit_block_stmts(statements) {
                        Ok(t) => {
                            self.scopes.pop();
                            Ok(t)
                        },
                        Err(e) => Err(e),
                    }
                },
            _ => Ok(Type::Void),
        }
    }

    fn visit_var_dec(&mut self, node: &AstNode) -> (r: Result<Type, SemanticError>)
        requires
            old(self).inv(),
            *node is VarDec,
        ensures
            final(self).inv(),
            agrees(r, check_node(old(self)@, *node), final(self)@),
        decreases node, 0int,
    {
        match node {
            AstNode::VarDec { identifier, var_type, expression } => {
                    let t = match self.visit(expression) {
                        Ok(t) => t,
                        Err(e) => {
                            return Err(e);
                        },
                    };
                    if self.check_scope(identifier) {
                        return Err(SemanticError::VariableRedeclaration(identifier.duplicate()));
                    }
                    let d = token_to_type(var_type);
                    if t != d {
                        return Err(SemanticError::TypeMismatch(identifier.span.lexeme.clone(), t, d));
                    }
                    let n = self.scopes.depth();
                    if n > 0 {
                        self.scopes.declare_in(
                            n - 1,
                            Symbol { lexeme: identifier.span.lexeme.clone(), ty: Some(d), signature: None },
                        );
                    }
                    Ok(Type::Void)
                },
            _ => Ok(Type::Void),
        }
    }

    fn visit_assignment(&mut self, node: &AstNode) -> (r: Result<Type, SemanticError>)
        requires
            old(self).inv(),
            *node is Assignment,
        ensures
            final(self).inv(),
            agrees(r, check_node(old(self)@, *node), final(self)@),
        decreases node, 0int,
    {
        match node {
            AstNode::Assignment { identifier, expression } => {
                    let vt = match self.get_variable_type(identifier) {
                        Ok(vt) => vt,
                        Err(e) => {
                            return Err(e);
                        },
                    };
                    let t = match self.visit(expression) {
                        Ok(t) => t,
                        Err(e) => {
                            return Err(e);
                        },
                    };
                    match self.assert_type(&identifier.span.lexeme, vt, t) {
                        Ok(_) => Ok(Type::Void),
                        Err(e) => Err(e),
                    }
                },
            _ => Ok(Type::Void),
        }
    }

    fn visit_formal_param(&mut self, node: &AstNode) -> (r: Result<Type, SemanticError>)
        requires
            old(self).inv(),
            *node is FormalParam,
        ensures
            final(self).inv(),
            agrees(r, check_node(old(self)@, *node), final(self)@),
        decreases node, 0int,
    {
        match node {
            AstNode::FormalParam { identifier, param_type } => {
                    if self.check_scope(identifier) {
                        return Err(SemanticError::VariableRedeclaration(identifier.duplicate()));
                    }
                    let n = self.scopes.depth();
                    if n > 0 {
                        self.scopes.declare_in(
                            n - 1,
                            Symbol {
                                lexeme: identifier.span.lexeme.clone(),
                                ty: Some(token_to_type(param_type)),
                                signature: None,
                            },
                        );
                    }
                    Ok(Type::Void)
                },
            _ => Ok(Type::Void),
        }
    }

    fn visit_call(&mut self, node: &AstNode) -> (r: Result<Type, SemanticError>)
        requires
            old(self).inv(),
            *node is FunctionCall,
        ensures
            final(self).inv(),
            agrees(r, check_node(old(self)@, *node), final(self)@),
        decreases node, 0int,
    {
        match node {
            AstNode::FunctionCall { identifier, args } => {
                    proof {
                        assert(decreases_to!(*node => node->FunctionCall_args));
                    }
                    let sig = match self.get_signature(identifier) {
                        Ok(sig) => sig,
                        Err(e) => {
                            return Err(e);
                        },
                    };
                    let types = match self.visit_args(args) {
                        Ok(types) => types,
                        Err(e) => {
                            return Err(e);
                        },
                    };
                    self.match_arguments(identifier, &sig, types)
                },
            _ => Ok(Type::Void),
        }
    }

    fn visit_if(&mut self, node: &AstNode) -> (r: Result<Type, SemanticError>)
        requires
            old(self).inv(),
            *node is If,
        ensures
            final(self).inv(),
            agrees(r, check_node(old(self)@, *node), final(self)@),
        decreases node, 0int,
    {
        match node {
            AstNode::If { condition, if_true, if_false } => {
                    match self.visit(condition) {
                        Ok(_) => {},
                        Err(e) => {
                            return Err(e);
                        },
                    }
                    let tt = match self.visit(if_true) {
                        Ok(t) => t,
                        Err(e) => {
                            return Err(e);
                        },
                    };
                    match if_false {
                        None => Ok(tt),
                        Some(f) => {
                            let ft = match self.visit(f) {
                                Ok(t) => t,
                                Err(e) => {
                                    return Err(e);
                                },
                            };
                            if tt != ft {
                                Err(SemanticError::TypeMismatch("if".to_owned(), tt, ft))
                            } else {
                                Ok(tt)
                            }
                        },
                    }
                },
            _ => Ok(Type::Void),
        }
    }

    fn visit_for(&mut self, node: &AstNode) -> (r: Result<Type, SemanticError>)
        requires
            old(self).inv(),
            *node is For,
        ensures
            final(self).inv(),
            agrees(r, check_node(old(self)@, *node), final(self)@),
        decreases node, 0int,
    {
        match node {
            AstNode::For { initializer, condition, increment, body } => {
                    self.scopes.push();
                    match initializer {
                        Some(i) => match self.visit(i) {
                            Ok(_) => {},
                            Err(e) => {
                                return Err(e);
                            },
                        },
                        None => {},
                    }
                    let ct = match self.visit(condition) {
                        Ok(t) => t,
                        Err(e) => {
                            return Err(e);
                        },
                    };
                    if ct != Type::Bool {
                        return Err(SemanticError::TypeMismatch("for condition".to_owned(), ct, Type::Bool));
                    }
                    match increment {
                        Some(a) => match self.visit(a) {
                            Ok(_) => {},
                            Err(e) => {
                                return Err(e);
                            },
                        },
                        None => {},
                    }
                    let bt = match self.visit(body) {
                        Ok(t) => t,
                        Err(e) => {
                            return Err(e);
                        },
                    };
                    self.scopes.pop();
                    Ok(bt)
                },
            _ => Ok(Type::Void),
        }
    }

    fn visit_while(&mut self, node: &AstNode) -> (r: Result<Type, SemanticError>)
        requires
            old(self).inv(),
            *node is While,
        ensures
            final(self).inv(),
            agrees(r, check_node(old(self)@, *node), final(self)@),
        decreases node, 0int,
    {
        match node {
            AstNode::While { condition, body } => {
                    let ct = match self.visit(condition) {
                        Ok(t) => t,
                        Err(e) => {
                            return Err(e);
                        },
                    };
                    if ct != Type::Bool {
                        return Err(SemanticError::TypeMismatch("while".to_owned(), ct, Type::Bool));
                    }
                    self.visit(body)
                },
            _ => Ok(Type::Void),
        }
    }

    fn visit_print(&mut self, node: &AstNode) -> (r: Result<Type, SemanticError>)
        requires
            old(self).inv(),
            *node is Print,
        ensures
            final(self).inv(),
            agrees(r, check_node(old(self)@, *node), final(self)@),
        decreases node, 0int,
    {
        match node {
            AstNode::Print { expression } => {
                    let t = match self.visit(expression) {
                        Ok(t) => t,
                        Err(e) => {
                            return Err(e);
                        },
                    };
                    if t == Type::Void {
                        let allowed = vec![Type::Int, Type::Float, Type::Bool, Type::Colour];
                        assert(allowed@ =~= seq![Type::Int, Type::Float, Type::Bool, Type::Colour]);
                        return Err(SemanticError::TypeMismatchUnion("__print <expr>".to_owned(), t, allowed));
                    }
                    Ok(Type::Void)
                },
            _ => Ok(Type::Void),
        }
    }

    fn visit_pad_read(&mut self, node: &AstNode) -> (r: Result<Type, SemanticError>)
        requires
            old(self).inv(),
            *node is PadRead,
        ensures
            final(self).inv(),
            agrees(r, check_node(old(self)@, *node), final(self)@),
        decreases node, 0int,
    {
        match node {
            AstNode::PadRead { x, y } => {
                    let tx = match self.visit(x) {
                        Ok(t) => t,
                        Err(e) => {
                            return Err(e);
                        },
                    };
                    let ty = match self.visit(y) {
                        Ok(t) => t,
                        Err(e) => {
                            return Err(e);
                        },
                    };
                    if tx != Type::Int {
                        return Err(SemanticError::TypeMismatch("__read <x>, y".to_owned(), tx, Type::Int));
                    }
                    if ty != Type::Int {
                        return Err(SemanticError::TypeMismatch("__read x <y>".to_owned(), ty, Type::Int));
                    }
                    Ok(Type::Int)
                },
            _ => Ok(Type::Void),
        }
    }

    fn visit_expression(&mut self, node: &AstNode) -> (r: Result<Type, SemanticError>)
        requires
            old(self).inv(),
            *node is Expression,
        ensures
            final(self).inv(),
            agrees(r, check_node(old(self)@, *node), final(self)@),
        decreases node, 0int,
    {
        match node {
            AstNode::Expression { casted_type, expr } => {
                    let t = match self.visit(expr) {
                        Ok(t) => t,
                        Err(e) => {
                            return Err(e);
                        },
                    };
                    match casted_type {
                        None => Ok(t),
                        Some(c) => self.check_cast(c, t),
                    }
                },
            _ => Ok(Type::Void),
        }
    }

    fn visit_bin_op(&mut self, node: &AstNode) -> (r: Result<Type, SemanticError>)
        requires
            old(self).inv(),
            *node is BinOp,
        ensures
            final(self).inv(),
            agrees(r, check_node(old(self)@, *node), final(self)@),
        decreases node, 0int,
    {
        match node {
            AstNode::BinOp { left, operator, right } => {
                    let lt = match self.visit(left) {
                        Ok(t) => t,
                        Err(e) => {
                            return Err(e);
                        },
                    };
                    let rt = match self.visit(right) {
                        Ok(t) => t,
                        Err(e) => {
                            return Err(e);
                        },
                    };
                    self.get_bin_op_type(operator, lt, rt)
                },
            _ => Ok(Type::Void),
        }
    }

    fn visit_unary_op(&mut self, node: &AstNode) -> (r: Result<Type, SemanticError>)
        requires
            old(self).inv(),
            *node is UnaryOp,
        ensures
            final(self).inv(),
            agrees(r, check_node(old(self)@, *node), final(self)@),
        decreases node, 0int,
    {
        match node {
            AstNode::UnaryOp { operator, expr } => {
                    let t = match self.visit(expr) {
                        Ok(t) => t,
                        Err(e) => {
                            return Err(e);
                        },
                    };
                    self.get_unary_op_type(operator, t)
                },
            _ => Ok(Type::Void),
        }
    }

    /// Pad write operands: integer coordinates (and sizes), then a colour.
    fn check_write_types(&self, ints: &Vec<Type>, tc: Type) -> (r: Result<Type, SemanticError>)
        requires
            ints.len() == 2 || ints.len() == 4,
        ensures
            agrees(r, check_write(self@, ints@, tc), self@),
    {
        let names = if ints.len() == 4 {
            vec!["loc_x", "loc_y", "width", "height"]
        } else {
            vec!["loc_x", "loc_y"]
        };
        let mut i: usize = 0;
        while i < ints.len()
            invariant
                i <= ints.len(),
                ints.len() == 2 || ints.len() == 4,
                names@.len() == ints.len(),
                forall|j: int| 0 <= j < names@.len() ==> #[trigger] names@[j]@ == write_context(ints.len() as int, j),
                first_non_int(ints@, 0) == first_non_int(ints@, i as int),
            decreases ints.len() - i,
        {
            if ints[i] != Type::Int {
                return Err(SemanticError::TypeMismatch(names[i].to_owned(), ints[i], Type::Int));
            }
            i = i + 1;
        }
        if tc != Type::Colour {
            return Err(SemanticError::TypeMismatch("colour".to_owned(), tc, Type::Colour));
        }
        Ok(Type::Void)
    }

    /// Checks a function body's statements in the function's own scope.
    fn visit_body(&mut self, block: &AstNode) -> (r: Result<Type, SemanticError>)
        requires
            old(self).inv(),
        ensures
            final(self).inv(),
            agrees(r, check_body(old(self)@, *block), final(self)@),
        decreases block, 2int,
    {
        match block {
            AstNode::Block { statements } => {
                proof {
                    assert(decreases_to!(*block => block->Block_statements));
                }
                self.visit_block_stmts(statements)
            },
            _ => self.visit(block),
        }
    }
}

} // verus!
