use crate::ast::AstNode;
use crate::symbols::{entry_of, type_named, Binding, SigView, Type};
use crate::tokens::{Token, TokenKind};
use vstd::prelude::*;

verus! {

/// A semantic error as the typing rules state it.
pub enum SemErr {
    UndefinedVariable(Token),
    AlreadyDefinedVariable(Token),
    UndefinedFunction(Token),
    AlreadyDefinedFunction(Token),
    VariableRedeclaration(Token),
    InvalidOperation(Token),
    TypeMismatch(Seq<char>, Type, Type),
    TypeMismatchUnion(Seq<char>, Type, Seq<Type>),
    FunctionReturnTypeMismatch(Token, Type, Type),
    FunctionCallNoParams(Seq<char>, Seq<Type>),
    ArgumentCountMismatch(Token, nat, nat),
    InvalidCast(Type, Type),
}

/// One scope: its entries in declaration order.
pub type Table = Seq<(Seq<char>, Binding)>;

/// The type checker's state: the scope stack (index 0 is the program
/// scope), whether a function body is being checked, and the index of the
/// lowest scope that a name may resolve to inside a function body.
pub struct TcState {
    pub env: Seq<Table>,
    pub in_fn: bool,
    pub limit: nat,
}

/// The result of checking a node: the state after it and its type, or the
/// first error.
pub type Checked = Result<(TcState, Type), SemErr>;

pub open spec fn name_of(t: Token) -> Seq<char> {
    t.span.lexeme@
}

/// The type a type token denotes; a token that names no type denotes `Void`.
pub open spec fn type_of_token(t: Token) -> Type {
    match type_named(t.span.lexeme@) {
        Some(ty) => ty,
        None => Type::Void,
    }
}

pub open spec fn with_env(st: TcState, env: Seq<Table>) -> TcState {
    TcState { env, in_fn: st.in_fn, limit: st.limit }
}

pub open spec fn push_scope(st: TcState) -> TcState {
    with_env(st, st.env.push(Seq::empty()))
}

pub open spec fn pop_env(env: Seq<Table>) -> Seq<Table> {
    if env.len() > 0 {
        env.drop_last()
    } else {
        env
    }
}

pub open spec fn truncate_env(env: Seq<Table>, n: nat) -> Seq<Table> {
    if n <= env.len() {
        env.subrange(0, n as int)
    } else {
        env
    }
}

/// `name` is declared in the innermost scope.
pub open spec fn top_has(env: Seq<Table>, name: Seq<char>) -> bool {
    env.len() > 0 && entry_of(env.last(), name) is Some
}

/// Declares `name` in scope `idx` unless that scope already declares it.
pub open spec fn declare_at(env: Seq<Table>, idx: int, name: Seq<char>, b: Binding) -> Seq<Table> {
    if 0 <= idx < env.len() && entry_of(env[idx], name) is None {
        env.update(idx, env[idx].push((name, b)))
    } else {
        env
    }
}

/// The binding of `name` in the innermost scope that declares it, among the
/// scopes with index at least `lo`.
pub open spec fn lookup(env: Seq<Table>, lo: int, name: Seq<char>) -> Option<Binding>
    decreases env.len(),
{
    if env.len() == 0 || env.len() <= lo {
        None
    } else {
        match entry_of(env.last(), name) {
            Some(b) => Some(b),
            None => lookup(env.drop_last(), lo, name),
        }
    }
}

/// The lowest scope a variable may resolve to: inside a function body the
/// function's own scopes only, elsewhere any scope.
pub open spec fn visible_from(st: TcState) -> int {
    if st.in_fn {
        st.limit as int
    } else {
        0
    }
}

/// The type of a variable binding; `None` for a function or an untyped name.
pub open spec fn variable_type(b: Option<Binding>) -> Option<Type> {
    match b {
        Some(b) => if b.sig is None {
            b.ty
        } else {
            None
        },
        None => None,
    }
}

/// The type of a variable reference, resolved under the capture rule.
pub open spec fn resolve_variable(st: TcState, name: Seq<char>) -> Option<Type> {
    variable_type(lookup(st.env, visible_from(st), name))
}

/// The signature a function call resolves to, searching every scope.
pub open spec fn resolve_function(st: TcState, name: Seq<char>) -> Option<SigView> {
    match lookup(st.env, 0, name) {
        Some(b) => b.sig,
        None => None,
    }
}

pub open spec fn unary_type(op: TokenKind, t: Type) -> Option<Type> {
    match (op, t) {
        (TokenKind::Minus, Type::Int) => Some(Type::Int),
        (TokenKind::Minus, Type::Float) => Some(Type::Float),
        (TokenKind::Not, Type::Bool) => Some(Type::Bool),
        _ => None,
    }
}

pub open spec fn is_arithmetic(op: TokenKind) -> bool {
    op == TokenKind::Minus || op == TokenKind::Multiply || op == TokenKind::Divide
}

pub open spec fn is_equality(op: TokenKind) -> bool {
    op == TokenKind::EqEq || op == TokenKind::NotEqual
}

pub open spec fn is_relational(op: TokenKind) -> bool {
    op == TokenKind::LessThan || op == TokenKind::LessThanEqual || op == TokenKind::GreaterThan
        || op == TokenKind::GreaterThanEqual
}

pub open spec fn is_logical(op: TokenKind) -> bool {
    op == TokenKind::And || op == TokenKind::Or
}

/// The result type of a binary operator on operands of the given types.
pub open spec fn binary_type(op: TokenKind, l: Type, r: Type) -> Option<Type> {
    if op == TokenKind::Plus {
        if (l == Type::Int && r == Type::Float) || (l == Type::Float && r == Type::Int) {
            Some(Type::Float)
        } else if l == r && (l == Type::Int || l == Type::Float || l == Type::Colour) {
            Some(l)
        } else {
            None
        }
    } else if is_arithmetic(op) {
        if l == r && (l == Type::Int || l == Type::Float || l == Type::Colour) {
            Some(l)
        } else {
            None
        }
    } else if is_equality(op) {
        if l == r && l != Type::Void {
            Some(Type::Bool)
        } else {
            None
        }
    } else if is_relational(op) {
        if l == r && (l == Type::Int || l == Type::Float || l == Type::Colour) {
            Some(Type::Bool)
        } else {
            None
        }
    } else if is_logical(op) {
        if l == Type::Bool && r == Type::Bool {
            Some(Type::Bool)
        } else {
            None
        }
    } else {
        None
    }
}

/// The type of `e as to` where `e` has type `from`.
pub open spec fn cast_type(from: Type, to: Type) -> Option<Type> {
    if from == to {
        Some(from)
    } else {
        match (from, to) {
            (Type::Int, Type::Float) => Some(Type::Float),
            (Type::Colour, Type::Int) => Some(Type::Int),
            (Type::Bool, Type::Int) => Some(Type::Int),
            (Type::Bool, Type::Float) => Some(Type::Float),
            _ => None,
        }
    }
}

/// The parameter descriptors a list of formal parameters declares.
pub open spec fn param_descs(ps: Seq<AstNode>) -> Seq<(Type, Seq<char>)>
    decreases ps.len(),
{
    if ps.len() == 0 {
        Seq::empty()
    } else {
        let rest = param_descs(ps.drop_last());
        match ps.last() {
            AstNode::FormalParam { identifier, param_type } => rest.push(
                (type_of_token(param_type), name_of(identifier)),
            ),
            _ => rest,
        }
    }
}

/// `Ok` with type `t` where `found` is `expected`, else the mismatch.
pub open spec fn expect(st: TcState, found: Type, expected: Type, context: Seq<char>, t: Type) -> Checked {
    if found == expected {
        Ok((st, t))
    } else {
        Err(SemErr::TypeMismatch(context, found, expected))
    }
}

/// The index of the first argument whose type differs from its parameter's.
pub open spec fn first_arg_mismatch(params: Seq<(Type, Seq<char>)>, args: Seq<Type>, i: int) -> Option<int>
    decreases args.len() - i,
{
    if i < 0 || i >= args.len() || i >= params.len() {
        None
    } else if args[i] != params[i].0 {
        Some(i)
    } else {
        first_arg_mismatch(params, args, i + 1)
    }
}

/// Checks a call's argument types against a signature.
pub open spec fn check_call_types(st: TcState, identifier: Token, sig: SigView, args: Seq<Type>) -> Checked {
    if sig.params.len() == 0 && args.len() > 0 {
        Err(SemErr::FunctionCallNoParams(name_of(identifier), args))
    } else if sig.params.len() != args.len() {
        Err(SemErr::ArgumentCountMismatch(identifier, sig.params.len(), args.len()))
    } else {
        match first_arg_mismatch(sig.params, args, 0) {
            Some(i) => Err(SemErr::TypeMismatch(sig.params[i].1, args[i], sig.params[i].0)),
            None => Ok((st, sig.ret)),
        }
    }
}

/// The typing and scoping rules: the outcome of checking `node` in state `st`.
pub open spec fn check_node(st: TcState, node: AstNode) -> Checked
    decreases node, 1int,
{
    match node {
        AstNode::Program { statements } => match check_seq(push_scope(st), statements, 0) {
            Ok((s, _)) => Ok(
                (
                    TcState { env: truncate_env(s.env, st.env.len()), in_fn: st.in_fn, limit: st.limit },
                    Type::Void,
                ),
            ),
            Err(e) => Err(e),
        },
        AstNode::Block { statements } => match check_block(push_scope(st), statements, 0) {
            Ok((s, t)) => Ok((with_env(s, pop_env(s.env)), t)),
            Err(e) => Err(e),
        },
        AstNode::VarDec { identifier, var_type, expression } => match check_node(st, *expression) {
            Err(e) => Err(e),
            Ok((s, t)) => {
                let d = type_of_token(var_type);
                if top_has(s.env, name_of(identifier)) {
                    Err(SemErr::VariableRedeclaration(identifier))
                } else if t != d {
                    Err(SemErr::TypeMismatch(name_of(identifier), t, d))
                } else {
                    Ok(
                        (
                            with_env(
                                s,
                                declare_at(
                                    s.env,
                                    s.env.len() - 1,
                                    name_of(identifier),
                                    Binding { ty: Some(d), sig: None },
                                ),
                            ),
                            Type::Void,
                        ),
                    )
                }
            },
        },
        AstNode::Assignment { identifier, expression } => match resolve_variable(st, name_of(identifier)) {
            None => Err(SemErr::UndefinedVariable(identifier)),
            Some(vt) => match check_node(st, *expression) {
                Err(e) => Err(e),
                Ok((s, t)) => expect(s, t, vt, name_of(identifier), Type::Void),
            },
        },
        AstNode::FunctionDecl { identifier, params, return_type, block } => {
            if top_has(st.env, name_of(identifier)) {
                Err(SemErr::AlreadyDefinedFunction(identifier))
            } else {
                let s0 = TcState { env: st.env.push(Seq::empty()), in_fn: st.in_fn, limit: st.env.len() };
                match check_seq(s0, params, 0) {
                    Err(e) => Err(e),
                    Ok((s1, _)) => {
                        let sig = SigView { ret: type_of_token(return_type), params: param_descs(params@) };
                        let s2 = TcState {
                            env: declare_at(
                                s1.env,
                                s1.env.len() - 2,
                                name_of(identifier),
                                Binding { ty: Some(sig.ret), sig: Some(sig) },
                            ),
                            in_fn: true,
                            limit: s1.limit,
                        };
                        match check_body(s2, *block) {
                            Err(e) => Err(e),
                            Ok((s3, t)) => if t != sig.ret {
                                Err(SemErr::FunctionReturnTypeMismatch(identifier, sig.ret, t))
                            } else {
                                Ok(
                                    (
                                        TcState { env: pop_env(s3.env), in_fn: st.in_fn, limit: st.limit },
                                        Type::Void,
                                    ),
                                )
                            },
                        }
                    },
                }
            }
        },
        AstNode::FormalParam { identifier, param_type } => if top_has(st.env, name_of(identifier)) {
            Err(SemErr::VariableRedeclaration(identifier))
        } else {
            Ok(
                (
                    with_env(
                        st,
                        declare_at(
                            st.env,
                            st.env.len() - 1,
                            name_of(identifier),
                            Binding { ty: Some(type_of_token(param_type)), sig: None },
                        ),
                    ),
                    Type::Void,
                ),
            )
        },
        AstNode::FunctionCall { identifier, args } => match resolve_function(st, name_of(identifier)) {
            None => Err(SemErr::UndefinedFunction(identifier)),
            Some(sig) => match check_args(st, args, 0) {
                Err(e) => Err(e),
                Ok((s, ts)) => check_call_types(s, identifier, sig, ts),
            },
        },
        AstNode::If { condition, if_true, if_false } => match check_node(st, *condition) {
            Err(e) => Err(e),
            Ok((s1, _)) => match check_node(s1, *if_true) {
                Err(e) => Err(e),
                Ok((s2, tt)) => match if_false {
                    None => Ok((s2, tt)),
                    Some(f) => match check_node(s2, *f) {
                        Err(e) => Err(e),
                        Ok((s3, ft)) => if tt != ft {
                            Err(SemErr::TypeMismatch("if"@, tt, ft))
                        } else {
                            Ok((s3, tt))
                        },
                    },
                },
            },
        },
        AstNode::For { initializer, condition, increment, body } => {
            let init = match initializer {
                None => Ok((push_scope(st), Type::Void)),
                Some(i) => check_node(push_scope(st), *i),
            };
            match init {
                Err(e) => Err(e),
                Ok((s1, _)) => match check_node(s1, *condition) {
                    Err(e) => Err(e),
                    Ok((s2, ct)) => if ct != Type::Bool {
                        Err(SemErr::TypeMismatch("for condition"@, ct, Type::Bool))
                    } else {
                        let inc = match increment {
                            None => Ok((s2, Type::Void)),
                            Some(a) => check_node(s2, *a),
                        };
                        match inc {
                            Err(e) => Err(e),
                            Ok((s3, _)) => match check_node(s3, *body) {
                                Err(e) => Err(e),
                                Ok((s4, bt)) => Ok((with_env(s4, pop_env(s4.env)), bt)),
                            },
                        }
                    },
                },
            }
        },
        AstNode::While { condition, body } => match check_node(st, *condition) {
            Err(e) => Err(e),
            Ok((s1, ct)) => if ct != Type::Bool {
                Err(SemErr::TypeMismatch("while"@, ct, Type::Bool))
            } else {
                check_node(s1, *body)
            },
        },
        AstNode::Return { expression } => check_node(st, *expression),
        AstNode::Print { expression } => match check_node(st, *expression) {
            Err(e) => Err(e),
            Ok((s, t)) => if t == Type::Void {
                Err(
                    SemErr::TypeMismatchUnion(
                        "__print <expr>"@,
                        t,
                        seq![Type::Int, Type::Float, Type::Bool, Type::Colour],
                    ),
                )
            } else {
                Ok((s, Type::Void))
            },
        },
        AstNode::Delay { expression } => match check_node(st, *expression) {
            Err(e) => Err(e),
            Ok((s, t)) => expect(s, t, Type::Int, "delay"@, Type::Void),
        },
        AstNode::PadClear { expr } => match check_node(st, *expr) {
            Err(e) => Err(e),
            Ok((s, t)) => expect(s, t, Type::Colour, "__clear <expr>"@, Type::Void),
        },
        AstNode::PadRandI { upper_bound } => match check_node(st, *upper_bound) {
            Err(e) => Err(e),
            Ok((s, t)) => expect(s, t, Type::Int, "upper_bound"@, Type::Int),
        },
        AstNode::PadWidth => Ok((st, Type::Int)),
        AstNode::PadHeight => Ok((st, Type::Int)),
        AstNode::PadRead { x, y } => match check_node(st, *x) {
            Err(e) => Err(e),
            Ok((s1, tx)) => match check_node(s1, *y) {
                Err(e) => Err(e),
                Ok((s2, ty)) => if tx != Type::Int {
                    Err(SemErr::TypeMismatch("__read <x>, y"@, tx, Type::Int))
                } else {
                    expect(s2, ty, Type::Int, "__read x <y>"@, Type::Int)
                },
            },
        },
        AstNode::PadWrite { loc_x, loc_y, colour } => match check_node(st, *loc_x) {
            Err(e) => Err(e),
            Ok((s1, tx)) => match check_node(s1, *loc_y) {
                Err(e) => Err(e),
                Ok((s2, ty)) => match check_node(s2, *colour) {
                    Err(e) => Err(e),
                    Ok((s3, tc)) => check_write(s3, seq![tx, ty], tc),
                },
            },
        },
        AstNode::PadWriteBox { loc_x, loc_y, width, height, colour } => match check_node(st, *loc_x) {
            Err(e) => Err(e),
            Ok((s1, tx)) => match check_node(s1, *loc_y) {
                Err(e) => Err(e),
                Ok((s2, ty)) => match check_node(s2, *width) {
                    Err(e) => Err(e),
                    Ok((s3, tw)) => match check_node(s3, *height) {
                        Err(e) => Err(e),
                        Ok((s4, th)) => match check_node(s4, *colour) {
                            Err(e) => Err(e),
                            Ok((s5, tc)) => check_write(s5, seq![tx, ty, tw, th], tc),
                        },
                    },
                },
            },
        },
        AstNode::Expression { casted_type, expr } => match check_node(st, *expr) {
            Err(e) => Err(e),
            Ok((s, t)) => match casted_type {
                None => Ok((s, t)),
                Some(c) => match cast_type(t, type_of_token(c)) {
                    Some(r) => Ok((s, r)),
                    None => Err(SemErr::InvalidCast(t, type_of_token(c))),
                },
            },
        },
        AstNode::BinOp { left, operator, right } => match check_node(st, *left) {
            Err(e) => Err(e),
            Ok((s1, lt)) => match check_node(s1, *right) {
                Err(e) => Err(e),
                Ok((s2, rt)) => match binary_type(operator.kind, lt, rt) {
                    Some(t) => Ok((s2, t)),
                    None => Err(SemErr::InvalidOperation(operator)),
                },
            },
        },
        AstNode::UnaryOp { operator, expr } => match check_node(st, *expr) {
            Err(e) => Err(e),
            Ok((s, t)) => match unary_type(operator.kind, t) {
                Some(r) => Ok((s, r)),
                None => Err(SemErr::InvalidOperation(operator)),
            },
        },
        AstNode::Identifier { token } => match resolve_variable(st, name_of(token)) {
            Some(t) => Ok((st, t)),
            None => Err(SemErr::UndefinedVariable(token)),
        },
        AstNode::IntLiteral(_) => Ok((st, Type::Int)),
        AstNode::FloatLiteral(_) => Ok((st, Type::Float)),
        AstNode::BoolLiteral(_) => Ok((st, Type::Bool)),
        AstNode::ColourLiteral(_) => Ok((st, Type::Colour)),
        AstNode::EndOfFile => Ok((st, Type::Void)),
    }
}

/// A function body: the statements of its block are checked in the
/// function's own scope, which holds the parameters; the block opens none.
pub open spec fn check_body(st: TcState, block: AstNode) -> Checked
    decreases block, 2int,
{
    match block {
        AstNode::Block { statements } => check_block(st, statements, 0),
        _ => check_node(st, block),
    }
}

/// The names of a pad write's integer operands, in order, then the colour.
pub open spec fn write_context(n: int, i: int) -> Seq<char> {
    if n == 4 {
        seq!["loc_x"@, "loc_y"@, "width"@, "height"@][i]
    } else {
        seq!["loc_x"@, "loc_y"@][i]
    }
}

/// The first operand of a pad write that is not an `Int`.
pub open spec fn first_non_int(ts: Seq<Type>, i: int) -> Option<int>
    decreases ts.len() - i,
{
    if i < 0 || i >= ts.len() {
        None
    } else if ts[i] != Type::Int {
        Some(i)
    } else {
        first_non_int(ts, i + 1)
    }
}

/// A pad write takes integer coordinates (and sizes) and a colour.
pub open spec fn check_write(st: TcState, ints: Seq<Type>, colour: Type) -> Checked {
    match first_non_int(ints, 0) {
        Some(i) => Err(SemErr::TypeMismatch(write_context(ints.len() as int, i), ints[i], Type::Int)),
        None => expect(st, colour, Type::Colour, "colour"@, Type::Void),
    }
}

/// Checks `stmts[i..]` in order; the type is `Void`.
pub open spec fn check_seq(st: TcState, stmts: Vec<AstNode>, i: int) -> Checked
    decreases stmts, 0int, stmts.len() - i,
{
    if 0 <= i < stmts.len() {
        match check_node(st, stmts[i]) {
            Err(e) => Err(e),
            Ok((s, _)) => check_seq(s, stmts, i + 1),
        }
    } else {
        Ok((st, Type::Void))
    }
}

/// Checks the statements of a block from `i` on, up to and including the
/// first `return`, whose type is the block's; without one it is `Void`.
pub open spec fn check_block(st: TcState, stmts: Vec<AstNode>, i: int) -> Checked
    decreases stmts, 0int, stmts.len() - i,
{
    if 0 <= i < stmts.len() {
        match check_node(st, stmts[i]) {
            Err(e) => Err(e),
            Ok((s, t)) => if stmts[i] is Return {
                Ok((s, t))
            } else {
                check_block(s, stmts, i + 1)
            },
        }
    } else {
        Ok((st, Type::Void))
    }
}

/// Checks the arguments `args[i..]` in order and gives their types.
pub open spec fn check_args(st: TcState, args: Vec<AstNode>, i: int) -> Result<(TcState, Seq<Type>), SemErr>
    decreases args, 0int, args.len() - i,
{
    if 0 <= i < args.len() {
        match check_node(st, args[i]) {
            Err(e) => Err(e),
            Ok((s, t)) => match check_args(s, args, i + 1) {
                Err(e) => Err(e),
                Ok((s2, ts)) => Ok((s2, seq![t] + ts)),
            },
        }
    } else {
        Ok((st, Seq::empty()))
    }
}

/// The outcome of the scope pass: the state after a node, or the first
/// scope error.
pub type Scoped = Result<TcState, SemErr>;

/// `name` resolves, under the capture rule, to a variable.
pub open spec fn names_variable(st: TcState, name: Seq<char>) -> bool {
    lookup(st.env, visible_from(st), name) matches Some(b) && b.sig is None
}

/// The scoping rules alone: the outcome of resolving the names of `node`
/// in state `st`.
pub open spec fn scope_node(st: TcState, node: AstNode) -> Scoped
    decreases node, 1int,
{
    match node {
        AstNode::Program { statements } => match scope_seq(push_scope(st), statements, 0) {
            Ok(s) => Ok(TcState { env: truncate_env(s.env, st.env.len()), in_fn: st.in_fn, limit: st.limit }),
            Err(e) => Err(e),
        },
        AstNode::Block { statements } => match scope_seq(push_scope(st), statements, 0) {
            Ok(s) => Ok(with_env(s, pop_env(s.env))),
            Err(e) => Err(e),
        },
        AstNode::FunctionDecl { identifier, params, return_type, block } => {
            if top_has(st.env, name_of(identifier)) {
                Err(SemErr::AlreadyDefinedFunction(identifier))
            } else {
                let sig = SigView { ret: type_of_token(return_type), params: param_descs(params@) };
                let env0 = declare_at(
                    st.env,
                    st.env.len() - 1,
                    name_of(identifier),
                    Binding { ty: Some(sig.ret), sig: Some(sig) },
                );
                let s1 = TcState { env: env0.push(Seq::empty()), in_fn: st.in_fn, limit: st.env.len() };
                match scope_seq(s1, params, 0) {
                    Err(e) => Err(e),
                    Ok(s2) => match scope_body(TcState { env: s2.env, in_fn: true, limit: s2.limit }, *block) {
                        Err(e) => Err(e),
                        Ok(s3) => Ok(TcState { env: pop_env(s3.env), in_fn: st.in_fn, limit: st.limit }),
                    },
                }
            }
        },
        AstNode::VarDec { identifier, var_type, expression } => match scope_node(st, *expression) {
            Err(e) => Err(e),
            Ok(s) => if top_has(s.env, name_of(identifier)) {
                Err(SemErr::AlreadyDefinedVariable(identifier))
            } else {
                Ok(
                    with_env(
                        s,
                        declare_at(
                            s.env,
                            s.env.len() - 1,
                            name_of(identifier),
                            Binding { ty: type_named(name_of(var_type)), sig: None },
                        ),
                    ),
                )
            },
        },
        AstNode::FormalParam { identifier, param_type } => if top_has(st.env, name_of(identifier)) {
            Err(SemErr::AlreadyDefinedVariable(identifier))
        } else {
            Ok(
                with_env(
                    st,
                    declare_at(
                        st.env,
                        st.env.len() - 1,
                        name_of(identifier),
                        Binding { ty: type_named(name_of(param_type)), sig: None },
                    ),
                ),
            )
        },
        AstNode::FunctionCall { identifier, args } => if resolve_function(st, name_of(identifier)) is None {
            Err(SemErr::UndefinedFunction(identifier))
        } else {
            scope_seq(st, args, 0)
        },
        AstNode::Identifier { token } => if names_variable(st, name_of(token)) {
            Ok(st)
        } else {
            Err(SemErr::UndefinedVariable(token))
        },
        AstNode::Assignment { identifier, expression } => if names_variable(st, name_of(identifier)) {
            scope_node(st, *expression)
        } else {
            Err(SemErr::UndefinedVariable(identifier))
        },
        AstNode::If { condition, if_true, if_false } => match scope_node(st, *condition) {
            Err(e) => Err(e),
            Ok(s1) => match scope_node(s1, *if_true) {
                Err(e) => Err(e),
                Ok(s2) => match if_false {
                    None => Ok(s2),
                    Some(f) => scope_node(s2, *f),
                },
            },
        },
        AstNode::For { initializer, condition, increment, body } => {
            let init = match initializer {
                None => Ok(push_scope(st)),
                Some(i) => scope_node(push_scope(st), *i),
            };
            match init {
                Err(e) => Err(e),
                Ok(s1) => match scope_node(s1, *condition) {
                    Err(e) => Err(e),
                    Ok(s2) => {
                        let inc = match increment {
                            None => Ok(s2),
                            Some(a) => scope_node(s2, *a),
                        };
                        match inc {
                            Err(e) => Err(e),
                            Ok(s3) => match scope_node(s3, *body) {
                                Err(e) => Err(e),
                                Ok(s4) => Ok(with_env(s4, pop_env(s4.env))),
                            },
                        }
                    },
                },
            }
        },
        AstNode::While { condition, body } => match scope_node(st, *condition) {
            Err(e) => Err(e),
            Ok(s1) => scope_node(s1, *body),
        },
        AstNode::Return { expression } => scope_node(st, *expression),
        AstNode::Print { expression } => scope_node(st, *expression),
        AstNode::Delay { expression } => scope_node(st, *expression),
        AstNode::PadClear { expr } => scope_node(st, *expr),
        AstNode::PadRandI { upper_bound } => scope_node(st, *upper_bound),
        AstNode::Expression { casted_type, expr } => scope_node(st, *expr),
        AstNode::UnaryOp { operator, expr } => scope_node(st, *expr),
        AstNode::BinOp { left, operator, right } => match scope_node(st, *left) {
            Err(e) => Err(e),
            Ok(s1) => scope_node(s1, *right),
        },
        AstNode::PadRead { x, y } => match scope_node(st, *x) {
            Err(e) => Err(e),
            Ok(s1) => scope_node(s1, *y),
        },
        AstNode::PadWrite { loc_x, loc_y, colour } => match scope_node(st, *loc_x) {
            Err(e) => Err(e),
            Ok(s1) => match scope_node(s1, *loc_y) {
                Err(e) => Err(e),
                Ok(s2) => scope_node(s2, *colour),
            },
        },
        AstNode::PadWriteBox { loc_x, loc_y, width, height, colour } => match scope_node(st, *loc_x) {
            Err(e) => Err(e),
            Ok(s1) => match scope_node(s1, *loc_y) {
                Err(e) => Err(e),
                Ok(s2) => match scope_node(s2, *width) {
                    Err(e) => Err(e),
                    Ok(s3) => match scope_node(s3, *height) {
                        Err(e) => Err(e),
                        Ok(s4) => scope_node(s4, *colour),
                    },
                },
            },
        },
        _ => Ok(st),
    }
}

/// A function body for the scope pass: the block's statements are
/// resolved in the function's own scope.
pub open spec fn scope_body(st: TcState, block: AstNode) -> Scoped
    decreases block, 2int,
{
    match block {
        AstNode::Block { statements } => scope_seq(st, statements, 0),
        _ => scope_node(st, block),
    }
}

/// Resolves the names of `stmts[i..]` in order.
pub open spec fn scope_seq(st: TcState, stmts: Vec<AstNode>, i: int) -> Scoped
    decreases stmts, 0int, stmts.len() - i,
{
    if 0 <= i < stmts.len() {
        match scope_node(st, stmts[i]) {
            Err(e) => Err(e),
            Ok(s) => scope_seq(s, stmts, i + 1),
        }
    } else {
        Ok(st)
    }
}

} // verus!
