use crate::ast::AstNode;
use crate::codegen::Instr;
use crate::tokens::TokenKind;
use vstd::prelude::*;

verus! {

broadcast use vstd::std_specs::vec::axiom_vec_index_decreases;

/// The code generator's state: the code so far, the variables of each open
/// frame (innermost last), how many frames were open when the current
/// function was entered, the functions emitted with their addresses, and
/// the calls still to resolve (address, callee, argument count).
pub struct GenState {
    pub code: Seq<Instr>,
    pub frames: Seq<Seq<Seq<char>>>,
    pub fn_base: nat,
    pub functions: Seq<(Seq<char>, nat)>,
    pub calls: Seq<(nat, Seq<char>, nat)>,
}

pub open spec fn with_code(st: GenState, code: Seq<Instr>) -> GenState {
    GenState { code, frames: st.frames, fn_base: st.fn_base, functions: st.functions, calls: st.calls }
}

pub open spec fn with_frames(st: GenState, frames: Seq<Seq<Seq<char>>>) -> GenState {
    GenState { code: st.code, frames, fn_base: st.fn_base, functions: st.functions, calls: st.calls }
}

pub open spec fn emit(st: GenState, i: Instr) -> GenState {
    with_code(st, st.code.push(i))
}

/// `i` emitted `n` times.
pub open spec fn emit_n(st: GenState, i: Instr, n: nat) -> GenState
    decreases n,
{
    if n == 0 {
        st
    } else {
        emit_n(emit(st, i), i, (n - 1) as nat)
    }
}

/// A jump to `a`: `jmp` (kind 0), `cjmp2` (kind 1) or `cjmp` (otherwise).
pub open spec fn jump(kind: u8, a: nat) -> Instr {
    if kind == 0 {
        Instr::Jmp(a as usize)
    } else if kind == 1 {
        Instr::CJmp2(a as usize)
    } else {
        Instr::CJmp(a as usize)
    }
}

/// The jump at `at` made to land at the current end of the code.
pub open spec fn patch(st: GenState, at: nat, kind: u8) -> GenState {
    with_code(st, st.code.update(at as int, jump(kind, st.code.len())))
}

/// The first slot of `frame`, from `j` on, that holds `name`.
pub open spec fn slot_of(frame: Seq<Seq<char>>, name: Seq<char>, j: int) -> Option<nat>
    decreases frame.len() - j,
{
    if j < 0 || j >= frame.len() {
        None
    } else if frame[j] == name {
        Some(j as nat)
    } else {
        slot_of(frame, name, j + 1)
    }
}

/// The frame distance and slot of `name`, searching frames `i - 1` down to
/// `base`.
pub open spec fn find_variable(frames: Seq<Seq<Seq<char>>>, base: nat, i: int, name: Seq<char>) -> Option<
    (nat, nat),
>
    decreases i,
{
    if i <= base || i <= 0 || i > frames.len() {
        None
    } else {
        match slot_of(frames[i - 1], name, 0) {
            Some(j) => Some(((frames.len() - i) as nat, j)),
            None => find_variable(frames, base, i - 1, name),
        }
    }
}

pub open spec fn lookup_variable(st: GenState, name: Seq<char>) -> Option<(nat, nat)> {
    find_variable(st.frames, st.fn_base, st.frames.len() as int, name)
}

/// Stores the top of the stack into `name` (slot 0 of the innermost frame
/// when the name is unknown).
pub open spec fn store(st: GenState, name: Seq<char>) -> GenState {
    let (level, slot) = match lookup_variable(st, name) {
        Some(p) => p,
        None => (0nat, 0nat),
    };
    emit(emit(emit(st, Instr::PushNum(slot as usize)), Instr::PushNum(level as usize)), Instr::St)
}

/// Gives `name` the next slot of the innermost frame.
pub open spec fn declare(st: GenState, name: Seq<char>) -> GenState {
    if st.frames.len() > 0 {
        with_frames(st, st.frames.update(st.frames.len() - 1, st.frames.last().push(name)))
    } else {
        st
    }
}

pub open spec fn open_frame(st: GenState, size: nat) -> GenState {
    let s = emit(emit(st, Instr::PushNum(size as usize)), Instr::OFrame);
    with_frames(s, s.frames.push(Seq::empty()))
}

pub open spec fn close_frame(st: GenState) -> GenState {
    let s = emit(st, Instr::CFrame);
    if s.frames.len() > 0 {
        with_frames(s, s.frames.drop_last())
    } else {
        s
    }
}

/// The number of variable declarations among `stmts[i..]`.
pub open spec fn count_decls(stmts: Seq<AstNode>) -> nat
    decreases stmts.len(),
{
    if stmts.len() == 0 {
        0
    } else {
        count_decls(stmts.drop_last()) + if stmts.last() is VarDec {
            1nat
        } else {
            0nat
        }
    }
}

pub open spec fn binary_instr(k: TokenKind) -> Instr {
    match k {
        TokenKind::Plus => Instr::Add,
        TokenKind::Minus => Instr::Sub,
        TokenKind::Multiply => Instr::Mul,
        TokenKind::Divide => Instr::Div,
        TokenKind::EqEq => Instr::Eq,
        TokenKind::NotEqual => Instr::Neq,
        TokenKind::LessThan => Instr::Lt,
        TokenKind::LessThanEqual => Instr::Le,
        TokenKind::GreaterThan => Instr::Gt,
        _ => Instr::Ge,
    }
}

/// The lowering of one node: its instructions appended to the state's code.
pub open spec fn lower_node(st: GenState, node: AstNode) -> GenState
    decreases node, 1int,
{
    match node {
        AstNode::Program { statements } => lower_seq(st, statements, 0),
        AstNode::Block { statements } => close_frame(
            lower_seq(open_frame(st, count_decls(statements@)), statements, 0),
        ),
        AstNode::FunctionDecl { .. } => st,
        AstNode::FormalParam { .. } => st,
        AstNode::EndOfFile => st,
        AstNode::VarDec { identifier, expression, .. } => store(
            declare(lower_node(st, *expression), identifier.span.lexeme@),
            identifier.span.lexeme@,
        ),
        AstNode::Assignment { identifier, expression } => store(
            lower_node(st, *expression),
            identifier.span.lexeme@,
        ),
        AstNode::Identifier { token } => match lookup_variable(st, token.span.lexeme@) {
            Some((level, slot)) => emit(st, Instr::PushVar(slot as usize, level as usize)),
            None => emit(st, Instr::PushNum(0)),
        },
        AstNode::IntLiteral(t) => emit(st, Instr::PushLit(t.span.lexeme)),
        AstNode::FloatLiteral(t) => emit(st, Instr::PushLit(t.span.lexeme)),
        AstNode::ColourLiteral(t) => emit(st, Instr::PushLit(t.span.lexeme)),
        AstNode::BoolLiteral(t) => emit(
            st,
            Instr::PushNum(
                if t.span.lexeme@ == "true"@ {
                    1
                } else {
                    0
                },
            ),
        ),
        AstNode::Expression { expr, .. } => lower_node(st, *expr),
        AstNode::UnaryOp { operator, expr } => if operator.kind == TokenKind::Not {
            emit(lower_node(st, *expr), Instr::Not)
        } else {
            emit(lower_node(emit(st, Instr::PushNum(0)), *expr), Instr::Sub)
        },
        AstNode::BinOp { left, operator, right } => {
            let k = operator.kind;
            if k == TokenKind::And || k == TokenKind::Or {
                let s1 = lower_node(st, *left);
                let decide = s1.code.len();
                let s2 = emit(
                    s1,
                    if k == TokenKind::And {
                        Instr::CJmp2(0)
                    } else {
                        Instr::CJmp(0)
                    },
                );
                let s3 = lower_node(s2, *right);
                let skip = s3.code.len();
                let s4 = emit(s3, Instr::Jmp(0));
                let s5 = patch(
                    s4,
                    decide,
                    if k == TokenKind::And {
                        1
                    } else {
                        2
                    },
                );
                let s6 = emit(
                    s5,
                    Instr::PushNum(
                        if k == TokenKind::And {
                            0
                        } else {
                            1
                        },
                    ),
                );
                patch(s6, skip, 0)
            } else {
                emit(lower_node(lower_node(st, *left), *right), binary_instr(k))
            }
        },
        AstNode::FunctionCall { identifier, args } => {
            let s1 = lower_args(st, args, args.len() as int);
            let s2 = emit(s1, Instr::Call(0, args.len()));
            GenState {
                code: s2.code,
                frames: s2.frames,
                fn_base: s2.fn_base,
                functions: s2.functions,
                calls: s2.calls.push((s1.code.len(), identifier.span.lexeme@, args.len() as nat)),
            }
        },
        AstNode::If { condition, if_true, if_false } => {
            let s1 = lower_node(st, *condition);
            let to_else = s1.code.len();
            let s3 = lower_node(emit(s1, Instr::CJmp2(0)), *if_true);
            match if_false {
                Some(f) => {
                    let to_end = s3.code.len();
                    let s5 = patch(emit(s3, Instr::Jmp(0)), to_else, 1);
                    patch(lower_node(s5, *f), to_end, 0)
                },
                None => patch(s3, to_else, 1),
            }
        },
        AstNode::While { condition, body } => {
            let top = st.code.len();
            let s1 = lower_node(st, *condition);
            let to_end = s1.code.len();
            let s3 = lower_node(emit(s1, Instr::CJmp2(0)), *body);
            patch(emit(s3, Instr::Jmp(top as usize)), to_end, 1)
        },
        AstNode::For { initializer, condition, increment, body } => {
            let s0 = open_frame(
                st,
                if initializer is Some {
                    1
                } else {
                    0
                },
            );
            let s1 = match initializer {
                Some(i) => lower_node(s0, *i),
                None => s0,
            };
            let top = s1.code.len();
            let s2 = lower_node(s1, *condition);
            let to_end = s2.code.len();
            let s4 = lower_node(emit(s2, Instr::CJmp2(0)), *body);
            let s5 = match increment {
                Some(a) => lower_node(s4, *a),
                None => s4,
            };
            close_frame(patch(emit(s5, Instr::Jmp(top as usize)), to_end, 1))
        },
        AstNode::Return { expression } => {
            let s = lower_node(st, *expression);
            let open = if s.frames.len() > s.fn_base {
                (s.frames.len() - s.fn_base) as nat
            } else {
                0
            };
            emit(emit_n(s, Instr::CFrame, open), Instr::Ret)
        },
        AstNode::Print { expression } => emit(lower_node(st, *expression), Instr::Print),
        AstNode::Delay { expression } => emit(lower_node(st, *expression), Instr::Delay),
        AstNode::PadClear { expr } => emit(lower_node(st, *expr), Instr::Clear),
        AstNode::PadRandI { upper_bound } => emit(lower_node(st, *upper_bound), Instr::IRnd),
        AstNode::PadWidth => emit(st, Instr::Width),
        AstNode::PadHeight => emit(st, Instr::Height),
        AstNode::PadRead { x, y } => emit(lower_node(lower_node(st, *y), *x), Instr::Read),
        AstNode::PadWrite { loc_x, loc_y, colour } => emit(
            lower_node(lower_node(lower_node(st, *colour), *loc_y), *loc_x),
            Instr::Write,
        ),
        AstNode::PadWriteBox { loc_x, loc_y, width, height, colour } => emit(
            lower_node(
                lower_node(lower_node(lower_node(lower_node(st, *colour), *height), *width), *loc_y),
                *loc_x,
            ),
            Instr::WriteBox,
        ),
    }
}

/// Lowers `stmts[i..]` in order.
pub open spec fn lower_seq(st: GenState, stmts: Vec<AstNode>, i: int) -> GenState
    decreases stmts, 0int, stmts.len() - i,
{
    if 0 <= i < stmts.len() {
        lower_seq(lower_node(st, stmts[i]), stmts, i + 1)
    } else {
        st
    }
}

/// Lowers `args[..i]` from the last to the first.
pub open spec fn lower_args(st: GenState, args: Vec<AstNode>, i: int) -> GenState
    decreases args, 0int, i,
{
    if 0 < i <= args.len() {
        lower_args(lower_node(st, args[i - 1]), args, i - 1)
    } else {
        st
    }
}

/// The parameter names of a function, in order.
pub open spec fn param_names(ps: Seq<AstNode>) -> Seq<Seq<char>>
    decreases ps.len(),
{
    if ps.len() == 0 {
        Seq::empty()
    } else {
        let rest = param_names(ps.drop_last());
        match ps.last() {
            AstNode::FormalParam { identifier, .. } => rest.push(identifier.span.lexeme@),
            _ => rest,
        }
    }
}

/// The size of a function's frame: its parameters and its locals (at most
/// the largest `usize`).
pub open spec fn frame_size(params: nat, locals: nat) -> usize {
    if params + locals > usize::MAX {
        usize::MAX
    } else {
        (params + locals) as usize
    }
}

/// The bodies of the functions declared in `node`, at any depth.
pub open spec fn lower_functions_in(st: GenState, node: AstNode) -> GenState
    decreases node, 1int,
{
    match node {
        AstNode::FunctionDecl { identifier, params, block, .. } => match *block {
            AstNode::Block { statements } => {
                let s0 = GenState {
                    code: st.code,
                    frames: st.frames.push(param_names(params@)),
                    fn_base: st.frames.len(),
                    functions: st.functions,
                    calls: st.calls,
                };
                let size = frame_size(param_names(params@).len(), count_decls(statements@));
                let s1 = emit(emit(s0, Instr::PushNum(size)), Instr::OFrame);
                let s2 = GenState {
                    code: s1.code,
                    frames: s1.frames,
                    fn_base: s1.fn_base,
                    functions: s1.functions.push((identifier.span.lexeme@, st.code.len())),
                    calls: s1.calls,
                };
                let s4 = emit(emit(lower_seq(s2, statements, 0), Instr::CFrame), Instr::Ret);
                let s5 = GenState {
                    code: s4.code,
                    frames: if s4.frames.len() > 0 {
                        s4.frames.drop_last()
                    } else {
                        s4.frames
                    },
                    fn_base: st.fn_base,
                    functions: s4.functions,
                    calls: s4.calls,
                };
                lower_functions(s5, statements, 0)
            },
            _ => st,
        },
        AstNode::Block { statements } => lower_functions(st, statements, 0),
        AstNode::If { if_true, if_false, .. } => {
            let s = lower_functions_in(st, *if_true);
            match if_false {
                Some(f) => lower_functions_in(s, *f),
                None => s,
            }
        },
        AstNode::While { body, .. } => lower_functions_in(st, *body),
        AstNode::For { body, .. } => lower_functions_in(st, *body),
        _ => st,
    }
}

pub open spec fn lower_functions(st: GenState, stmts: Vec<AstNode>, i: int) -> GenState
    decreases stmts, 0int, stmts.len() - i,
{
    if 0 <= i < stmts.len() {
        lower_functions(lower_functions_in(st, stmts[i]), stmts, i + 1)
    } else {
        st
    }
}

/// The address of the first function emitted under `name`, from `i` on.
pub open spec fn function_address(fs: Seq<(Seq<char>, nat)>, name: Seq<char>, i: int) -> Option<nat>
    decreases fs.len() - i,
{
    if i < 0 || i >= fs.len() {
        None
    } else if fs[i].0 == name {
        Some(fs[i].1)
    } else {
        function_address(fs, name, i + 1)
    }
}

/// Each pending call from `i` on pointed at its function (address 0 when
/// no function has that name).
pub open spec fn resolve_calls(st: GenState, i: int) -> GenState
    decreases st.calls.len() - i,
{
    if 0 <= i < st.calls.len() {
        let (at, name, argc) = st.calls[i];
        let address = match function_address(st.functions, name, 0) {
            Some(a) => a,
            None => 0,
        };
        resolve_calls(with_code(st, st.code.update(at as int, Instr::Call(address as usize, argc as usize))), i + 1)
    } else {
        st
    }
}

/// The PArIR of a program: the top-level code, `halt`, then the body of
/// every function, with every call pointed at its function. A function's
/// body opens a frame sized to its parameters and locals, and closes it
/// before returning.
pub open spec fn lower(ast: AstNode) -> Seq<Instr> {
    let start = GenState {
        code: Seq::empty(),
        frames: seq![Seq::empty()],
        fn_base: 0,
        functions: Seq::empty(),
        calls: Seq::empty(),
    };
    let s1 = emit(lower_node(start, ast), Instr::Halt);
    let s2 = match ast {
        AstNode::Program { statements } => lower_functions(s1, statements, 0),
        _ => s1,
    };
    resolve_calls(s2, 0).code
}

} // verus!
