use crate::ast::AstNode;
use crate::lexer::lex_spec;
use crate::lowering::lower;
use crate::text::program_text;
use crate::symbols::{entry_of, Type};
use crate::tokens::Token;
use crate::typing::{
    check_args, check_block, check_node, check_seq, lookup, name_of, push_scope, scope_node,
    SemErr, TcState,
};
use vstd::prelude::*;

verus! {

broadcast use vstd::std_specs::vec::axiom_vec_index_decreases;

/// Checking a program from a state with no open scope ends, on success, in
/// that same state; so checking the same program again gives the same
/// outcome.
pub proof fn lemma_check_repeatable(st: TcState, ast: AstNode)
    requires
        st.env.len() == 0,
        ast is Program,
    ensures
        check_node(st, ast) matches Ok((s, _)) ==> s == st && check_node(s, ast) == check_node(st, ast),
{
    if let AstNode::Program { statements } = ast {
        if let Ok((s, _)) = check_seq(push_scope(st), statements, 0) {
            assert(s.env.subrange(0, 0) =~= st.env);
        }
    }
}

/// A block that checks leaves the scopes exactly as it found them: a name
/// declared inside it is not visible once it closes, unless it was visible
/// before.
pub proof fn lemma_block_scope_isolation(st: TcState, node: AstNode, name: Seq<char>, lo: int)
    requires
        node is Block,
    ensures
        check_node(st, node) matches Ok((s, _)) ==> s.env == st.env && (lookup(st.env, lo, name) is None
            ==> lookup(s.env, lo, name) is None),
{
    lemma_frame_scoped(st, node);
}

/// A name declared only inside a block that checked is undefined after the
/// block: referring to it there fails with `UndefinedVariable`, as long as
/// no scope visible before the block declared it.
pub proof fn lemma_block_local_gone(st: TcState, block: AstNode, token: Token)
    requires
        block is Block,
        check_node(st, block) is Ok,
        lookup(st.env, crate::typing::visible_from(st), name_of(token)) is None,
    ensures
        check_node(check_node(st, block)->Ok_0.0, AstNode::Identifier { token }) == Err::<(TcState, Type), SemErr>(
            SemErr::UndefinedVariable(token),
        ),
{
    lemma_frame_scoped(st, block);
}

/// Lexing is a function of the source text alone: equal sources give
/// equal tokens, or equal errors.
pub proof fn lemma_lex_deterministic(a: Seq<char>, b: Seq<char>)
    requires
        a == b,
    ensures
        lex_spec(a) == lex_spec(b),
{
}

/// Code generation is a function of the tree alone: equal trees give the
/// same instructions and the same PArIR text.
pub proof fn lemma_codegen_deterministic(a: AstNode, b: AstNode)
    requires
        a == b,
    ensures
        lower(a) == lower(b),
        program_text(lower(a)) == program_text(lower(b)),
{
}

proof fn lemma_lookup_absent(env: Seq<crate::typing::Table>, lo: int, name: Seq<char>)
    requires
        0 <= lo,
        forall|i: int| lo <= i < env.len() ==> entry_of(#[trigger] env[i], name) is None,
    ensures
        lookup(env, lo, name) is None,
    decreases env.len(),
{
    if env.len() > 0 && env.len() > lo {
        assert(entry_of(env[env.len() - 1], name) is None);
        assert forall|i: int| lo <= i < env.drop_last().len() implies entry_of(
            #[trigger] env.drop_last()[i],
            name,
        ) is None by {
            assert(env.drop_last()[i] == env[i]);
        }
        lemma_lookup_absent(env.drop_last(), lo, name);
    }
}

/// Inside a function body a name resolves only in the function's own
/// scopes: a variable declared only in scopes below them, such as the
/// program scope, is undefined there, for both passes.
pub proof fn lemma_no_capture(st: TcState, token: Token)
    requires
        st.in_fn,
        forall|i: int| st.limit <= i < st.env.len() ==> entry_of(#[trigger] st.env[i], name_of(token)) is None,
    ensures
        check_node(st, AstNode::Identifier { token }) == Err::<(TcState, Type), SemErr>(
            SemErr::UndefinedVariable(token),
        ),
        scope_node(st, AstNode::Identifier { token }) == Err::<TcState, SemErr>(SemErr::UndefinedVariable(token)),
{
    lemma_lookup_absent(st.env, st.limit as int, name_of(token));
}

/// `after` has the scopes of `before`, with only the innermost one possibly
/// grown, and the same capture flag and bound.
pub open spec fn frames(before: TcState, after: TcState) -> bool {
    &&& after.env.len() == before.env.len()
    &&& after.in_fn == before.in_fn
    &&& after.limit == before.limit
    &&& forall|i: int| 0 <= i < before.env.len() - 1 ==> #[trigger] after.env[i] == before.env[i]
}

/// Checking a node that succeeds changes no scope but the innermost, and
/// opens or closes none.
pub proof fn lemma_frame(st: TcState, node: AstNode)
    ensures
        check_node(st, node) matches Ok((s, _)) ==> frames(st, s),
    decreases node, 1int,
{
    match node {
        AstNode::Program { .. } => lemma_frame_scoped(st, node),
        AstNode::Block { .. } => lemma_frame_scoped(st, node),
        AstNode::FunctionDecl { .. } => lemma_frame_function(st, node),
        AstNode::For { .. } => lemma_frame_for(st, node),
        AstNode::If { .. } => lemma_frame_children(st, node),
        AstNode::While { .. } => lemma_frame_children(st, node),
        AstNode::BinOp { .. } => lemma_frame_children(st, node),
        AstNode::PadRead { .. } => lemma_frame_children(st, node),
        AstNode::PadWrite { .. } => lemma_frame_children(st, node),
        AstNode::PadWriteBox { .. } => lemma_frame_children(st, node),
        AstNode::VarDec { expression, .. } => lemma_frame(st, *expression),
        AstNode::Assignment { expression, .. } => lemma_frame(st, *expression),
        AstNode::FunctionCall { args, .. } => lemma_frame_args(st, args, 0),
        AstNode::Return { expression } => lemma_frame(st, *expression),
        AstNode::Print { expression } => lemma_frame(st, *expression),
        AstNode::Delay { expression } => lemma_frame(st, *expression),
        AstNode::PadClear { expr } => lemma_frame(st, *expr),
        AstNode::PadRandI { upper_bound } => lemma_frame(st, *upper_bound),
        AstNode::Expression { expr, .. } => lemma_frame(st, *expr),
        AstNode::UnaryOp { expr, .. } => lemma_frame(st, *expr),
        _ => {},
    }
}

proof fn lemma_frame_scoped(st: TcState, node: AstNode)
    requires
        node is Program || node is Block,
    ensures
        check_node(st, node) matches Ok((s, _)) ==> s.env == st.env && s.in_fn == st.in_fn && s.limit
            == st.limit,
    decreases node, 0int,
{
    match node {
        AstNode::Program { statements } => {
            lemma_frame_seq(push_scope(st), statements, 0);
            if let Ok((s, _)) = check_seq(push_scope(st), statements, 0) {
                assert(s.env.subrange(0, st.env.len() as int) =~= st.env);
            }
        },
        AstNode::Block { statements } => {
            lemma_frame_block(push_scope(st), statements, 0);
            if let Ok((s, _)) = check_block(push_scope(st), statements, 0) {
                assert(s.env.drop_last() =~= st.env);
            }
        },
        _ => {},
    }
}

proof fn lemma_frame_function(st: TcState, node: AstNode)
    requires
        node is FunctionDecl,
    ensures
        check_node(st, node) matches Ok((s, _)) ==> frames(st, s),
    decreases node, 0int,
{
    match node {
        AstNode::FunctionDecl { identifier, params, return_type, block } => {
            let s0 = TcState { env: st.env.push(Seq::empty()), in_fn: st.in_fn, limit: st.env.len() };
            lemma_frame_seq(s0, params, 0);
            if let Ok((s1, _)) = check_seq(s0, params, 0) {
                let sig = crate::symbols::SigView {
                    ret: crate::typing::type_of_token(return_type),
                    params: crate::typing::param_descs(params@),
                };
                let s2 = TcState {
                    env: crate::typing::declare_at(
                        s1.env,
                        s1.env.len() - 2,
                        name_of(identifier),
                        crate::symbols::Binding { ty: Some(sig.ret), sig: Some(sig) },
                    ),
                    in_fn: true,
                    limit: s1.limit,
                };
                lemma_frame_body(s2, *block);
                if let Ok((s3, _)) = crate::typing::check_body(s2, *block) {
                    assert forall|i: int| 0 <= i < st.env.len() - 1 implies #[trigger] s3.env.drop_last()[i]
                        == st.env[i] by {
                        assert(s3.env[i] == s2.env[i]);
                        assert(s2.env[i] == s1.env[i]);
                        assert(s1.env[i] == s0.env[i]);
                    }
                }
            }
        },
        _ => {},
    }
}

proof fn lemma_frame_body(st: TcState, block: AstNode)
    ensures
        crate::typing::check_body(st, block) matches Ok((s, _)) ==> frames(st, s),
    decreases block, 2int,
{
    match block {
        AstNode::Block { statements } => lemma_frame_block(st, statements, 0),
        _ => lemma_frame(st, block),
    }
}

proof fn lemma_frame_for(st: TcState, node: AstNode)
    requires
        node is For,
    ensures
        check_node(st, node) matches Ok((s, _)) ==> frames(st, s),
    decreases node, 0int,
{
    match node {
        AstNode::For { initializer, condition, increment, body } => {
            let s0 = push_scope(st);
            if let Some(i) = initializer {
                lemma_frame(s0, *i);
            }
            let init = match initializer {
                None => Ok((s0, Type::Void)),
                Some(i) => check_node(s0, *i),
            };
            if let Ok((s1, _)) = init {
                lemma_frame(s1, *condition);
                if let Ok((s2, _)) = check_node(s1, *condition) {
                    if let Some(a) = increment {
                        lemma_frame(s2, *a);
                    }
                    let inc = match increment {
                        None => Ok((s2, Type::Void)),
                        Some(a) => check_node(s2, *a),
                    };
                    if let Ok((s3, _)) = inc {
                        lemma_frame(s3, *body);
                        if let Ok((s4, _)) = check_node(s3, *body) {
                            assert(s4.env.drop_last() =~= st.env);
                        }
                    }
                }
            }
        },
        _ => {},
    }
}

proof fn lemma_frame_children(st: TcState, node: AstNode)
    requires
        node is If || node is While || node is BinOp || node is PadRead || node is PadWrite
            || node is PadWriteBox,
    ensures
        check_node(st, node) matches Ok((s, _)) ==> frames(st, s),
    decreases node, 0int,
{
    match node {
        AstNode::If { condition, if_true, if_false } => {
            lemma_frame(st, *condition);
            if let Ok((s1, _)) = check_node(st, *condition) {
                lemma_frame(s1, *if_true);
                if let Ok((s2, _)) = check_node(s1, *if_true) {
                    if let Some(f) = if_false {
                        lemma_frame(s2, *f);
                    }
                }
            }
        },
        AstNode::While { condition, body } => {
            lemma_frame(st, *condition);
            if let Ok((s1, _)) = check_node(st, *condition) {
                lemma_frame(s1, *body);
            }
        },
        AstNode::BinOp { left, operator, right } => {
            lemma_frame(st, *left);
            if let Ok((s1, _)) = check_node(st, *left) {
                lemma_frame(s1, *right);
            }
        },
        AstNode::PadRead { x, y } => {
            lemma_frame(st, *x);
            if let Ok((s1, _)) = check_node(st, *x) {
                lemma_frame(s1, *y);
            }
        },
        AstNode::PadWrite { loc_x, loc_y, colour } => {
            lemma_frame(st, *loc_x);
            if let Ok((s1, _)) = check_node(st, *loc_x) {
                lemma_frame(s1, *loc_y);
                if let Ok((s2, _)) = check_node(s1, *loc_y) {
                    lemma_frame(s2, *colour);
                }
            }
        },
        AstNode::PadWriteBox { loc_x, loc_y, width, height, colour } => {
            lemma_frame(st, *loc_x);
            if let Ok((s1, _)) = check_node(st, *loc_x) {
                lemma_frame(s1, *loc_y);
                if let Ok((s2, _)) = check_node(s1, *loc_y) {
                    lemma_frame(s2, *width);
                    if let Ok((s3, _)) = check_node(s2, *width) {
                        lemma_frame(s3, *height);
                        if let Ok((s4, _)) = check_node(s3, *height) {
                            lemma_frame(s4, *colour);
                        }
                    }
                }
            }
        },
        _ => {},
    }
}

proof fn lemma_frame_seq(st: TcState, stmts: Vec<AstNode>, i: int)
    ensures
        check_seq(st, stmts, i) matches Ok((s, _)) ==> frames(st, s),
    decreases stmts, 0int, stmts.len() - i,
{
    if 0 <= i < stmts.len() {
        lemma_frame(st, stmts[i]);
        if let Ok((s, _)) = check_node(st, stmts[i]) {
            lemma_frame_seq(s, stmts, i + 1);
        }
    }
}

proof fn lemma_frame_block(st: TcState, stmts: Vec<AstNode>, i: int)
    ensures
        check_block(st, stmts, i) matches Ok((s, _)) ==> frames(st, s),
    decreases stmts, 0int, stmts.len() - i,
{
    if 0 <= i < stmts.len() {
        lemma_frame(st, stmts[i]);
        if let Ok((s, _)) = check_node(st, stmts[i]) {
            lemma_frame_block(s, stmts, i + 1);
        }
    }
}

proof fn lemma_frame_args(st: TcState, args: Vec<AstNode>, i: int)
    ensures
        check_args(st, args, i) matches Ok((s, _)) ==> frames(st, s),
    decreases args, 0int, args.len() - i,
{
    if 0 <= i < args.len() {
        lemma_frame(st, args[i]);
        if let Ok((s, _)) = check_node(st, args[i]) {
            lemma_frame_args(s, args, i + 1);
        }
    }
}

} // verus!
