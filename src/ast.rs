use crate::tokens::Token;
use vstd::prelude::*;

verus! {

broadcast use vstd::std_specs::vec::axiom_vec_index_decreases;

/// The syntax tree of a PArL program. Every node owns its children.
#[derive(Debug)]
pub enum AstNode {
    Program { statements: Vec<AstNode> },
    Block { statements: Vec<AstNode> },
    VarDec { identifier: Token, var_type: Token, expression: Box<AstNode> },
    Assignment { identifier: Token, expression: Box<AstNode> },
    FunctionDecl { identifier: Token, params: Vec<AstNode>, return_type: Token, block: Box<AstNode> },
    FormalParam { identifier: Token, param_type: Token },
    FunctionCall { identifier: Token, args: Vec<AstNode> },
    If { condition: Box<AstNode>, if_true: Box<AstNode>, if_false: Option<Box<AstNode>> },
    For {
        initializer: Option<Box<AstNode>>,
        condition: Box<AstNode>,
        increment: Option<Box<AstNode>>,
        body: Box<AstNode>,
    },
    While { condition: Box<AstNode>, body: Box<AstNode> },
    Return { expression: Box<AstNode> },
    Print { expression: Box<AstNode> },
    Delay { expression: Box<AstNode> },
    PadClear { expr: Box<AstNode> },
    PadWrite { loc_x: Box<AstNode>, loc_y: Box<AstNode>, colour: Box<AstNode> },
    PadWriteBox {
        loc_x: Box<AstNode>,
        loc_y: Box<AstNode>,
        width: Box<AstNode>,
        height: Box<AstNode>,
        colour: Box<AstNode>,
    },
    PadRead { x: Box<AstNode>, y: Box<AstNode> },
    PadRandI { upper_bound: Box<AstNode> },
    PadWidth,
    PadHeight,
    Expression { casted_type: Option<Token>, expr: Box<AstNode> },
    BinOp { left: Box<AstNode>, operator: Token, right: Box<AstNode> },
    UnaryOp { operator: Token, expr: Box<AstNode> },
    Identifier { token: Token },
    IntLiteral(Token),
    FloatLiteral(Token),
    BoolLiteral(Token),
    ColourLiteral(Token),
    EndOfFile,
}

/// Every node of `nodes` from index `i` on is well formed.
pub open spec fn all_well_formed(nodes: Vec<AstNode>, i: int) -> bool
    decreases nodes, 0int, nodes.len() - i,
{
    if 0 <= i < nodes.len() {
        well_formed(nodes[i]) && all_well_formed(nodes, i + 1)
    } else {
        true
    }
}

/// Appending a well-formed node to a well-formed list keeps it well formed.
pub proof fn lemma_all_well_formed_push(a: Vec<AstNode>, b: Vec<AstNode>, i: int)
    requires
        0 <= i <= a.len(),
        b@ == a@.push(b@.last()),
        all_well_formed(a, i),
        well_formed(b@.last()),
    ensures
        all_well_formed(b, i),
    decreases a.len() - i,
{
    reveal_with_fuel(all_well_formed, 2);
    if i < a.len() {
        lemma_all_well_formed_push(a, b, i + 1);
        assert(b[i] == a[i]);
    } else {
        assert(b[i] == b@.last());
    }
}

/// The shape the grammar gives a tree: no `EndOfFile` inside it, bodies
/// of functions and loops and branches of conditionals are blocks,
/// parameters are formal parameters, a `for` header holds a declaration
/// and an assignment.
pub open spec fn well_formed(node: AstNode) -> bool
    decreases node, 1int,
{
    match node {
        AstNode::EndOfFile => false,
        AstNode::Program { statements } => all_well_formed(statements, 0),
        AstNode::Block { statements } => all_well_formed(statements, 0),
        AstNode::VarDec { expression, .. } => well_formed(*expression),
        AstNode::Assignment { expression, .. } => well_formed(*expression),
        AstNode::FunctionDecl { params, block, .. } => {
            &&& forall|i: int| 0 <= i < params.len() ==> #[trigger] params[i] is FormalParam
            &&& *block is Block
            &&& well_formed(*block)
        },
        AstNode::FunctionCall { args, .. } => all_well_formed(args, 0),
        AstNode::If { condition, if_true, if_false } => {
            &&& well_formed(*condition)
            &&& *if_true is Block
            &&& well_formed(*if_true)
            &&& match if_false {
                Some(f) => *f is Block && well_formed(*f),
                None => true,
            }
        },
        AstNode::For { initializer, condition, increment, body } => {
            &&& match initializer {
                Some(d) => *d is VarDec && well_formed(*d),
                None => true,
            }
            &&& well_formed(*condition)
            &&& match increment {
                Some(a) => *a is Assignment && well_formed(*a),
                None => true,
            }
            &&& *body is Block
            &&& well_formed(*body)
        },
        AstNode::While { condition, body } => well_formed(*condition) && *body is Block && well_formed(*body),
        AstNode::Return { expression } => well_formed(*expression),
        AstNode::Print { expression } => well_formed(*expression),
        AstNode::Delay { expression } => well_formed(*expression),
        AstNode::PadClear { expr } => well_formed(*expr),
        AstNode::PadRandI { upper_bound } => well_formed(*upper_bound),
        AstNode::PadRead { x, y } => well_formed(*x) && well_formed(*y),
        AstNode::PadWrite { loc_x, loc_y, colour } => well_formed(*loc_x) && well_formed(*loc_y) && well_formed(
            *colour,
        ),
        AstNode::PadWriteBox { loc_x, loc_y, width, height, colour } => {
            &&& well_formed(*loc_x)
            &&& well_formed(*loc_y)
            &&& well_formed(*width)
            &&& well_formed(*height)
            &&& well_formed(*colour)
        },
        AstNode::Expression { expr, .. } => well_formed(*expr),
        AstNode::BinOp { left, right, .. } => well_formed(*left) && well_formed(*right),
        AstNode::UnaryOp { expr, .. } => well_formed(*expr),
        _ => true,
    }
}

} // verus!
