use crate::ast::AstNode;
use crate::errors::ParseError;
use crate::lexer::{token_view, SpanView};
use crate::tokens::{Token, TokenKind};
use vstd::prelude::*;

verus! {

broadcast use vstd::std_specs::vec::axiom_vec_index_decreases;

/// A token as the grammar sees it: its kind and span.
pub type TokView = (TokenKind, SpanView);

/// A syntax tree with its lists as sequences.
pub enum AstView {
    Program(Seq<AstView>),
    Block(Seq<AstView>),
    VarDec(TokView, TokView, Box<AstView>),
    Assignment(TokView, Box<AstView>),
    FunctionDecl(TokView, Seq<AstView>, TokView, Box<AstView>),
    FormalParam(TokView, TokView),
    FunctionCall(TokView, Seq<AstView>),
    If(Box<AstView>, Box<AstView>, Option<Box<AstView>>),
    For(Option<Box<AstView>>, Box<AstView>, Option<Box<AstView>>, Box<AstView>),
    While(Box<AstView>, Box<AstView>),
    Return(Box<AstView>),
    Print(Box<AstView>),
    Delay(Box<AstView>),
    PadClear(Box<AstView>),
    PadWrite(Box<AstView>, Box<AstView>, Box<AstView>),
    PadWriteBox(Box<AstView>, Box<AstView>, Box<AstView>, Box<AstView>, Box<AstView>),
    PadRead(Box<AstView>, Box<AstView>),
    PadRandI(Box<AstView>),
    PadWidth,
    PadHeight,
    Expression(Option<TokView>, Box<AstView>),
    BinOp(Box<AstView>, TokView, Box<AstView>),
    UnaryOp(TokView, Box<AstView>),
    Identifier(TokView),
    IntLiteral(TokView),
    FloatLiteral(TokView),
    BoolLiteral(TokView),
    ColourLiteral(TokView),
    EndOfFile,
}

/// The view of a tree.
pub open spec fn node_view(n: AstNode) -> AstView
    decreases n, 1int,
{
    match n {
        AstNode::Program { statements } => AstView::Program(views(statements, 0)),
        AstNode::Block { statements } => AstView::Block(views(statements, 0)),
        AstNode::VarDec { identifier, var_type, expression } => AstView::VarDec(
            token_view(identifier),
            token_view(var_type),
            Box::new(node_view(*expression)),
        ),
        AstNode::Assignment { identifier, expression } => AstView::Assignment(
            token_view(identifier),
            Box::new(node_view(*expression)),
        ),
        AstNode::FunctionDecl { identifier, params, return_type, block } => AstView::FunctionDecl(
            token_view(identifier),
            views(params, 0),
            token_view(return_type),
            Box::new(node_view(*block)),
        ),
        AstNode::FormalParam { identifier, param_type } => AstView::FormalParam(
            token_view(identifier),
            token_view(param_type),
        ),
        AstNode::FunctionCall { identifier, args } => AstView::FunctionCall(token_view(identifier), views(args, 0)),
        AstNode::If { condition, if_true, if_false } => AstView::If(
            Box::new(node_view(*condition)),
            Box::new(node_view(*if_true)),
            match if_false {
                Some(f) => Some(Box::new(node_view(*f))),
                None => None,
            },
        ),
        AstNode::For { initializer, condition, increment, body } => AstView::For(
            match initializer {
                Some(i) => Some(Box::new(node_view(*i))),
                None => None,
            },
            Box::new(node_view(*condition)),
            match increment {
                Some(a) => Some(Box::new(node_view(*a))),
                None => None,
            },
            Box::new(node_view(*body)),
        ),
        AstNode::While { condition, body } => AstView::While(
            Box::new(node_view(*condition)),
            Box::new(node_view(*body)),
        ),
        AstNode::Return { expression } => AstView::Return(Box::new(node_view(*expression))),
        AstNode::Print { expression } => AstView::Print(Box::new(node_view(*expression))),
        AstNode::Delay { expression } => AstView::Delay(Box::new(node_view(*expression))),
        AstNode::PadClear { expr } => AstView::PadClear(Box::new(node_view(*expr))),
        AstNode::PadWrite { loc_x, loc_y, colour } => AstView::PadWrite(
            Box::new(node_view(*loc_x)),
            Box::new(node_view(*loc_y)),
            Box::new(node_view(*colour)),
        ),
        AstNode::PadWriteBox { loc_x, loc_y, width, height, colour } => AstView::PadWriteBox(
            Box::new(node_view(*loc_x)),
            Box::new(node_view(*loc_y)),
            Box::new(node_view(*width)),
            Box::new(node_view(*height)),
            Box::new(node_view(*colour)),
        ),
        AstNode::PadRead { x, y } => AstView::PadRead(Box::new(node_view(*x)), Box::new(node_view(*y))),
        AstNode::PadRandI { upper_bound } => AstView::PadRandI(Box::new(node_view(*upper_bound))),
        AstNode::PadWidth => AstView::PadWidth,
        AstNode::PadHeight => AstView::PadHeight,
        AstNode::Expression { casted_type, expr } => AstView::Expression(
            match casted_type {
                Some(c) => Some(token_view(c)),
                None => None,
            },
            Box::new(node_view(*expr)),
        ),
        AstNode::BinOp { left, operator, right } => AstView::BinOp(
            Box::new(node_view(*left)),
            token_view(operator),
            Box::new(node_view(*right)),
        ),
        AstNode::UnaryOp { operator, expr } => AstView::UnaryOp(token_view(operator), Box::new(node_view(*expr))),
        AstNode::Identifier { token } => AstView::Identifier(token_view(token)),
        AstNode::IntLiteral(t) => AstView::IntLiteral(token_view(t)),
        AstNode::FloatLiteral(t) => AstView::FloatLiteral(token_view(t)),
        AstNode::BoolLiteral(t) => AstView::BoolLiteral(token_view(t)),
        AstNode::ColourLiteral(t) => AstView::ColourLiteral(token_view(t)),
        AstNode::EndOfFile => AstView::EndOfFile,
    }
}

/// The views of `v[i..]`.
pub open spec fn views(v: Vec<AstNode>, i: int) -> Seq<AstView>
    decreases v, 0int, v.len() - i,
{
    if 0 <= i < v.len() {
        seq![node_view(v[i])] + views(v, i + 1)
    } else {
        Seq::empty()
    }
}

/// Appending a node appends its view.
pub proof fn lemma_views_push(a: Vec<AstNode>, b: Vec<AstNode>, i: int)
    requires
        0 <= i <= a.len(),
        b@.len() == a@.len() + 1,
        forall|k: int| 0 <= k < a.len() ==> b@[k] == a@[k],
    ensures
        views(b, i) == views(a, i).push(node_view(b@[a.len() as int])),
    decreases a.len() - i,
{
    reveal_with_fuel(views, 2);
    if i < a.len() {
        lemma_views_push(a, b, i + 1);
        assert(b[i] == a[i]);
        assert(seq![node_view(a[i])] + views(a, i + 1).push(node_view(b@[a.len() as int])) =~= (seq![
            node_view(a[i]),
        ] + views(a, i + 1)).push(node_view(b@[a.len() as int])));
    } else {
        assert(views(b, i + 1) =~= Seq::<AstView>::empty());
        assert(views(b, i) =~= seq![node_view(b@[i])]);
    }
}

/// A parse error as the grammar states it.
pub enum ParseErrView {
    UnexpectedToken(TokenKind, TokView, Seq<char>),
    UnexpectedTokenList(Seq<char>, TokView, Seq<TokenKind>),
    UnclosedBlock,
}

pub open spec fn err_view(e: ParseError) -> ParseErrView {
    match e {
        ParseError::UnexpectedToken { expected, found, source_file } => ParseErrView::UnexpectedToken(
            expected,
            token_view(found),
            source_file@,
        ),
        ParseError::UnexpectedTokenList { source_file, found, expected } => ParseErrView::UnexpectedTokenList(
            source_file@,
            token_view(found),
            expected@,
        ),
        ParseError::UnclosedBlock => ParseErrView::UnclosedBlock,
    }
}

pub type PRes = Result<(AstView, int), ParseErrView>;

pub type LRes = Result<(Seq<AstView>, int), ParseErrView>;

/// The kind of the token at `pos`; `EndOfFile` past the end or at an
/// `EndOfFile` before the last token.
pub open spec fn kind_at(t: Seq<Token>, pos: int) -> TokenKind {
    if 0 <= pos < t.len() {
        if pos + 1 == t.len() || t[pos].kind != TokenKind::EndOfFile {
            t[pos].kind
        } else {
            TokenKind::EndOfFile
        }
    } else {
        TokenKind::EndOfFile
    }
}

/// The token at `pos`; past the end, an empty `EndOfFile` at 0:0.
pub open spec fn tok_at(t: Seq<Token>, pos: int) -> TokView {
    if 0 <= pos < t.len() {
        token_view(t[pos])
    } else {
        (
            TokenKind::EndOfFile,
            SpanView { from_line: 0, from_col: 0, to_line: 0, to_col: 0, lexeme: Seq::empty() },
        )
    }
}

pub open spec fn expect(t: Seq<Token>, f: Seq<char>, pos: int, kind: TokenKind) -> Result<int, ParseErrView> {
    if kind_at(t, pos) == kind {
        Ok(pos + 1)
    } else {
        Err(ParseErrView::UnexpectedToken(kind, tok_at(t, pos), f))
    }
}

/// Binary operators of precedence `level`: 3 binds tightest, 8 loosest.
pub open spec fn level_op(level: u8, k: TokenKind) -> bool {
    if level == 3 {
        k == TokenKind::Multiply || k == TokenKind::Divide
    } else if level == 4 {
        k == TokenKind::Plus || k == TokenKind::Minus
    } else if level == 5 {
        k == TokenKind::LessThan || k == TokenKind::LessThanEqual || k == TokenKind::GreaterThan
            || k == TokenKind::GreaterThanEqual
    } else if level == 6 {
        k == TokenKind::EqEq || k == TokenKind::NotEqual
    } else if level == 7 {
        k == TokenKind::And
    } else if level == 8 {
        k == TokenKind::Or
    } else {
        false
    }
}

/// A sub-parse moved forward and stayed within the input.
pub open spec fn moved(q: int, p: int, t: Seq<Token>) -> bool {
    p < q <= t.len()
}

/// expression := logicalOr ('as' TYPE)?
pub open spec fn expr_g(t: Seq<Token>, f: Seq<char>, pos: int) -> PRes
    decreases t.len() - pos, 9int, 0int,
{
    match binary_g(t, f, pos, 8) {
        Err(e) => Err(e),
        Ok((e, p)) => if !moved(p, pos, t) {
            Err(ParseErrView::UnclosedBlock)
        } else if kind_at(t, p) == TokenKind::As {
            match expect(t, f, p + 1, TokenKind::Type) {
                Err(x) => Err(x),
                Ok(q) => Ok((AstView::Expression(Some(tok_at(t, p + 1)), Box::new(e)), q)),
            }
        } else {
            Ok((AstView::Expression(None, Box::new(e)), p))
        },
    }
}

pub open spec fn operand_g(t: Seq<Token>, f: Seq<char>, pos: int, level: u8) -> PRes
    decreases t.len() - pos, level as int, 1int,
{
    if level == 3 {
        unary_g(t, f, pos)
    } else if level > 3 {
        binary_g(t, f, pos, (level - 1) as u8)
    } else {
        Err(ParseErrView::UnclosedBlock)
    }
}

/// Left-associative chains of the operators of precedence `level`.
pub open spec fn binary_g(t: Seq<Token>, f: Seq<char>, pos: int, level: u8) -> PRes
    decreases t.len() - pos, level as int, 2int,
{
    match operand_g(t, f, pos, level) {
        Err(e) => Err(e),
        Ok((l, p)) => if !moved(p, pos, t) {
            Err(ParseErrView::UnclosedBlock)
        } else {
            binary_rest_g(t, f, l, p, level)
        },
    }
}

pub open spec fn binary_rest_g(t: Seq<Token>, f: Seq<char>, left: AstView, p: int, level: u8) -> PRes
    decreases t.len() - p, level as int, 0int,
{
    if level_op(level, kind_at(t, p)) {
        match operand_g(t, f, p + 1, level) {
            Err(e) => Err(e),
            Ok((r, q)) => if !moved(q, p, t) {
                Err(ParseErrView::UnclosedBlock)
            } else {
                binary_rest_g(t, f, AstView::BinOp(Box::new(left), tok_at(t, p), Box::new(r)), q, level)
            },
        }
    } else {
        Ok((left, p))
    }
}

/// unary := ('-' | 'not') unary | primary
pub open spec fn unary_g(t: Seq<Token>, f: Seq<char>, pos: int) -> PRes
    decreases t.len() - pos, 2int, 0int,
{
    let k = kind_at(t, pos);
    if k == TokenKind::Minus || k == TokenKind::Not {
        match unary_g(t, f, pos + 1) {
            Err(e) => Err(e),
            Ok((e, p)) => Ok((AstView::UnaryOp(tok_at(t, pos), Box::new(e)), p)),
        }
    } else {
        primary_g(t, f, pos)
    }
}

/// `n` expressions separated by commas (no comma before the first when
/// `first`).
pub open spec fn list_g(t: Seq<Token>, f: Seq<char>, p: int, n: nat, first: bool) -> LRes
    decreases t.len() - p, 10int, n,
{
    if n == 0 {
        Ok((Seq::empty(), p))
    } else {
        let start = if first {
            Ok(p)
        } else {
            expect(t, f, p, TokenKind::Comma)
        };
        match start {
            Err(e) => Err(e),
            Ok(p2) => match expr_g(t, f, p2) {
                Err(e) => Err(e),
                Ok((e, q)) => if !moved(q, p2, t) {
                    Err(ParseErrView::UnclosedBlock)
                } else {
                    match list_g(t, f, q, (n - 1) as nat, false) {
                        Err(x) => Err(x),
                        Ok((es, r)) => Ok((seq![e] + es, r)),
                    }
                },
            },
        }
    }
}

/// Call arguments from `p`: expressions separated by commas.
pub open spec fn args_g(t: Seq<Token>, f: Seq<char>, p: int) -> LRes
    decreases t.len() - p, 10int, 0int,
{
    match expr_g(t, f, p) {
        Err(e) => Err(e),
        Ok((e, q)) => if !moved(q, p, t) {
            Err(ParseErrView::UnclosedBlock)
        } else if kind_at(t, q) == TokenKind::Comma {
            match args_g(t, f, q + 1) {
                Err(x) => Err(x),
                Ok((es, r)) => Ok((seq![e] + es, r)),
            }
        } else {
            Ok((seq![e], q))
        },
    }
}

pub open spec fn primary_kinds() -> Seq<TokenKind> {
    seq![
        TokenKind::IntLiteral,
        TokenKind::FloatLiteral,
        TokenKind::BoolLiteral,
        TokenKind::ColourLiteral,
        TokenKind::Identifier,
        TokenKind::LParen,
        TokenKind::PadWidth,
        TokenKind::PadHeight,
        TokenKind::PadRead,
        TokenKind::PadRandI,
    ]
}

/// primary := literal | IDENT | funCall | '(' expression ')' | padExpr
pub open spec fn primary_g(t: Seq<Token>, f: Seq<char>, pos: int) -> PRes
    decreases t.len() - pos, 1int, 0int,
{
    let k = kind_at(t, pos);
    if k == TokenKind::IntLiteral {
        Ok((AstView::IntLiteral(tok_at(t, pos)), pos + 1))
    } else if k == TokenKind::FloatLiteral {
        Ok((AstView::FloatLiteral(tok_at(t, pos)), pos + 1))
    } else if k == TokenKind::BoolLiteral {
        Ok((AstView::BoolLiteral(tok_at(t, pos)), pos + 1))
    } else if k == TokenKind::ColourLiteral {
        Ok((AstView::ColourLiteral(tok_at(t, pos)), pos + 1))
    } else if k == TokenKind::PadWidth {
        Ok((AstView::PadWidth, pos + 1))
    } else if k == TokenKind::PadHeight {
        Ok((AstView::PadHeight, pos + 1))
    } else if k == TokenKind::PadRandI {
        match expr_g(t, f, pos + 1) {
            Err(e) => Err(e),
            Ok((e, p)) => Ok((AstView::PadRandI(Box::new(e)), p)),
        }
    } else if k == TokenKind::PadRead {
        match list_g(t, f, pos + 1, 2, true) {
            Err(e) => Err(e),
            Ok((es, p)) => Ok((AstView::PadRead(Box::new(es[0]), Box::new(es[1])), p)),
        }
    } else if k == TokenKind::LParen {
        match expr_g(t, f, pos + 1) {
            Err(e) => Err(e),
            Ok((e, p)) => match expect(t, f, p, TokenKind::RParen) {
                Err(x) => Err(x),
                Ok(q) => Ok((e, q)),
            },
        }
    } else if k == TokenKind::Identifier {
        if kind_at(t, pos + 1) != TokenKind::LParen {
            Ok((AstView::Identifier(tok_at(t, pos)), pos + 1))
        } else {
            let args: LRes = if kind_at(t, pos + 2) != TokenKind::RParen {
                args_g(t, f, pos + 2)
            } else {
                Ok((Seq::empty(), pos + 2))
            };
            match args {
                Err(e) => Err(e),
                Ok((es, p)) => match expect(t, f, p, TokenKind::RParen) {
                    Err(x) => Err(x),
                    Ok(q) => Ok((AstView::FunctionCall(tok_at(t, pos), es), q)),
                },
            }
        }
    } else {
        Err(ParseErrView::UnexpectedTokenList(f, tok_at(t, pos), primary_kinds()))
    }
}

/// varDec := 'let' IDENT ':' TYPE '=' expression
pub open spec fn var_dec_g(t: Seq<Token>, f: Seq<char>, pos: int) -> PRes
    decreases t.len() - pos, 10int, 0int,
{
    match expect(t, f, pos, TokenKind::Let) {
        Err(e) => Err(e),
        Ok(p1) => match expect(t, f, p1, TokenKind::Identifier) {
            Err(e) => Err(e),
            Ok(p2) => match expect(t, f, p2, TokenKind::Colon) {
                Err(e) => Err(e),
                Ok(p3) => match expect(t, f, p3, TokenKind::Type) {
                    Err(e) => Err(e),
                    Ok(p4) => match expect(t, f, p4, TokenKind::Equals) {
                        Err(e) => Err(e),
                        Ok(p5) => match expr_g(t, f, p5) {
                            Err(e) => Err(e),
                            Ok((e, q)) => Ok(
                                (AstView::VarDec(tok_at(t, pos + 1), tok_at(t, pos + 3), Box::new(e)), q),
                            ),
                        },
                    },
                },
            },
        },
    }
}

/// assignment := IDENT '=' expression
pub open spec fn assignment_g(t: Seq<Token>, f: Seq<char>, pos: int) -> PRes
    decreases t.len() - pos, 10int, 0int,
{
    match expect(t, f, pos, TokenKind::Identifier) {
        Err(e) => Err(e),
        Ok(p1) => match expect(t, f, p1, TokenKind::Equals) {
            Err(e) => Err(e),
            Ok(p2) => match expr_g(t, f, p2) {
                Err(e) => Err(e),
                Ok((e, q)) => Ok((AstView::Assignment(tok_at(t, pos), Box::new(e)), q)),
            },
        },
    }
}

/// block := '{' statement* '}'
pub open spec fn block_g(t: Seq<Token>, f: Seq<char>, pos: int) -> PRes
    decreases t.len() - pos, 11int, 0int,
{
    match expect(t, f, pos, TokenKind::LBrace) {
        Err(e) => Err(e),
        Ok(p) => match block_items_g(t, f, p) {
            Err(e) => Err(e),
            Ok((ss, q)) => Ok((AstView::Block(ss), q)),
        },
    }
}

/// The statements of a block from `p` up to and past its `}`.
pub open spec fn block_items_g(t: Seq<Token>, f: Seq<char>, p: int) -> LRes
    decreases t.len() - p, 14int, 0int,
{
    if kind_at(t, p) == TokenKind::RBrace {
        Ok((Seq::empty(), p + 1))
    } else if kind_at(t, p) == TokenKind::EndOfFile {
        Err(ParseErrView::UnclosedBlock)
    } else {
        match statement_g(t, f, p) {
            Err(e) => Err(e),
            Ok((st, q)) => if !moved(q, p, t) {
                Err(ParseErrView::UnclosedBlock)
            } else {
                match block_items_g(t, f, q) {
                    Err(e) => Err(e),
                    Ok((ss, r)) => Ok((seq![st] + ss, r)),
                }
            },
        }
    }
}

pub open spec fn statement_kinds() -> Seq<TokenKind> {
    seq![
        TokenKind::Let,
        TokenKind::Identifier,
        TokenKind::Return,
        TokenKind::PadPrint,
        TokenKind::PadDelay,
        TokenKind::PadClear,
        TokenKind::PadWrite,
        TokenKind::PadWriteBox,
        TokenKind::If,
        TokenKind::For,
        TokenKind::While,
        TokenKind::Fun,
        TokenKind::LBrace,
    ]
}

/// A statement that ends with ';'.
pub open spec fn simple_g(t: Seq<Token>, f: Seq<char>, pos: int) -> PRes
    decreases t.len() - pos, 11int, 0int,
{
    let k = kind_at(t, pos);
    let inner: PRes = if k == TokenKind::Let {
        var_dec_g(t, f, pos)
    } else if k == TokenKind::Identifier {
        assignment_g(t, f, pos)
    } else if k == TokenKind::Return || k == TokenKind::PadPrint || k == TokenKind::PadDelay || k
        == TokenKind::PadClear {
        match expr_g(t, f, pos + 1) {
            Err(e) => Err(e),
            Ok((e, p)) => Ok(
                (
                    if k == TokenKind::Return {
                        AstView::Return(Box::new(e))
                    } else if k == TokenKind::PadPrint {
                        AstView::Print(Box::new(e))
                    } else if k == TokenKind::PadDelay {
                        AstView::Delay(Box::new(e))
                    } else {
                        AstView::PadClear(Box::new(e))
                    },
                    p,
                ),
            ),
        }
    } else if k == TokenKind::PadWrite {
        match list_g(t, f, pos + 1, 3, true) {
            Err(e) => Err(e),
            Ok((es, p)) => Ok((AstView::PadWrite(Box::new(es[0]), Box::new(es[1]), Box::new(es[2])), p)),
        }
    } else if k == TokenKind::PadWriteBox {
        match list_g(t, f, pos + 1, 5, true) {
            Err(e) => Err(e),
            Ok((es, p)) => Ok(
                (
                    AstView::PadWriteBox(
                        Box::new(es[0]),
                        Box::new(es[1]),
                        Box::new(es[2]),
                        Box::new(es[3]),
                        Box::new(es[4]),
                    ),
                    p,
                ),
            ),
        }
    } else {
        Err(ParseErrView::UnexpectedTokenList(f, tok_at(t, pos), statement_kinds()))
    };
    match inner {
        Err(e) => Err(e),
        Ok((n, p)) => match expect(t, f, p, TokenKind::Semicolon) {
            Err(e) => Err(e),
            Ok(q) => Ok((n, q)),
        },
    }
}

/// '(' expression ')'
pub open spec fn condition_g(t: Seq<Token>, f: Seq<char>, pos: int) -> PRes
    decreases t.len() - pos, 10int, 0int,
{
    match expect(t, f, pos, TokenKind::LParen) {
        Err(e) => Err(e),
        Ok(p) => match expr_g(t, f, p) {
            Err(e) => Err(e),
            Ok((e, q)) => match expect(t, f, q, TokenKind::RParen) {
                Err(x) => Err(x),
                Ok(r) => Ok((e, r)),
            },
        },
    }
}

/// ifStmt := 'if' '(' expression ')' block ('else' block)?
pub open spec fn if_g(t: Seq<Token>, f: Seq<char>, pos: int) -> PRes
    decreases t.len() - pos, 12int, 0int,
{
    match expect(t, f, pos, TokenKind::If) {
        Err(e) => Err(e),
        Ok(p1) => match condition_g(t, f, p1) {
            Err(e) => Err(e),
            Ok((c, p2)) => if !moved(p2, p1, t) {
                Err(ParseErrView::UnclosedBlock)
            } else {
                match block_g(t, f, p2) {
                    Err(e) => Err(e),
                    Ok((b, p3)) => if !moved(p3, p2, t) {
                        Err(ParseErrView::UnclosedBlock)
                    } else if kind_at(t, p3) == TokenKind::Else {
                        match block_g(t, f, p3 + 1) {
                            Err(e) => Err(e),
                            Ok((e, q)) => Ok((AstView::If(Box::new(c), Box::new(b), Some(Box::new(e))), q)),
                        }
                    } else {
                        Ok((AstView::If(Box::new(c), Box::new(b), None), p3))
                    },
                }
            },
        },
    }
}

/// forStmt := 'for' '(' varDec? ';' expression ';' assignment? ')' block
pub open spec fn for_g(t: Seq<Token>, f: Seq<char>, pos: int) -> PRes
    decreases t.len() - pos, 12int, 0int,
{
    match expect(t, f, pos, TokenKind::For) {
        Err(e) => Err(e),
        Ok(p1) => match expect(t, f, p1, TokenKind::LParen) {
            Err(e) => Err(e),
            Ok(p2) => {
                let init: Result<(Option<Box<AstView>>, int), ParseErrView> = if kind_at(t, p2)
                    != TokenKind::Semicolon {
                    match var_dec_g(t, f, p2) {
                        Err(e) => Err(e),
                        Ok((d, q)) => Ok((Some(Box::new(d)), q)),
                    }
                } else {
                    Ok((None, p2))
                };
                match init {
                    Err(e) => Err(e),
                    Ok((i, p3)) => if !(p2 <= p3 <= t.len()) {
                        Err(ParseErrView::UnclosedBlock)
                    } else {
                        match expect(t, f, p3, TokenKind::Semicolon) {
                            Err(e) => Err(e),
                            Ok(p4) => match expr_g(t, f, p4) {
                                Err(e) => Err(e),
                                Ok((c, p5)) => if !moved(p5, p4, t) {
                                    Err(ParseErrView::UnclosedBlock)
                                } else {
                                    match expect(t, f, p5, TokenKind::Semicolon) {
                                        Err(e) => Err(e),
                                        Ok(p6) => {
                                            let inc: Result<(Option<Box<AstView>>, int), ParseErrView> =
                                                if kind_at(t, p6) != TokenKind::RParen {
                                                match assignment_g(t, f, p6) {
                                                    Err(e) => Err(e),
                                                    Ok((a, q)) => Ok((Some(Box::new(a)), q)),
                                                }
                                            } else {
                                                Ok((None, p6))
                                            };
                                            match inc {
                                                Err(e) => Err(e),
                                                Ok((a, p7)) => if !(p6 <= p7 <= t.len()) {
                                                    Err(ParseErrView::UnclosedBlock)
                                                } else {
                                                    match expect(t, f, p7, TokenKind::RParen) {
                                                        Err(e) => Err(e),
                                                        Ok(p8) => match block_g(t, f, p8) {
                                                            Err(e) => Err(e),
                                                            Ok((b, q)) => Ok(
                                                                (AstView::For(i, Box::new(c), a, Box::new(b)), q),
                                                            ),
                                                        },
                                                    }
                                                },
                                            }
                                        },
                                    }
                                },
                            },
                        }
                    },
                }
            },
        },
    }
}

/// formalParams := formalParam (',' formalParam)*, from `p`.
pub open spec fn params_g(t: Seq<Token>, f: Seq<char>, p: int) -> LRes
    decreases t.len() - p,
{
    match expect(t, f, p, TokenKind::Identifier) {
        Err(e) => Err(e),
        Ok(q1) => match expect(t, f, q1, TokenKind::Colon) {
            Err(e) => Err(e),
            Ok(q2) => match expect(t, f, q2, TokenKind::Type) {
                Err(e) => Err(e),
                Ok(q3) => {
                    let fp = AstView::FormalParam(tok_at(t, p), tok_at(t, p + 2));
                    if kind_at(t, q3) == TokenKind::Comma {
                        match params_g(t, f, q3 + 1) {
                            Err(e) => Err(e),
                            Ok((ps, r)) => Ok((seq![fp] + ps, r)),
                        }
                    } else {
                        Ok((seq![fp], q3))
                    }
                },
            },
        },
    }
}

/// funDecl := 'fun' IDENT '(' formalParams? ')' '->' TYPE block
pub open spec fn function_g(t: Seq<Token>, f: Seq<char>, pos: int) -> PRes
    decreases t.len() - pos, 12int, 0int,
{
    match expect(t, f, pos, TokenKind::Fun) {
        Err(e) => Err(e),
        Ok(p1) => match expect(t, f, p1, TokenKind::Identifier) {
            Err(e) => Err(e),
            Ok(p2) => match expect(t, f, p2, TokenKind::LParen) {
                Err(e) => Err(e),
                Ok(p3) => {
                    let ps: LRes = if kind_at(t, p3) != TokenKind::RParen {
                        params_g(t, f, p3)
                    } else {
                        Ok((Seq::empty(), p3))
                    };
                    match ps {
                        Err(e) => Err(e),
                        Ok((params, p4)) => match expect(t, f, p4, TokenKind::RParen) {
                            Err(e) => Err(e),
                            Ok(p5) => match expect(t, f, p5, TokenKind::Arrow) {
                                Err(e) => Err(e),
                                Ok(p6) => match expect(t, f, p6, TokenKind::Type) {
                                    Err(e) => Err(e),
                                    Ok(p7) => if !(pos < p7 <= t.len()) {
                                        Err(ParseErrView::UnclosedBlock)
                                    } else {
                                        match block_g(t, f, p7) {
                                            Err(e) => Err(e),
                                            Ok((b, q)) => Ok(
                                                (
                                                    AstView::FunctionDecl(
                                                        tok_at(t, pos + 1),
                                                        params,
                                                        tok_at(t, p7 - 1),
                                                        Box::new(b),
                                                    ),
                                                    q,
                                                ),
                                            ),
                                        }
                                    },
                                },
                            },
                        },
                    }
                },
            },
        },
    }
}

/// statement := varDec ';' | assignment ';' | padStmt ';' | return ';'
///            | ifStmt | forStmt | whileStmt | funDecl | block
pub open spec fn statement_g(t: Seq<Token>, f: Seq<char>, pos: int) -> PRes
    decreases t.len() - pos, 13int, 0int,
{
    let k = kind_at(t, pos);
    if k == TokenKind::If {
        if_g(t, f, pos)
    } else if k == TokenKind::For {
        for_g(t, f, pos)
    } else if k == TokenKind::While {
        match expect(t, f, pos, TokenKind::While) {
            Err(e) => Err(e),
            Ok(p1) => match condition_g(t, f, p1) {
                Err(e) => Err(e),
                Ok((c, p2)) => if !moved(p2, p1, t) {
                    Err(ParseErrView::UnclosedBlock)
                } else {
                    match block_g(t, f, p2) {
                        Err(e) => Err(e),
                        Ok((b, q)) => Ok((AstView::While(Box::new(c), Box::new(b)), q)),
                    }
                },
            },
        }
    } else if k == TokenKind::Fun {
        function_g(t, f, pos)
    } else if k == TokenKind::LBrace {
        block_g(t, f, pos)
    } else {
        simple_g(t, f, pos)
    }
}

/// The top-level statements from `p` to the end of the input.
pub open spec fn program_items_g(t: Seq<Token>, f: Seq<char>, p: int) -> LRes
    decreases t.len() - p,
{
    if kind_at(t, p) == TokenKind::EndOfFile {
        Ok((Seq::empty(), p))
    } else {
        match statement_g(t, f, p) {
            Err(e) => Err(e),
            Ok((st, q)) => if !moved(q, p, t) {
                Err(ParseErrView::UnclosedBlock)
            } else {
                match program_items_g(t, f, q) {
                    Err(e) => Err(e),
                    Ok((ss, r)) => Ok((seq![st] + ss, r)),
                }
            },
        }
    }
}

/// The grammar of a program: its statements in source order, or the
/// first place where the tokens leave the grammar.
pub open spec fn parse_spec(t: Seq<Token>, f: Seq<char>) -> Result<AstView, ParseErrView> {
    match program_items_g(t, f, 0) {
        Err(e) => Err(e),
        Ok((ss, _)) => Ok(AstView::Program(ss)),
    }
}

} // verus!
