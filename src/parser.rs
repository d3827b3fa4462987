use crate::ast::{all_well_formed, lemma_all_well_formed_push, well_formed, AstNode};
use crate::errors::ParseError;
use crate::grammar;
use crate::grammar::{
    args_g, assignment_g, binary_g, binary_rest_g, block_g, block_items_g, condition_g, err_view, expr_g, for_g,
    function_g, if_g, lemma_views_push, level_op, list_g, node_view, operand_g, params_g, parse_spec, primary_g,
    program_items_g, simple_g, statement_g, tok_at, unary_g, var_dec_g, views, AstView, LRes, PRes, ParseErrView,
};
use crate::lexer::token_view;
use crate::tokens::{TextSpan, Token, TokenKind};
use vstd::prelude::*;

verus! {

broadcast use vstd::std_specs::vec::axiom_vec_index_decreases;

/// A parse of a grammar symbol: its node and the position after it.
pub type Parsed = Result<(AstNode, usize), ParseError>;

/// The parse consumed at least one token, stayed within the input and
/// built a well-formed tree.
pub open spec fn advances(r: Parsed, pos: usize, len: nat) -> bool {
    r matches Ok((n, p)) ==> pos < p <= len && well_formed(n)
}

/// The parse agrees with the grammar: the same tree and end, or the same
/// error.
pub open spec fn parsed_as(r: Parsed, g: PRes) -> bool {
    match r {
        Ok((n, p)) => g == Ok::<(AstView, int), ParseErrView>((node_view(n), p as int)),
        Err(e) => g == Err::<(AstView, int), ParseErrView>(err_view(e)),
    }
}

/// `acc` put before the nodes of a successful list parse.
pub open spec fn prepend_views(acc: Seq<AstView>, r: LRes) -> LRes {
    match r {
        Ok((es, q)) => Ok((acc + es, q)),
        Err(e) => Err(e),
    }
}

pub open spec fn cons_view(e: AstView, r: LRes) -> LRes {
    match r {
        Ok((es, q)) => Ok((seq![e] + es, q)),
        Err(x) => Err(x),
    }
}

proof fn lemma_prepend_step(acc: Seq<AstView>, e: AstView, r: LRes)
    ensures
        prepend_views(acc, cons_view(e, r)) == prepend_views(acc.push(e), r),
{
    if let Ok((es, q)) = r {
        assert(acc + (seq![e] + es) =~= acc.push(e) + es);
    }
}

/// The kind of the token at `pos`; past the end, `EndOfFile`.
fn kind_at(t: &Vec<Token>, pos: usize) -> (r: TokenKind)
    ensures
        r == grammar::kind_at(t@, pos as int),
        r != TokenKind::EndOfFile ==> pos < t.len(),
{
    if pos < t.len() {
        let k = t[pos].kind;
        if pos + 1 == t.len() || k != TokenKind::EndOfFile {
            k
        } else {
            TokenKind::EndOfFile
        }
    } else {
        TokenKind::EndOfFile
    }
}

/// A copy of the token at `pos`; past the end, an empty `EndOfFile` token.
fn token_at(t: &Vec<Token>, pos: usize) -> (r: Token)
    ensures
        token_view(r) == tok_at(t@, pos as int),
{
    if pos < t.len() {
        t[pos].duplicate()
    } else {
        let r = Token {
            kind: TokenKind::EndOfFile,
            span: TextSpan { from_line: 0, from_col: 0, to_line: 0, to_col: 0, lexeme: String::new() },
        };
        assert(token_view(r) =~= tok_at(t@, pos as int));
        r
    }
}

fn unexpected(t: &Vec<Token>, file: &String, pos: usize, expected: TokenKind) -> (r: ParseError)
    ensures
        err_view(r) == ParseErrView::UnexpectedToken(expected, tok_at(t@, pos as int), file@),
{
    ParseError::UnexpectedToken { expected, found: token_at(t, pos), source_file: file.clone() }
}

fn unexpected_any(t: &Vec<Token>, file: &String, pos: usize, expected: Vec<TokenKind>) -> (r: ParseError)
    ensures
        err_view(r) == ParseErrView::UnexpectedTokenList(file@, tok_at(t@, pos as int), expected@),
{
    ParseError::UnexpectedTokenList { source_file: file.clone(), found: token_at(t, pos), expected }
}

/// The position after a token of kind `kind` at `pos`.
fn expect(t: &Vec<Token>, file: &String, pos: usize, kind: TokenKind) -> (r: Result<usize, ParseError>)
    requires
        kind != TokenKind::EndOfFile,
    ensures
        r matches Ok(p) ==> p == pos + 1 && p <= t.len(),
        match grammar::expect(t@, file@, pos as int, kind) {
            Ok(p) => r matches Ok(rp) && rp == p,
            Err(e) => r matches Err(x) && err_view(x) == e,
        },
{
    if kind_at(t, pos) == kind {
        Ok(pos + 1)
    } else {
        Err(unexpected(t, file, pos, kind))
    }
}

/// Whether `kind` is a binary operator of precedence `level` (3 binds
/// tightest, 8 loosest).
fn is_level_op(level: u8, kind: TokenKind) -> (r: bool)
    ensures
        r == level_op(level, kind),
        r ==> kind != TokenKind::EndOfFile,
{
    match level {
        3 => kind == TokenKind::Multiply || kind == TokenKind::Divide,
        4 => kind == TokenKind::Plus || kind == TokenKind::Minus,
        5 => kind == TokenKind::LessThan || kind == TokenKind::LessThanEqual || kind == TokenKind::GreaterThan
            || kind == TokenKind::GreaterThanEqual,
        6 => kind == TokenKind::EqEq || kind == TokenKind::NotEqual,
        7 => kind == TokenKind::And,
        8 => kind == TokenKind::Or,
        _ => false,
    }
}

/// expression := logicalOr ('as' TYPE)?
fn parse_expression(t: &Vec<Token>, file: &String, pos: usize) -> (r: Parsed)
    requires
        pos <= t.len(),
    ensures
        advances(r, pos, t.len() as nat),
        parsed_as(r, expr_g(t@, file@, pos as int)),
    decreases t.len() - pos, 9nat,
{
    let (e, p) = parse_binary(t, file, pos, 8)?;
    if kind_at(t, p) == TokenKind::As {
        let q = expect(t, file, p + 1, TokenKind::Type)?;
        Ok((AstNode::Expression { casted_type: Some(token_at(t, p + 1)), expr: Box::new(e) }, q))
    } else {
        Ok((AstNode::Expression { casted_type: None, expr: Box::new(e) }, p))
    }
}

/// The operand of a binary operator of precedence `level`.
fn parse_operand(t: &Vec<Token>, file: &String, pos: usize, level: u8) -> (r: Parsed)
    requires
        pos <= t.len(),
        3 <= level <= 8,
    ensures
        advances(r, pos, t.len() as nat),
        parsed_as(r, operand_g(t@, file@, pos as int, level)),
    decreases t.len() - pos, level as nat, 1nat,
{
    if level == 3 {
        parse_unary(t, file, pos)
    } else {
        parse_binary(t, file, pos, level - 1)
    }
}

/// Left-associative chains of the operators of precedence `level`.
fn parse_binary(t: &Vec<Token>, file: &String, pos: usize, level: u8) -> (r: Parsed)
    requires
        pos <= t.len(),
        3 <= level <= 8,
    ensures
        advances(r, pos, t.len() as nat),
        parsed_as(r, binary_g(t@, file@, pos as int, level)),
    decreases t.len() - pos, level as nat, 2nat,
{
    let (mut left, mut p) = parse_operand(t, file, pos, level)?;
    while is_level_op(level, kind_at(t, p))
        invariant
            pos < p <= t.len(),
            3 <= level <= 8,
            well_formed(left),
            binary_g(t@, file@, pos as int, level) == binary_rest_g(t@, file@, node_view(left), p as int, level),
        decreases t.len() - p,
    {
        let operator = token_at(t, p);
        let (right, q) = parse_operand(t, file, p + 1, level)?;
        left = AstNode::BinOp { left: Box::new(left), operator, right: Box::new(right) };
        p = q;
    }
    Ok((left, p))
}

/// unary := ('-' | 'not') unary | primary
fn parse_unary(t: &Vec<Token>, file: &String, pos: usize) -> (r: Parsed)
    requires
        pos <= t.len(),
    ensures
        advances(r, pos, t.len() as nat),
        parsed_as(r, unary_g(t@, file@, pos as int)),
    decreases t.len() - pos, 2nat,
{
    let k = kind_at(t, pos);
    if k == TokenKind::Minus || k == TokenKind::Not {
        let operator = token_at(t, pos);
        let (e, p) = parse_unary(t, file, pos + 1)?;
        Ok((AstNode::UnaryOp { operator, expr: Box::new(e) }, p))
    } else {
        parse_primary(t, file, pos)
    }
}

/// Expressions separated by commas, `count` of them.
fn parse_list(t: &Vec<Token>, file: &String, pos: usize, count: usize) -> (r: Result<(Vec<AstNode>, usize), ParseError>)
    requires
        pos <= t.len(),
        count > 0,
    ensures
        r matches Ok((v, p)) ==> pos < p <= t.len() && v.len() == count && all_well_formed(v, 0),
        match list_g(t@, file@, pos as int, count as nat, true) {
            Ok((es, q)) => r matches Ok((v, p)) && views(v, 0) == es && p == q,
            Err(e) => r matches Err(x) && err_view(x) == e,
        },
    decreases t.len() - pos, 10nat,
{
    let mut items: Vec<AstNode> = Vec::new();
    let mut p = pos;
    assert(views(items, 0) =~= Seq::<AstView>::empty());
    assert(Seq::<AstView>::empty() + Seq::<AstView>::empty() =~= Seq::<AstView>::empty());
    while items.len() < count
        invariant
            pos <= p <= t.len(),
            items.len() <= count,
            items.len() > 0 ==> pos < p,
            all_well_formed(items, 0),
            list_g(t@, file@, pos as int, count as nat, true) == prepend_views(
                views(items, 0),
                list_g(t@, file@, p as int, (count - items.len()) as nat, items.len() == 0),
            ),
        decreases count - items.len(),
    {
        if items.len() > 0 {
            p = expect(t, file, p, TokenKind::Comma)?;
        }
        let (e, q) = parse_expression(t, file, p)?;
        let ghost before = items;
        items.push(e);
        proof {
            lemma_all_well_formed_push(before, items, 0);
            lemma_views_push(before, items, 0);
            lemma_prepend_step(
                views(before, 0),
                node_view(e),
                list_g(t@, file@, q as int, (count - items.len()) as nat, false),
            );
        }
        p = q;
    }
    assert(views(items, 0) + Seq::<AstView>::empty() =~= views(items, 0));
    Ok((items, p))
}

/// primary := literal | IDENT | funCall | '(' expression ')' | padExpr
fn parse_primary(t: &Vec<Token>, file: &String, pos: usize) -> (r: Parsed)
    requires
        pos <= t.len(),
    ensures
        advances(r, pos, t.len() as nat),
        parsed_as(r, primary_g(t@, file@, pos as int)),
    decreases t.len() - pos, 1nat,
{
    let k = kind_at(t, pos);
    if k == TokenKind::IntLiteral {
        Ok((AstNode::IntLiteral(token_at(t, pos)), pos + 1))
    } else if k == TokenKind::FloatLiteral {
        Ok((AstNode::FloatLiteral(token_at(t, pos)), pos + 1))
    } else if k == TokenKind::BoolLiteral {
        Ok((AstNode::BoolLiteral(token_at(t, pos)), pos + 1))
    } else if k == TokenKind::ColourLiteral {
        Ok((AstNode::ColourLiteral(token_at(t, pos)), pos + 1))
    } else if k == TokenKind::PadWidth {
        Ok((AstNode::PadWidth, pos + 1))
    } else if k == TokenKind::PadHeight {
        Ok((AstNode::PadHeight, pos + 1))
    } else if k == TokenKind::PadRandI {
        let (e, p) = parse_expression(t, file, pos + 1)?;
        Ok((AstNode::PadRandI { upper_bound: Box::new(e) }, p))
    } else if k == TokenKind::PadRead {
        let (mut v, p) = parse_list(t, file, pos + 1, 2)?;
        proof {
            reveal_with_fuel(all_well_formed, 6);
            reveal_with_fuel(views, 6);
        }
        assert(well_formed(v[0]) && well_formed(v[1]));
        let y = v.pop().unwrap();
        let x = v.pop().unwrap();
        assert(well_formed(x) && well_formed(y));
        Ok((AstNode::PadRead { x: Box::new(x), y: Box::new(y) }, p))
    } else if k == TokenKind::LParen {
        let (e, p) = parse_expression(t, file, pos + 1)?;
        let q = expect(t, file, p, TokenKind::RParen)?;
        Ok((e, q))
    } else if k == TokenKind::Identifier {
        let identifier = token_at(t, pos);
        if kind_at(t, pos + 1) != TokenKind::LParen {
            return Ok((AstNode::Identifier { token: identifier }, pos + 1));
        }
        let mut args: Vec<AstNode> = Vec::new();
        let mut p = pos + 2;
        assert(views(args, 0) =~= Seq::<AstView>::empty());
        if kind_at(t, p) != TokenKind::RParen {
            let mut done = false;
            assert(Seq::<AstView>::empty() + Seq::<AstView>::empty() =~= Seq::<AstView>::empty());
            while !done
                invariant
                    pos < p <= t.len(),
                    all_well_formed(args, 0),
                    grammar::kind_at(t@, pos as int) == TokenKind::Identifier,
                    grammar::kind_at(t@, pos + 1) == TokenKind::LParen,
                    grammar::kind_at(t@, pos + 2) != TokenKind::RParen,
                    !done ==> args_g(t@, file@, pos + 2) == prepend_views(views(args, 0), args_g(t@, file@, p as int)),
                    done ==> args_g(t@, file@, pos + 2) == Ok::<(Seq<AstView>, int), ParseErrView>(
                        (views(args, 0), p as int),
                    ),
                decreases t.len() - p,
            {
                let (e, q) = match parse_expression(t, file, p) {
                    Ok(eq) => eq,
                    Err(x) => {
                        assert(args_g(t@, file@, p as int) == Err::<(Seq<AstView>, int), ParseErrView>(err_view(x)));
                        assert(args_g(t@, file@, pos + 2) == Err::<(Seq<AstView>, int), ParseErrView>(err_view(x)));
                        return Err(x);
                    },
                };
                let ghost before = args;
                args.push(e);
                proof {
                    lemma_all_well_formed_push(before, args, 0);
                    lemma_views_push(before, args, 0);
                }
                p = q;
                if kind_at(t, p) == TokenKind::Comma {
                    proof {
                        lemma_prepend_step(views(before, 0), node_view(e), args_g(t@, file@, q + 1));
                    }
                    p = p + 1;
                } else {
                    assert(views(before, 0) + seq![node_view(e)] =~= views(args, 0));
                    done = true;
                }
            }
        }
        let q = expect(t, file, p, TokenKind::RParen)?;
        assert(all_well_formed(args, 0));
        Ok((AstNode::FunctionCall { identifier, args }, q))
    } else {
        Err(
            unexpected_any(
                t,
                file,
                pos,
                vec![
                    TokenKind::IntLiteral,
                    TokenKind::FloatLiteral,
                    TokenKind::BoolLiteral,
                    TokenKind::ColourLiteral,
                    TokenKind::Identifier,
                    TokenKind::LParen,
                    TokenKind::PadWidth,
                    TokenKind::PadHeight,
                    TokenKind::PadRead,
                    TokenKind::PadRandI,
                ],
            ),
        )
    }
}

/// varDec := 'let' IDENT ':' TYPE '=' expression
fn parse_var_dec(t: &Vec<Token>, file: &String, pos: usize) -> (r: Parsed)
    requires
        pos <= t.len(),
    ensures
        advances(r, pos, t.len() as nat),
        parsed_as(r, var_dec_g(t@, file@, pos as int)),
        r matches Ok((n, _)) ==> n is VarDec,
    decreases t.len() - pos, 10nat,
{
    let p = expect(t, file, pos, TokenKind::Let)?;
    let p = expect(t, file, p, TokenKind::Identifier)?;
    let p = expect(t, file, p, TokenKind::Colon)?;
    let p = expect(t, file, p, TokenKind::Type)?;
    let p = expect(t, file, p, TokenKind::Equals)?;
    let (e, q) = parse_expression(t, file, p)?;
    Ok(
        (
            AstNode::VarDec { identifier: token_at(t, pos + 1), var_type: token_at(t, pos + 3), expression: Box::new(e) },
            q,
        ),
    )
}

/// assignment := IDENT '=' expression
fn parse_assignment(t: &Vec<Token>, file: &String, pos: usize) -> (r: Parsed)
    requires
        pos <= t.len(),
    ensures
        advances(r, pos, t.len() as nat),
        parsed_as(r, assignment_g(t@, file@, pos as int)),
        r matches Ok((n, _)) ==> n is Assignment,
    decreases t.len() - pos, 10nat,
{
    let p = expect(t, file, pos, TokenKind::Identifier)?;
    let p = expect(t, file, p, TokenKind::Equals)?;
    let (e, q) = parse_expression(t, file, p)?;
    Ok((AstNode::Assignment { identifier: token_at(t, pos), expression: Box::new(e) }, q))
}

/// block := '{' statement* '}'
fn parse_block(t: &Vec<Token>, file: &String, pos: usize) -> (r: Parsed)
    requires
        pos <= t.len(),
    ensures
        advances(r, pos, t.len() as nat),
        parsed_as(r, block_g(t@, file@, pos as int)),
        r matches Ok((n, _)) ==> n is Block,
    decreases t.len() - pos, 11nat,
{
    let mut p = expect(t, file, pos, TokenKind::LBrace)?;
    let mut statements: Vec<AstNode> = Vec::new();
    assert(views(statements, 0) =~= Seq::<AstView>::empty());
    assert(Seq::<AstView>::empty() + Seq::<AstView>::empty() =~= Seq::<AstView>::empty());
    while kind_at(t, p) != TokenKind::RBrace
        invariant
            pos < p <= t.len(),
            all_well_formed(statements, 0),
            grammar::kind_at(t@, pos as int) == TokenKind::LBrace,
            block_items_g(t@, file@, pos + 1) == prepend_views(views(statements, 0), block_items_g(t@, file@, p as int)),
        decreases t.len() - p,
    {
        if kind_at(t, p) == TokenKind::EndOfFile {
            return Err(ParseError::UnclosedBlock);
        }
        let (s, q) = match parse_statement(t, file, p) {
            Ok(sq) => sq,
            Err(x) => {
                assert(block_items_g(t@, file@, p as int) == Err::<(Seq<AstView>, int), ParseErrView>(err_view(x)));
                return Err(x);
            },
        };
        let ghost before = statements;
        statements.push(s);
        proof {
            lemma_all_well_formed_push(before, statements, 0);
            lemma_views_push(before, statements, 0);
            lemma_prepend_step(views(before, 0), node_view(s), block_items_g(t@, file@, q as int));
        }
        p = q;
    }
    assert(views(statements, 0) + Seq::<AstView>::empty() =~= views(statements, 0));
    Ok((AstNode::Block { statements }, p + 1))
}

/// A statement that ends with ';'.
fn parse_simple(t: &Vec<Token>, file: &String, pos: usize) -> (r: Parsed)
    requires
        pos <= t.len(),
    ensures
        advances(r, pos, t.len() as nat),
        parsed_as(r, simple_g(t@, file@, pos as int)),
    decreases t.len() - pos, 11nat,
{
    let k = kind_at(t, pos);
    let (node, p) = if k == TokenKind::Let {
        parse_var_dec(t, file, pos)?
    } else if k == TokenKind::Identifier {
        parse_assignment(t, file, pos)?
    } else if k == TokenKind::Return {
        let (e, p) = parse_expression(t, file, pos + 1)?;
        (AstNode::Return { expression: Box::new(e) }, p)
    } else if k == TokenKind::PadPrint {
        let (e, p) = parse_expression(t, file, pos + 1)?;
        (AstNode::Print { expression: Box::new(e) }, p)
    } else if k == TokenKind::PadDelay {
        let (e, p) = parse_expression(t, file, pos + 1)?;
        (AstNode::Delay { expression: Box::new(e) }, p)
    } else if k == TokenKind::PadClear {
        let (e, p) = parse_expression(t, file, pos + 1)?;
        (AstNode::PadClear { expr: Box::new(e) }, p)
    } else if k == TokenKind::PadWrite {
        let (mut v, p) = parse_list(t, file, pos + 1, 3)?;
        proof {
            reveal_with_fuel(all_well_formed, 6);
            reveal_with_fuel(views, 6);
        }
        assert(well_formed(v[0]) && well_formed(v[1]) && well_formed(v[2]));
        let colour = v.pop().unwrap();
        let loc_y = v.pop().unwrap();
        let loc_x = v.pop().unwrap();
        (AstNode::PadWrite { loc_x: Box::new(loc_x), loc_y: Box::new(loc_y), colour: Box::new(colour) }, p)
    } else if k == TokenKind::PadWriteBox {
        let (mut v, p) = parse_list(t, file, pos + 1, 5)?;
        proof {
            reveal_with_fuel(all_well_formed, 6);
            reveal_with_fuel(views, 6);
        }
        assert(well_formed(v[0]) && well_formed(v[1]) && well_formed(v[2]) && well_formed(v[3]) && well_formed(
            v[4],
        ));
        let colour = v.pop().unwrap();
        let height = v.pop().unwrap();
        let width = v.pop().unwrap();
        let loc_y = v.pop().unwrap();
        let loc_x = v.pop().unwrap();
        (
            AstNode::PadWriteBox {
                loc_x: Box::new(loc_x),
                loc_y: Box::new(loc_y),
                width: Box::new(width),
                height: Box::new(height),
                colour: Box::new(colour),
            },
            p,
        )
    } else {
        return Err(
            unexpected_any(
                t,
                file,
                pos,
                vec![
                    TokenKind::Let,
                    TokenKind::Identifier,
                    TokenKind::Return,
                    TokenKind::PadPrint,
                    TokenKind::PadDelay,
                    TokenKind::PadClear,
                    TokenKind::PadWrite,
                    TokenKind::PadWriteBox,
                    TokenKind::If,
                    TokenKind::For,
                    TokenKind::While,
                    TokenKind::Fun,
                    TokenKind::LBrace,
                ],
            ),
        );
    };
    let q = expect(t, file, p, TokenKind::Semicolon)?;
    Ok((node, q))
}

/// '(' expression ')' as in `if` and `while`.
fn parse_condition(t: &Vec<Token>, file: &String, pos: usize) -> (r: Parsed)
    requires
        pos <= t.len(),
    ensures
        advances(r, pos, t.len() as nat),
        parsed_as(r, condition_g(t@, file@, pos as int)),
    decreases t.len() - pos, 10nat,
{
    let p = expect(t, file, pos, TokenKind::LParen)?;
    let (e, q) = parse_expression(t, file, p)?;
    let q = expect(t, file, q, TokenKind::RParen)?;
    Ok((e, q))
}

/// ifStmt := 'if' '(' expression ')' block ('else' block)?
fn parse_if(t: &Vec<Token>, file: &String, pos: usize) -> (r: Parsed)
    requires
        pos <= t.len(),
    ensures
        advances(r, pos, t.len() as nat),
        parsed_as(r, if_g(t@, file@, pos as int)),
    decreases t.len() - pos, 12nat,
{
    let p = expect(t, file, pos, TokenKind::If)?;
    let (condition, p) = parse_condition(t, file, p)?;
    let (if_true, p) = parse_block(t, file, p)?;
    if kind_at(t, p) == TokenKind::Else {
        let (if_false, q) = parse_block(t, file, p + 1)?;
        Ok((AstNode::If { condition: Box::new(condition), if_true: Box::new(if_true), if_false: Some(Box::new(if_false)) }, q))
    } else {
        Ok((AstNode::If { condition: Box::new(condition), if_true: Box::new(if_true), if_false: None }, p))
    }
}

/// forStmt := 'for' '(' varDec? ';' expression ';' assignment? ')' block
fn parse_for(t: &Vec<Token>, file: &String, pos: usize) -> (r: Parsed)
    requires
        pos <= t.len(),
    ensures
        advances(r, pos, t.len() as nat),
        parsed_as(r, for_g(t@, file@, pos as int)),
    decreases t.len() - pos, 12nat,
{
    let p = expect(t, file, pos, TokenKind::For)?;
    let mut p = expect(t, file, p, TokenKind::LParen)?;
    let mut initializer: Option<Box<AstNode>> = None;
    if kind_at(t, p) != TokenKind::Semicolon {
        let (d, q) = parse_var_dec(t, file, p)?;
        initializer = Some(Box::new(d));
        p = q;
    }
    let p = expect(t, file, p, TokenKind::Semicolon)?;
    let (condition, p) = parse_expression(t, file, p)?;
    let mut p = expect(t, file, p, TokenKind::Semicolon)?;
    let mut increment: Option<Box<AstNode>> = None;
    if kind_at(t, p) != TokenKind::RParen {
        let (a, q) = parse_assignment(t, file, p)?;
        increment = Some(Box::new(a));
        p = q;
    }
    let p = expect(t, file, p, TokenKind::RParen)?;
    let (body, q) = parse_block(t, file, p)?;
    Ok((AstNode::For { initializer, condition: Box::new(condition), increment, body: Box::new(body) }, q))
}

/// funDecl := 'fun' IDENT '(' formalParams? ')' '->' TYPE block
fn parse_function(t: &Vec<Token>, file: &String, pos: usize) -> (r: Parsed)
    requires
        pos <= t.len(),
    ensures
        advances(r, pos, t.len() as nat),
        parsed_as(r, function_g(t@, file@, pos as int)),
    decreases t.len() - pos, 12nat,
{
    let p = expect(t, file, pos, TokenKind::Fun)?;
    let p = expect(t, file, p, TokenKind::Identifier)?;
    let mut p = expect(t, file, p, TokenKind::LParen)?;
    let mut params: Vec<AstNode> = Vec::new();
    assert(views(params, 0) =~= Seq::<AstView>::empty());
    if kind_at(t, p) != TokenKind::RParen {
        let mut done = false;
        assert(Seq::<AstView>::empty() + Seq::<AstView>::empty() =~= Seq::<AstView>::empty());
        while !done
            invariant
                pos + 3 <= p <= t.len(),
                forall|j: int| 0 <= j < params.len() ==> #[trigger] params[j] is FormalParam,
                grammar::kind_at(t@, pos as int) == TokenKind::Fun,
                grammar::kind_at(t@, pos + 1) == TokenKind::Identifier,
                grammar::kind_at(t@, pos + 2) == TokenKind::LParen,
                grammar::kind_at(t@, pos + 3) != TokenKind::RParen,
                !done ==> params_g(t@, file@, pos + 3) == prepend_views(views(params, 0), params_g(t@, file@, p as int)),
                done ==> params_g(t@, file@, pos + 3) == Ok::<(Seq<AstView>, int), ParseErrView>(
                    (views(params, 0), p as int),
                ),
            decreases t.len() - p,
        {
            let q = match expect(t, file, p, TokenKind::Identifier) {
                Ok(q) => q,
                Err(x) => {
                    assert(params_g(t@, file@, p as int) == Err::<(Seq<AstView>, int), ParseErrView>(err_view(x)));
                    return Err(x);
                },
            };
            let q = match expect(t, file, q, TokenKind::Colon) {
                Ok(q) => q,
                Err(x) => {
                    assert(params_g(t@, file@, p as int) == Err::<(Seq<AstView>, int), ParseErrView>(err_view(x)));
                    return Err(x);
                },
            };
            let q = match expect(t, file, q, TokenKind::Type) {
                Ok(q) => q,
                Err(x) => {
                    assert(params_g(t@, file@, p as int) == Err::<(Seq<AstView>, int), ParseErrView>(err_view(x)));
                    return Err(x);
                },
            };
            let fp = AstNode::FormalParam { identifier: token_at(t, p), param_type: token_at(t, p + 2) };
            let ghost before = params;
            params.push(fp);
            proof {
                lemma_views_push(before, params, 0);
            }
            p = q;
            if kind_at(t, p) == TokenKind::Comma {
                proof {
                    lemma_prepend_step(views(before, 0), node_view(fp), params_g(t@, file@, q + 1));
                }
                p = p + 1;
            } else {
                assert(views(before, 0) + seq![node_view(fp)] =~= views(params, 0));
                done = true;
            }
        }
    }
    let p = expect(t, file, p, TokenKind::RParen)?;
    let p = expect(t, file, p, TokenKind::Arrow)?;
    let p = expect(t, file, p, TokenKind::Type)?;
    let (block, q) = parse_block(t, file, p)?;
    Ok((AstNode::FunctionDecl { identifier: token_at(t, pos + 1), params, return_type: token_at(t, p - 1), block: Box::new(block) }, q))
}

/// statement := varDec ';' | assignment ';' | padStmt ';' | return ';'
///            | ifStmt | forStmt | whileStmt | funDecl | block
fn parse_statement(t: &Vec<Token>, file: &String, pos: usize) -> (r: Parsed)
    requires
        pos <= t.len(),
    ensures
        advances(r, pos, t.len() as nat),
        parsed_as(r, statement_g(t@, file@, pos as int)),
    decreases t.len() - pos, 13nat,
{
    let k = kind_at(t, pos);
    if k == TokenKind::If {
        parse_if(t, file, pos)
    } else if k == TokenKind::For {
        parse_for(t, file, pos)
    } else if k == TokenKind::While {
        let p = expect(t, file, pos, TokenKind::While)?;
        let (condition, p) = parse_condition(t, file, p)?;
        let (body, q) = parse_block(t, file, p)?;
        Ok((AstNode::While { condition: Box::new(condition), body: Box::new(body) }, q))
    } else if k == TokenKind::Fun {
        parse_function(t, file, pos)
    } else if k == TokenKind::LBrace {
        parse_block(t, file, pos)
    } else {
        parse_simple(t, file, pos)
    }
}

/// Parses a token sequence into a program: statements up to the end of
/// the input. Fails at the first token that leaves the grammar.
pub fn parse(tokens: &Vec<Token>, source_file: &String) -> (r: Result<AstNode, ParseError>)
    ensures
        r matches Ok(ast) ==> ast is Program && well_formed(ast),
        match parse_spec(tokens@, source_file@) {
            Ok(v) => r matches Ok(ast) && node_view(ast) == v,
            Err(e) => r matches Err(x) && err_view(x) == e,
        },
{
    let mut p: usize = 0;
    let mut statements: Vec<AstNode> = Vec::new();
    assert(views(statements, 0) =~= Seq::<AstView>::empty());
    assert(Seq::<AstView>::empty() + Seq::<AstView>::empty() =~= Seq::<AstView>::empty());
    while kind_at(tokens, p) != TokenKind::EndOfFile
        invariant
            p <= tokens.len(),
            all_well_formed(statements, 0),
            program_items_g(tokens@, source_file@, 0) == prepend_views(
                views(statements, 0),
                program_items_g(tokens@, source_file@, p as int),
            ),
        decreases tokens.len() - p,
    {
        let (s, q) = match parse_statement(tokens, source_file, p) {
            Ok(sq) => sq,
            Err(x) => {
                assert(program_items_g(tokens@, source_file@, p as int) == Err::<(Seq<AstView>, int), ParseErrView>(
                    err_view(x),
                ));
                return Err(x);
            },
        };
        let ghost before = statements;
        statements.push(s);
        proof {
            lemma_all_well_formed_push(before, statements, 0);
            lemma_views_push(before, statements, 0);
            lemma_prepend_step(views(before, 0), node_view(s), program_items_g(tokens@, source_file@, q as int));
        }
        p = q;
    }
    assert(views(statements, 0) + Seq::<AstView>::empty() =~= views(statements, 0));
    Ok(AstNode::Program { statements })
}

} // verus!
