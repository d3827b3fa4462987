use parl::analysis::analyze;
use parl::ast::AstNode;
use parl::errors::{ParseError, SemanticError};
use parl::lexer::lex;
use parl::parser::parse;
use parl::symbols::Type;
use parl::tokens::TokenKind;

fn tree(src: &str) -> Result<AstNode, ParseError> {
    let tokens = lex(&src.chars().collect()).unwrap();
    parse(&tokens, &"test.parl".to_string())
}

fn check(src: &str) -> Result<(), SemanticError> {
    analyze(&tree(src).unwrap())
}

fn lexeme_of(e: &SemanticError) -> String {
    match e {
        SemanticError::UndefinedVariable(t) => t.span.lexeme.clone(),
        _ => String::new(),
    }
}

#[test]
fn source_declaration_analyzes() {
    assert_eq!(check("let x: int = 5;"), Ok(()));
}

#[test]
fn source_float_from_int_is_a_mismatch() {
    assert_eq!(
        check("let x: float = 5;"),
        Err(SemanticError::TypeMismatch("x".to_string(), Type::Int, Type::Float))
    );
}

#[test]
fn source_function_and_call_analyze() {
    assert_eq!(check("fun f(a: int) -> int { return a + 1; } let y: int = f(2);"), Ok(()));
}

#[test]
fn source_if_branch_types_differ() {
    assert_eq!(
        check("if (true) { return 1; } else { return 1.0; }"),
        Err(SemanticError::TypeMismatch("if".to_string(), Type::Int, Type::Float))
    );
}

#[test]
fn source_colour_cast_to_int() {
    assert_eq!(
        check("let c: colour = #ff0000 as int;"),
        Err(SemanticError::TypeMismatch("c".to_string(), Type::Int, Type::Colour))
    );
}

#[test]
fn source_while_loop_analyzes() {
    assert_eq!(check("let x: int = 0; while (x < 10) { x = x + 1; }"), Ok(()));
}

#[test]
fn source_no_capture() {
    let r = check("let g: int = 1; fun f() -> int { return g; }");
    assert!(matches!(r, Err(SemanticError::UndefinedVariable(_))));
    assert_eq!(lexeme_of(&r.unwrap_err()), "g");
}

#[test]
fn grammar_programs_parse_to_program() {
    let sources = [
        "",
        "let x: int = 1 + 2 * 3;",
        "for (let i: int = 0; i < 10; i = i + 1) { __print i; }",
        "for (; true; ) { }",
        "fun f(a: int, b: float) -> bool { return not (a < 3) and b > 1.5; }",
        "__write_box 1, 2, __width, __height, #00ff00; __clear #000000; __delay __randi 5;",
        "let v: int = __read 1, 2; { let w: int = -v; }",
        "if (x == 1) { } else { } while (false) { }",
    ];
    for s in sources.iter() {
        match tree(s) {
            Ok(AstNode::Program { .. }) => {}
            other => panic!("{} gave {:?}", s, other),
        }
    }
}

#[test]
fn binary_operators_are_left_associative_with_precedence() {
    let ast = tree("let x: int = 1 - 2 - 3 * 4;").unwrap();
    let AstNode::Program { statements } = ast else { panic!() };
    let AstNode::VarDec { expression, .. } = &statements[0] else { panic!() };
    let AstNode::Expression { expr, .. } = &**expression else { panic!() };
    let AstNode::BinOp { left, operator, right } = &**expr else { panic!() };
    assert_eq!(operator.kind, TokenKind::Minus);
    assert!(matches!(&**right, AstNode::BinOp { operator, .. } if operator.kind == TokenKind::Multiply));
    assert!(matches!(&**left, AstNode::BinOp { operator, .. } if operator.kind == TokenKind::Minus));
}

#[test]
fn cast_applies_to_whole_expression() {
    let ast = tree("let x: float = 1 + 2 as float;").unwrap();
    let AstNode::Program { statements } = ast else { panic!() };
    let AstNode::VarDec { expression, .. } = &statements[0] else { panic!() };
    let AstNode::Expression { casted_type, expr } = &**expression else { panic!() };
    assert_eq!(casted_type.as_ref().unwrap().span.lexeme, "float");
    assert!(matches!(&**expr, AstNode::BinOp { .. }));
}

#[test]
fn parse_errors() {
    match tree("let x int = 5;") {
        Err(ParseError::UnexpectedToken { expected, found, source_file }) => {
            assert_eq!(expected, TokenKind::Colon);
            assert_eq!(found.span.lexeme, "int");
            assert_eq!(source_file, "test.parl");
        }
        other => panic!("{:?}", other),
    }
    assert!(matches!(tree("{ let x: int = 1;"), Err(ParseError::UnclosedBlock)));
    assert!(matches!(tree("= 3;"), Err(ParseError::UnexpectedTokenList { .. })));
}
