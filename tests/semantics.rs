use parl::analysis::analyze;
use parl::ast::AstNode;
use parl::errors::SemanticError;
use parl::scope_checker::{token_type, ScopeChecker};
use parl::symbols::{SymbolTable, Type};
use parl::tokens::{TextSpan, Token, TokenKind};
use parl::type_checker::TypeChecker;

fn tok(kind: TokenKind, lexeme: &str) -> Token {
    Token::new(kind, TextSpan::new(0, 0, 0, 0, lexeme))
}

fn ident(name: &str) -> Token {
    tok(TokenKind::Identifier, name)
}

fn ty(name: &str) -> Token {
    tok(TokenKind::Type, name)
}

fn int_lit(v: &str) -> AstNode {
    AstNode::IntLiteral(tok(TokenKind::IntLiteral, v))
}

fn float(v: &str) -> AstNode {
    AstNode::FloatLiteral(tok(TokenKind::FloatLiteral, v))
}

fn boolean(v: &str) -> AstNode {
    AstNode::BoolLiteral(tok(TokenKind::BoolLiteral, v))
}

fn colour(v: &str) -> AstNode {
    AstNode::ColourLiteral(tok(TokenKind::ColourLiteral, v))
}

fn var(name: &str) -> AstNode {
    AstNode::Identifier { token: ident(name) }
}

fn expr(e: AstNode) -> AstNode {
    AstNode::Expression { casted_type: None, expr: Box::new(e) }
}

fn cast(e: AstNode, to: &str) -> AstNode {
    AstNode::Expression { casted_type: Some(ty(to)), expr: Box::new(e) }
}

fn bin(l: AstNode, kind: TokenKind, op: &str, r: AstNode) -> AstNode {
    AstNode::BinOp { left: Box::new(l), operator: tok(kind, op), right: Box::new(r) }
}

fn let_(name: &str, t: &str, e: AstNode) -> AstNode {
    AstNode::VarDec { identifier: ident(name), var_type: ty(t), expression: Box::new(expr(e)) }
}

fn assign(name: &str, e: AstNode) -> AstNode {
    AstNode::Assignment { identifier: ident(name), expression: Box::new(expr(e)) }
}

fn ret(e: AstNode) -> AstNode {
    AstNode::Return { expression: Box::new(expr(e)) }
}

fn block(statements: Vec<AstNode>) -> AstNode {
    AstNode::Block { statements }
}

fn param(name: &str, t: &str) -> AstNode {
    AstNode::FormalParam { identifier: ident(name), param_type: ty(t) }
}

fn fun(name: &str, params: Vec<AstNode>, ret_type: &str, body: Vec<AstNode>) -> AstNode {
    AstNode::FunctionDecl {
        identifier: ident(name),
        params,
        return_type: ty(ret_type),
        block: Box::new(block(body)),
    }
}

fn call(name: &str, args: Vec<AstNode>) -> AstNode {
    AstNode::FunctionCall { identifier: ident(name), args: args.into_iter().map(expr).collect() }
}

fn program(statements: Vec<AstNode>) -> AstNode {
    AstNode::Program { statements }
}

fn type_check(ast: &AstNode) -> Result<Type, SemanticError> {
    TypeChecker::new().visit(ast)
}

fn mismatch(context: &str, found: Type, expected: Type) -> SemanticError {
    SemanticError::TypeMismatch(context.to_string(), found, expected)
}

#[test]
fn test_symbol_table() {
    let mut symbol_table = SymbolTable::new();

    symbol_table.add_symbol("x", Some(Type::Int));
    symbol_table.add_symbol("y", Some(Type::Float));
    symbol_table.add_symbol("z", Some(Type::Bool));

    assert_eq!(symbol_table.find_symbol("x").unwrap().ty, Some(Type::Int));
    assert_eq!(symbol_table.find_symbol("y").unwrap().ty, Some(Type::Float));
    assert_eq!(symbol_table.find_symbol("z").unwrap().ty, Some(Type::Bool));
}

#[test]
fn test_scope_checker() {
    let mut scope_checker = ScopeChecker::new();

    let token = Token::new(TokenKind::Identifier, TextSpan::new(0, 0, 0, 0, "asd"));

    assert!(!scope_checker.check_scope(&token));

    scope_checker
        .add_symbol(&token, &Token::new(TokenKind::Type, TextSpan::new(0, 0, 0, 0, "int")))
        .unwrap();

    assert!(scope_checker.check_scope(&token));

    assert!(!scope_checker.check_parent_scope(&token));
}

#[test]
fn test_type_checker() {
    let ast = program(vec![
        let_("x", "int", int_lit("5")),
        let_("y", "float", float("3.14")),
        let_("z", "bool", boolean("true")),
        let_("f", "colour", colour("#ff0000")),
        fun(
            "foo",
            vec![param("x", "int"), param("y", "float")],
            "bool",
            vec![let_("z", "bool", boolean("false")), let_("f", "colour", colour("#00ff00")), ret(var("z"))],
        ),
        let_("a", "bool", call("foo", vec![int_lit("5"), float("3.14")])),
        let_("b", "float", bin(var("x"), TokenKind::Plus, "+", var("y"))),
    ]);
    assert_eq!(type_check(&ast), Ok(Type::Void));
    assert_eq!(analyze(&ast), Ok(()));
}

#[test]
fn symbol_table_rejects_second_declaration() {
    let mut table = SymbolTable::new();
    assert!(table.add_symbol("x", Some(Type::Int)));
    assert!(!table.add_symbol("x", Some(Type::Float)));
    assert_eq!(table.find_symbol("x").unwrap().ty, Some(Type::Int));
    assert!(table.find_symbol("w").is_none());
}

#[test]
fn single_declaration_checks() {
    let ast = program(vec![let_("x", "int", int_lit("5"))]);
    assert_eq!(type_check(&ast), Ok(Type::Void));
    assert_eq!(analyze(&ast), Ok(()));
}

#[test]
fn int_into_float_variable_is_a_mismatch() {
    let ast = program(vec![let_("x", "float", int_lit("5"))]);
    assert_eq!(type_check(&ast), Err(mismatch("x", Type::Int, Type::Float)));
}

#[test]
fn call_of_declared_function_checks() {
    let ast = program(vec![
        fun("f", vec![param("a", "int")], "int", vec![ret(bin(var("a"), TokenKind::Plus, "+", int_lit("1")))]),
        let_("y", "int", call("f", vec![int_lit("2")])),
    ]);
    assert_eq!(type_check(&ast), Ok(Type::Void));
    assert_eq!(analyze(&ast), Ok(()));
}

#[test]
fn if_branches_must_return_the_same_type() {
    let ast = program(vec![AstNode::If {
        condition: Box::new(expr(boolean("true"))),
        if_true: Box::new(block(vec![ret(int_lit("1"))])),
        if_false: Some(Box::new(block(vec![ret(float("1.0"))]))),
    }]);
    assert_eq!(type_check(&ast), Err(mismatch("if", Type::Int, Type::Float)));
}

#[test]
fn colour_cast_to_int_is_not_a_colour() {
    let ast = program(vec![AstNode::VarDec {
        identifier: ident("c"),
        var_type: ty("colour"),
        expression: Box::new(cast(colour("#ff0000"), "int")),
    }]);
    assert_eq!(type_check(&ast), Err(mismatch("c", Type::Int, Type::Colour)));
}

#[test]
fn while_loop_over_program_variable_checks() {
    let ast = program(vec![
        let_("x", "int", int_lit("0")),
        AstNode::While {
            condition: Box::new(expr(bin(var("x"), TokenKind::LessThan, "<", int_lit("10")))),
            body: Box::new(block(vec![assign("x", bin(var("x"), TokenKind::Plus, "+", int_lit("1")))])),
        },
    ]);
    assert_eq!(type_check(&ast), Ok(Type::Void));
    assert_eq!(analyze(&ast), Ok(()));
}

#[test]
fn block_variable_is_gone_after_the_block() {
    let ast = program(vec![block(vec![let_("x", "int", int_lit("1"))]), let_("y", "int", var("x"))]);
    assert_eq!(type_check(&ast), Err(SemanticError::UndefinedVariable(ident("x"))));
    assert_eq!(analyze(&ast), Err(SemanticError::UndefinedVariable(ident("x"))));
}

#[test]
fn for_loop_variable_is_gone_after_the_loop() {
    let ast = program(vec![
        AstNode::For {
            initializer: Some(Box::new(let_("i", "int", int_lit("0")))),
            condition: Box::new(expr(bin(var("i"), TokenKind::LessThan, "<", int_lit("3")))),
            increment: Some(Box::new(assign("i", bin(var("i"), TokenKind::Plus, "+", int_lit("1"))))),
            body: Box::new(block(vec![])),
        },
        assign("i", int_lit("4")),
    ]);
    assert_eq!(type_check(&ast), Err(SemanticError::UndefinedVariable(ident("i"))));
}

#[test]
fn function_body_cannot_see_program_variables() {
    let ast = program(vec![let_("x", "int", int_lit("1")), fun("f", vec![], "int", vec![ret(var("x"))])]);
    assert_eq!(type_check(&ast), Err(SemanticError::UndefinedVariable(ident("x"))));
    assert_eq!(analyze(&ast), Err(SemanticError::UndefinedVariable(ident("x"))));
}

#[test]
fn function_may_call_itself() {
    let ast = program(vec![fun(
        "f",
        vec![param("n", "int")],
        "int",
        vec![ret(call("f", vec![var("n")]))],
    )]);
    assert_eq!(type_check(&ast), Ok(Type::Void));
    assert_eq!(analyze(&ast), Ok(()));
}

#[test]
fn checking_twice_gives_the_same_result() {
    let good = program(vec![let_("x", "int", int_lit("5")), let_("y", "int", var("x"))]);
    let bad = program(vec![let_("x", "int", int_lit("5")), let_("x", "int", int_lit("6"))]);
    let mut checker = TypeChecker::new();
    let first = checker.visit(&good);
    let second = checker.visit(&good);
    assert_eq!(first, Ok(Type::Void));
    assert_eq!(first, second);
    let first = checker.visit(&bad);
    let second = checker.visit(&bad);
    assert_eq!(first, Err(SemanticError::VariableRedeclaration(ident("x"))));
    assert_eq!(first, second);
    assert_eq!(checker.visit(&good), Ok(Type::Void));
}

#[test]
fn scope_pass_twice_gives_the_same_result() {
    let ast = program(vec![let_("x", "int", int_lit("5")), let_("y", "int", var("z"))]);
    let mut checker = ScopeChecker::new();
    let first = checker.visit(&ast);
    let second = checker.visit(&ast);
    assert_eq!(first, Err(SemanticError::UndefinedVariable(ident("z"))));
    assert_eq!(first, second);
}

#[test]
fn scope_pass_reports_second_declaration() {
    let ast = program(vec![let_("x", "int", int_lit("5")), let_("x", "float", float("1.5"))]);
    assert_eq!(analyze(&ast), Err(SemanticError::AlreadyDefinedVariable(ident("x"))));
}

#[test]
fn invalid_binary_operation() {
    let op = tok(TokenKind::Plus, "+");
    let ast = program(vec![let_(
        "x",
        "int",
        AstNode::BinOp { left: Box::new(boolean("true")), operator: op.clone(), right: Box::new(int_lit("1")) },
    )]);
    assert_eq!(type_check(&ast), Err(SemanticError::InvalidOperation(op)));
}

#[test]
fn int_plus_float_is_float() {
    let ast = program(vec![let_("x", "float", bin(int_lit("1"), TokenKind::Plus, "+", float("2.0")))]);
    assert_eq!(type_check(&ast), Ok(Type::Void));
    let ast = program(vec![let_("x", "bool", bin(int_lit("1"), TokenKind::LessThanEqual, "<=", int_lit("2")))]);
    assert_eq!(type_check(&ast), Ok(Type::Void));
}

#[test]
fn invalid_unary_operation() {
    let op = tok(TokenKind::Not, "not");
    let ast = program(vec![let_("x", "int", AstNode::UnaryOp { operator: op.clone(), expr: Box::new(int_lit("1")) })]);
    assert_eq!(type_check(&ast), Err(SemanticError::InvalidOperation(op)));
}

#[test]
fn invalid_cast() {
    let ast = program(vec![let_("x", "colour", cast(float("1.0"), "colour"))]);
    assert_eq!(type_check(&ast), Err(SemanticError::InvalidCast(Type::Float, Type::Colour)));
    let ast = program(vec![let_("x", "float", cast(boolean("true"), "float"))]);
    assert_eq!(type_check(&ast), Ok(Type::Void));
}

#[test]
fn call_with_arguments_to_function_without_parameters() {
    let ast = program(vec![fun("f", vec![], "int", vec![ret(int_lit("1"))]), let_("y", "int", call("f", vec![int_lit("2")]))]);
    assert_eq!(
        type_check(&ast),
        Err(SemanticError::FunctionCallNoParams("f".to_string(), vec![Type::Int]))
    );
}

#[test]
fn call_with_wrong_argument_count() {
    let ast = program(vec![
        fun("f", vec![param("a", "int"), param("b", "int")], "int", vec![ret(var("a"))]),
        let_("y", "int", call("f", vec![int_lit("2")])),
    ]);
    assert_eq!(type_check(&ast), Err(SemanticError::ArgumentCountMismatch(ident("f"), 2, 1)));
}

#[test]
fn call_arguments_match_parameters_in_order() {
    let ast = program(vec![
        fun("f", vec![param("a", "int"), param("b", "float")], "int", vec![ret(var("a"))]),
        let_("y", "int", call("f", vec![int_lit("2"), int_lit("3")])),
    ]);
    assert_eq!(type_check(&ast), Err(mismatch("b", Type::Int, Type::Float)));
    let ast = program(vec![
        fun("f", vec![param("a", "int"), param("b", "float")], "int", vec![ret(var("a"))]),
        let_("y", "int", call("f", vec![int_lit("2"), float("3.0")])),
    ]);
    assert_eq!(type_check(&ast), Ok(Type::Void));
}

#[test]
fn function_return_type_mismatch() {
    let ast = program(vec![fun("f", vec![], "int", vec![ret(float("1.0"))])]);
    assert_eq!(
        type_check(&ast),
        Err(SemanticError::FunctionReturnTypeMismatch(ident("f"), Type::Int, Type::Float))
    );
}

#[test]
fn function_declared_twice() {
    let ast = program(vec![
        fun("f", vec![], "int", vec![ret(int_lit("1"))]),
        fun("f", vec![], "int", vec![ret(int_lit("2"))]),
    ]);
    assert_eq!(type_check(&ast), Err(SemanticError::AlreadyDefinedFunction(ident("f"))));
    assert_eq!(analyze(&ast), Err(SemanticError::AlreadyDefinedFunction(ident("f"))));
}

#[test]
fn undefined_function() {
    let ast = program(vec![let_("y", "int", call("g", vec![]))]);
    assert_eq!(type_check(&ast), Err(SemanticError::UndefinedFunction(ident("g"))));
    assert_eq!(analyze(&ast), Err(SemanticError::UndefinedFunction(ident("g"))));
}

#[test]
fn print_of_nothing() {
    let ast = program(vec![
        fun("f", vec![], "void", vec![]),
        AstNode::Print { expression: Box::new(call("f", vec![])) },
    ]);
    assert_eq!(
        type_check(&ast),
        Err(SemanticError::TypeMismatchUnion(
            "__print <expr>".to_string(),
            Type::Void,
            vec![Type::Int, Type::Float, Type::Bool, Type::Colour]
        ))
    );
}

#[test]
fn pad_operations_check_their_operands() {
    let ok = program(vec![
        AstNode::PadWriteBox {
            loc_x: Box::new(expr(int_lit("1"))),
            loc_y: Box::new(expr(int_lit("2"))),
            width: Box::new(expr(AstNode::PadWidth)),
            height: Box::new(expr(AstNode::PadHeight)),
            colour: Box::new(expr(colour("#000000"))),
        },
        AstNode::Delay { expression: Box::new(expr(AstNode::PadRandI { upper_bound: Box::new(expr(int_lit("9"))) })) },
    ]);
    assert_eq!(type_check(&ok), Ok(Type::Void));
    let bad = program(vec![AstNode::PadWrite {
        loc_x: Box::new(expr(int_lit("1"))),
        loc_y: Box::new(expr(float("2.0"))),
        colour: Box::new(expr(colour("#000000"))),
    }]);
    assert_eq!(type_check(&bad), Err(mismatch("loc_y", Type::Float, Type::Int)));
    let bad = program(vec![AstNode::PadClear { expr: Box::new(expr(int_lit("1"))) }]);
    assert_eq!(type_check(&bad), Err(mismatch("__clear <expr>", Type::Int, Type::Colour)));
    let bad = program(vec![let_(
        "v",
        "int",
        AstNode::PadRead { x: Box::new(expr(int_lit("1"))), y: Box::new(expr(boolean("true"))) },
    )]);
    assert_eq!(type_check(&bad), Err(mismatch("__read x <y>", Type::Bool, Type::Int)));
}

#[test]
fn loop_conditions_must_be_bool() {
    let ast = program(vec![AstNode::While {
        condition: Box::new(expr(int_lit("1"))),
        body: Box::new(block(vec![])),
    }]);
    assert_eq!(type_check(&ast), Err(mismatch("while", Type::Int, Type::Bool)));
}

#[test]
fn token_type_names() {
    assert_eq!(token_type(&ty("int")), Type::Int);
    assert_eq!(token_type(&ty("float")), Type::Float);
    assert_eq!(token_type(&ty("bool")), Type::Bool);
    assert_eq!(token_type(&ty("colour")), Type::Colour);
}

#[test]
fn scope_pass_leaves_no_scope_open() {
    let ast = program(vec![fun("f", vec![param("a", "int")], "int", vec![ret(call("f", vec![var("a")]))])]);
    let mut checker = ScopeChecker::new();
    assert_eq!(checker.visit(&ast), Ok(()));
    assert!(!checker.check_scope(&ident("f")));
    assert!(!checker.check_parent_scope(&ident("f")));
}

#[test]
fn function_body_shares_the_parameter_scope() {
    let ast = program(vec![fun(
        "f",
        vec![param("a", "int")],
        "int",
        vec![let_("a", "int", int_lit("1")), ret(var("a"))],
    )]);
    assert_eq!(type_check(&ast), Err(SemanticError::VariableRedeclaration(ident("a"))));
    assert_eq!(analyze(&ast), Err(SemanticError::AlreadyDefinedVariable(ident("a"))));
}

#[test]
fn block_variable_stays_gone_after_further_statements() {
    let ast = program(vec![
        block(vec![let_("x", "int", int_lit("1"))]),
        let_("y", "int", int_lit("2")),
        AstNode::Print { expression: Box::new(expr(var("y"))) },
        assign("x", int_lit("3")),
    ]);
    assert_eq!(type_check(&ast), Err(SemanticError::UndefinedVariable(ident("x"))));
    assert_eq!(analyze(&ast), Err(SemanticError::UndefinedVariable(ident("x"))));
}
