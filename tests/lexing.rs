use parl::errors::LexicalError;
use parl::lexer::lex;
use parl::tokens::TokenKind;

fn chars(s: &str) -> Vec<char> {
    s.chars().collect()
}

fn kinds(s: &str) -> Vec<TokenKind> {
    lex(&chars(s)).unwrap().iter().map(|t| t.kind).collect()
}

fn lexemes(s: &str) -> Vec<String> {
    lex(&chars(s)).unwrap().iter().map(|t| t.span.lexeme.clone()).collect()
}

#[test]
fn declaration_tokens() {
    assert_eq!(
        kinds("let x: int = 5;"),
        vec![
            TokenKind::Let,
            TokenKind::Identifier,
            TokenKind::Colon,
            TokenKind::Type,
            TokenKind::Equals,
            TokenKind::IntLiteral,
            TokenKind::Semicolon,
            TokenKind::EndOfFile,
        ]
    );
    assert_eq!(lexemes("let x: int = 5;"), vec!["let", "x", ":", "int", "=", "5", ";", ""]);
}

#[test]
fn lexing_twice_gives_equal_tokens() {
    let src = chars("fun f(a: int) -> int { return a + 1; } // done");
    assert_eq!(lex(&src), lex(&src));
}

#[test]
fn lexemes_and_gaps_rebuild_the_source() {
    let src = "let  c:colour=#ff00AA; /* note */\n__write 1, 2, c;";
    let toks = lex(&chars(src)).unwrap();
    let joined: String = toks.iter().map(|t| t.span.lexeme.clone()).collect();
    assert_eq!(joined, "letc:colour=#ff00AA;__write1,2,c;");
    assert_eq!(toks[5].kind, TokenKind::ColourLiteral);
    assert_eq!(toks[7].kind, TokenKind::PadWrite);
    assert_eq!(toks[7].span.from_line, 2);
    assert_eq!(toks[7].span.from_col, 1);
}

#[test]
fn multi_character_operators_win() {
    assert_eq!(
        kinds("a == b != c <= d >= e -> < > = - not and or"),
        vec![
            TokenKind::Identifier,
            TokenKind::EqEq,
            TokenKind::Identifier,
            TokenKind::NotEqual,
            TokenKind::Identifier,
            TokenKind::LessThanEqual,
            TokenKind::Identifier,
            TokenKind::GreaterThanEqual,
            TokenKind::Identifier,
            TokenKind::Arrow,
            TokenKind::LessThan,
            TokenKind::GreaterThan,
            TokenKind::Equals,
            TokenKind::Minus,
            TokenKind::Not,
            TokenKind::And,
            TokenKind::Or,
            TokenKind::EndOfFile,
        ]
    );
}

#[test]
fn number_literals() {
    assert_eq!(
        kinds("12 3.25 7"),
        vec![TokenKind::IntLiteral, TokenKind::FloatLiteral, TokenKind::IntLiteral, TokenKind::EndOfFile]
    );
    assert_eq!(lexemes("3.25"), vec!["3.25", ""]);
    assert_eq!(lexemes("true false"), vec!["true", "false", ""]);
    assert_eq!(kinds("true")[0], TokenKind::BoolLiteral);
}

#[test]
fn empty_source_is_only_end_of_file() {
    let toks = lex(&chars("  // nothing\n")).unwrap();
    assert_eq!(toks.len(), 1);
    assert_eq!(toks[0].kind, TokenKind::EndOfFile);
    assert_eq!(toks[0].span.lexeme, "");
    assert_eq!(toks[0].span.from_line, 2);
}

#[test]
fn invalid_characters_are_all_reported() {
    let errs = lex(&chars("let @ x = $;")).unwrap_err();
    assert_eq!(errs.len(), 2);
    match &errs[0] {
        LexicalError::InvalidCharacter(span) => {
            assert_eq!(span.lexeme, "@");
            assert_eq!(span.from_col, 5);
        }
    }
    match &errs[1] {
        LexicalError::InvalidCharacter(span) => assert_eq!(span.lexeme, "$"),
    }
}

#[test]
fn bad_colour_and_open_comment_are_errors() {
    assert_eq!(lex(&chars("#ff00")).unwrap_err().len(), 1);
    assert_eq!(lex(&chars("/* never closed")).unwrap_err().len(), 1);
}
