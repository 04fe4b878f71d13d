use noma_compiler::{Lexer, NomaError, Token, TokenType};

fn number(cs: Vec<char>) -> Option<f64> {
    cs.into_iter().collect::<String>().parse::<f64>().ok()
}

fn scan(src: &str) -> Result<Vec<Token<f64>>, NomaError> {
    Lexer::new(src.chars().collect()).tokenize(&number)
}

fn kinds(src: &str) -> Vec<TokenType<f64>> {
    scan(src).unwrap().into_iter().map(|t| t.token_type).collect()
}

#[test]
fn scans_a_function_header() {
    assert_eq!(
        kinds("fn f(x) { let y = x + 2.5; }"),
        vec![
            TokenType::Fn,
            TokenType::Identifier("f".to_string()),
            TokenType::LParen,
            TokenType::Identifier("x".to_string()),
            TokenType::RParen,
            TokenType::LBrace,
            TokenType::Let,
            TokenType::Identifier("y".to_string()),
            TokenType::Assign,
            TokenType::Identifier("x".to_string()),
            TokenType::Plus,
            TokenType::Number(2.5),
            TokenType::Semicolon,
            TokenType::RBrace,
            TokenType::Eof,
        ]
    );
}

#[test]
fn scans_two_character_operators_and_keywords() {
    assert_eq!(
        kinds("== != <= >= < > = % ^ learn minimize return struct"),
        vec![
            TokenType::Equal,
            TokenType::NotEq,
            TokenType::LtEq,
            TokenType::GtEq,
            TokenType::Lt,
            TokenType::Gt,
            TokenType::Assign,
            TokenType::Percent,
            TokenType::Caret,
            TokenType::Learn,
            TokenType::Minimize,
            TokenType::Return,
            TokenType::Struct,
            TokenType::Eof,
        ]
    );
}

#[test]
fn tracks_lines_and_skips_comments() {
    let toks = scan("// header\nlearn w = 1;\n  w").unwrap();
    assert_eq!(toks[0].token_type, TokenType::Learn);
    assert_eq!((toks[0].line, toks[0].column), (2, 1));
    let last_word = &toks[toks.len() - 2];
    assert_eq!(last_word.token_type, TokenType::Identifier("w".to_string()));
    assert_eq!((last_word.line, last_word.column), (3, 3));
}

#[test]
fn blank_source_is_just_eof() {
    assert_eq!(kinds(" \n\t "), vec![TokenType::Eof]);
    assert_eq!(kinds(""), vec![TokenType::Eof]);
}

#[test]
fn unexpected_character_is_an_error() {
    assert_eq!(
        scan("x @ y"),
        Err(NomaError::LexError { message: "Unexpected character".to_string(), line: 1, column: 3 })
    );
}

#[test]
fn number_converter_failure_is_an_error() {
    let r = Lexer::new("12".chars().collect()).tokenize(&|_cs: Vec<char>| None::<f64>);
    assert_eq!(
        r,
        Err(NomaError::LexError { message: "Invalid number".to_string(), line: 1, column: 1 })
    );
}

#[test]
fn identifier_text_is_kept() {
    assert_eq!(
        kinds("weight_1"),
        vec![TokenType::Identifier("weight_1".to_string()), TokenType::Eof]
    );
}
