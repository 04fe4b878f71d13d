use noma_compiler::{
    BinaryOperator, Expression, Item, NomaError, Parser, Statement, Token, TokenType,
    UnaryOperator,
};
use noma_compiler::TokenType as T;

fn tokens(kinds: Vec<TokenType<f64>>) -> Vec<Token<f64>> {
    let mut out: Vec<Token<f64>> =
        kinds.into_iter().enumerate().map(|(i, k)| Token::new(k, 1, i + 1)).collect();
    out.push(Token::new(TokenType::Eof, 1, out.len() + 1));
    out
}

fn id(s: &str) -> TokenType<f64> {
    TokenType::Identifier(s.to_string())
}

#[test]
fn parses_function_with_statements() {
    let toks = tokens(vec![
        T::Fn, id("f"), T::LParen, id("x"), T::Comma, id("y"), T::RParen, T::LBrace,
        T::Learn, id("w"), T::Assign, T::Number(0.5), T::Semicolon,
        T::Let, id("z"), T::Assign, id("x"), T::Plus, T::Number(2.0), T::Star, id("w"), T::Semicolon,
        T::Minimize, id("z"), T::Semicolon,
        T::Return, id("z"), T::Semicolon,
        T::RBrace,
    ]);
    let program = Parser::new(toks).parse().unwrap();
    assert_eq!(program.items.len(), 1);
    match &program.items[0] {
        Item::Function(f) => {
            assert_eq!(f.name, "f");
            assert_eq!(f.params, vec!["x".to_string(), "y".to_string()]);
            assert_eq!(f.body.len(), 4);
            assert!(matches!(f.body[0], Statement::LearnDeclaration { .. }));
            assert!(matches!(f.body[2], Statement::Minimize(_)));
            match &f.body[1] {
                Statement::LetDeclaration { name, value } => {
                    assert_eq!(name, "z");
                    match value {
                        Expression::BinaryOp { op: BinaryOperator::Add, right, .. } => {
                            assert!(matches!(
                                **right,
                                Expression::BinaryOp { op: BinaryOperator::Mul, .. }
                            ));
                        }
                        other => panic!("unexpected expression {:?}", other),
                    }
                }
                other => panic!("unexpected statement {:?}", other),
            }
        }
        other => panic!("unexpected item {:?}", other),
    }
}

#[test]
fn parses_struct() {
    let toks = tokens(vec![
        T::Struct, id("P"), T::LBrace, id("a"), T::Colon, id("f64"), T::Comma, id("b"), T::Colon, id("f64"), T::RBrace,
    ]);
    let program = Parser::new(toks).parse().unwrap();
    match &program.items[0] {
        Item::Struct(s) => {
            assert_eq!(s.name, "P");
            assert_eq!(
                s.fields,
                vec![("a".to_string(), "f64".to_string()), ("b".to_string(), "f64".to_string())]
            );
        }
        other => panic!("unexpected item {:?}", other),
    }
}

#[test]
fn parses_calls_unary_and_comparison() {
    let toks = tokens(vec![
        T::Fn, id("g"), T::LParen, T::RParen, T::LBrace,
        T::Return, id("sigmoid"), T::LParen, T::Minus, id("x"), T::Comma, T::Number(1.0), T::RParen, T::Lt, T::Number(3.0),
        T::Semicolon, T::Return, T::Semicolon, T::RBrace,
    ]);
    let program = Parser::new(toks).parse().unwrap();
    let Item::Function(f) = &program.items[0] else { panic!("not a function") };
    match &f.body[0] {
        Statement::Return(Some(Expression::BinaryOp { left, op: BinaryOperator::Less, .. })) => {
            match &**left {
                Expression::Call { name, args } => {
                    assert_eq!(name, "sigmoid");
                    assert_eq!(args.len(), 2);
                    assert!(matches!(args[0], Expression::UnaryOp { op: UnaryOperator::Neg, .. }));
                }
                other => panic!("unexpected expression {:?}", other),
            }
        }
        other => panic!("unexpected statement {:?}", other),
    }
    assert!(matches!(f.body[1], Statement::Return(None)));
}

#[test]
fn percent_parses_as_division() {
    let toks = tokens(vec![
        T::Fn, id("h"), T::LParen, T::RParen, T::LBrace, T::Number(7.0), T::Percent, T::Number(2.0), T::Semicolon, T::RBrace,
    ]);
    let program = Parser::new(toks).parse().unwrap();
    let Item::Function(f) = &program.items[0] else { panic!("not a function") };
    assert!(matches!(
        f.body[0],
        Statement::Expression(Expression::BinaryOp { op: BinaryOperator::Div, .. })
    ));
}

#[test]
fn empty_input_is_an_empty_program() {
    let program = Parser::new(tokens(vec![])).parse().unwrap();
    assert!(program.items.is_empty());
    let program = Parser::<f64>::new(vec![]).parse().unwrap();
    assert!(program.items.is_empty());
}

#[test]
fn top_level_statement_is_an_error() {
    let toks = tokens(vec![T::Let, id("x"), T::Assign, T::Number(1.0), T::Semicolon]);
    let err = Parser::new(toks).parse().unwrap_err();
    assert_eq!(
        err,
        NomaError::ParseError { message: "Expected 'fn' or 'struct'".to_string(), line: 1, column: 1 }
    );
}

#[test]
fn missing_semicolon_is_an_error() {
    let toks = tokens(vec![T::Fn, id("f"), T::LParen, T::RParen, T::LBrace, T::Number(1.0), T::RBrace]);
    let err = Parser::new(toks).parse().unwrap_err();
    assert_eq!(
        err,
        NomaError::ParseError { message: "Expected ';'".to_string(), line: 1, column: 7 }
    );
}

#[test]
fn calling_a_number_is_an_error() {
    let toks = tokens(vec![
        T::Fn, id("f"), T::LParen, T::RParen, T::LBrace, T::Number(1.0), T::LParen, T::RParen, T::Semicolon, T::RBrace,
    ]);
    let err = Parser::new(toks).parse().unwrap_err();
    assert!(matches!(err, NomaError::ParseError { ref message, .. } if message == "Can only call identifiers"));
}

#[test]
fn unexpected_token_is_an_error() {
    let toks = tokens(vec![T::Fn, id("f"), T::LParen, T::RParen, T::LBrace, T::Star, T::Semicolon, T::RBrace]);
    let err = Parser::new(toks).parse().unwrap_err();
    assert_eq!(
        err,
        NomaError::ParseError { message: "Unexpected token".to_string(), line: 1, column: 6 }
    );
}
