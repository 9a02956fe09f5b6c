use sqlparser::ast::ASTNode;
use sqlparser::parser::Parser;
use sqlparser::token::{Token, ParserError};
use sqlparser::tokenizer::Tokenizer;

fn num(digits: &str) -> ASTNode {
    ASTNode::Number(String::from(digits))
}

fn tokens_of(sql: &str) -> Vec<Token> {
    let mut tokenizer = Tokenizer { query: String::from(sql) };
    tokenizer.tokenize().unwrap()
}

#[test]
fn multiplication_binds_tighter_than_addition() {
    let mut parser = Parser::new(tokens_of("1 + 2 * 3"));
    let ast = parser.parse().unwrap();
    assert_eq!(
        ASTNode::Binary(
            Token::Plus,
            Box::new(num("1")),
            Box::new(ASTNode::Binary(
                Token::Mult,
                Box::new(num("2")),
                Box::new(num("3")),
            )),
        ),
        ast
    );
}

#[test]
fn subtraction_associates_to_the_left() {
    let mut parser = Parser::new(tokens_of("1 - 2 - 3"));
    let ast = parser.parse().unwrap();
    assert_eq!(
        ASTNode::Binary(
            Token::Minus,
            Box::new(ASTNode::Binary(
                Token::Minus,
                Box::new(num("1")),
                Box::new(num("2")),
            )),
            Box::new(num("3")),
        ),
        ast
    );
}

#[test]
fn parentheses_override_precedence() {
    let tokens = vec![
        Token::LParen,
        Token::Number(String::from("1")),
        Token::Plus,
        Token::Number(String::from("2")),
        Token::RParen,
        Token::Mult,
        Token::Number(String::from("3")),
    ];
    let mut parser = Parser::new(tokens);
    let ast = parser.parse().unwrap();
    assert_eq!(
        ASTNode::Binary(
            Token::Mult,
            Box::new(ASTNode::Binary(
                Token::Plus,
                Box::new(num("1")),
                Box::new(num("2")),
            )),
            Box::new(num("3")),
        ),
        ast
    );
}

#[test]
fn unary_minus_wraps_a_prefix_term() {
    let mut parser = Parser::new(tokens_of("-1 * 2"));
    let ast = parser.parse().unwrap();
    assert_eq!(
        ASTNode::Binary(
            Token::Mult,
            Box::new(ASTNode::Unary(Token::Minus, Box::new(num("1")))),
            Box::new(num("2")),
        ),
        ast
    );
}

#[test]
fn comparison_binds_weakest() {
    let mut parser = Parser::new(tokens_of("a = 1 + 2"));
    let ast = parser.parse().unwrap();
    assert_eq!(
        ASTNode::Binary(
            Token::Eq,
            Box::new(ASTNode::Identifier(String::from("a"))),
            Box::new(ASTNode::Binary(
                Token::Plus,
                Box::new(num("1")),
                Box::new(num("2")),
            )),
        ),
        ast
    );
}

#[test]
fn missing_closing_paren_is_a_parser_error() {
    let tokens = vec![Token::LParen, Token::Number(String::from("1"))];
    let mut parser = Parser::new(tokens);
    match parser.parse() {
        Err(ParserError::ParserError(_)) => {}
        other => panic!("expected a parser error, got {:?}", other),
    }
}

#[test]
fn empty_token_sequence_is_a_parser_error() {
    let mut parser = Parser::new(Vec::new());
    match parser.parse() {
        Err(ParserError::ParserError(_)) => {}
        other => panic!("expected a parser error, got {:?}", other),
    }
}

#[test]
fn leading_binary_operator_is_a_parser_error() {
    let tokens = vec![Token::Mult, Token::Number(String::from("1"))];
    let mut parser = Parser::new(tokens);
    match parser.parse() {
        Err(ParserError::ParserError(_)) => {}
        other => panic!("expected a parser error, got {:?}", other),
    }
}

#[test]
fn leading_keyword_is_a_parser_error() {
    let tokens = vec![Token::Keyword(String::from("SELECT"))];
    let mut parser = Parser::new(tokens);
    match parser.parse() {
        Err(ParserError::ParserError(_)) => {}
        other => panic!("expected a parser error, got {:?}", other),
    }
}

#[test]
fn parse_stops_before_a_non_operator_token() {
    let tokens = vec![
        Token::Number(String::from("1")),
        Token::Keyword(String::from("FROM")),
    ];
    let mut parser = Parser::new(tokens);
    assert_eq!(num("1"), parser.parse().unwrap());
    // the keyword was peeked at, not consumed
    assert_eq!(Some(Token::Keyword(String::from("FROM"))), parser.next_token());
}

#[test]
fn parse_leaves_the_cursor_just_past_the_expression() {
    let tokens = vec![
        Token::Number(String::from("1")),
        Token::Number(String::from("2")),
    ];
    let mut parser = Parser::new(tokens);
    assert_eq!(num("1"), parser.parse().unwrap());
    assert_eq!(num("2"), parser.parse().unwrap());
}

#[test]
fn division_and_multiplication_associate_to_the_left() {
    let mut parser = Parser::new(tokens_of("8 / 4 * 2"));
    let ast = parser.parse().unwrap();
    assert_eq!(
        ASTNode::Binary(
            Token::Mult,
            Box::new(ASTNode::Binary(
                Token::Div,
                Box::new(num("8")),
                Box::new(num("4")),
            )),
            Box::new(num("2")),
        ),
        ast
    );
}

#[test]
fn unary_plus_wraps_a_prefix_term() {
    let mut parser = Parser::new(tokens_of("+7"));
    let ast = parser.parse().unwrap();
    assert_eq!(ASTNode::Unary(Token::Plus, Box::new(num("7"))), ast);
}

#[test]
fn nested_parentheses_parse_recursively() {
    let tokens = vec![
        Token::LParen,
        Token::LParen,
        Token::Number(String::from("5")),
        Token::RParen,
        Token::RParen,
    ];
    let mut parser = Parser::new(tokens);
    assert_eq!(num("5"), parser.parse().unwrap());
}
