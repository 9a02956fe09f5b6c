use sqlparser::token::{Token, ParserError};
use sqlparser::tokenizer::Tokenizer;

#[test]
fn tokenize_select_1() {
    let sql = String::from("SELECT 1");
    let mut tokenizer = Tokenizer { query: sql };
    let tokens = tokenizer.tokenize().unwrap();
    println!("tokens = {:?}", tokens);
    assert_eq!(2, tokens.len());
    assert_eq!(Token::Keyword(String::from("SELECT")), tokens[0]);
    assert_eq!(Token::Number(String::from("1")), tokens[1]);
}

#[test]
fn tokenize_simple_select() {
    let sql = String::from("SELECT * FROM customer WHERE id = 1");
    let mut tokenizer = Tokenizer { query: sql };
    let tokens = tokenizer.tokenize().unwrap();
    println!("tokens = {:?}", tokens);
    assert_eq!(8, tokens.len());
    assert_eq!(Token::Keyword(String::from("SELECT")), tokens[0]);
    assert_eq!(Token::Mult, tokens[1]);
    assert_eq!(Token::Keyword(String::from("FROM")), tokens[2]);
    assert_eq!(Token::Identifier(String::from("customer")), tokens[3]);
    assert_eq!(Token::Keyword(String::from("WHERE")), tokens[4]);
    assert_eq!(Token::Identifier(String::from("id")), tokens[5]);
    assert_eq!(Token::Eq, tokens[6]);
    assert_eq!(Token::Number(String::from("1")), tokens[7]);
}

#[test]
fn tokenize_lt_eq_compound() {
    let mut tokenizer = Tokenizer { query: String::from("a <= b") };
    let tokens = tokenizer.tokenize().unwrap();
    assert_eq!(
        vec![
            Token::Identifier(String::from("a")),
            Token::LtEq,
            Token::Identifier(String::from("b")),
        ],
        tokens
    );
}

#[test]
fn tokenize_neq_compound() {
    let mut tokenizer = Tokenizer { query: String::from("a <> b") };
    let tokens = tokenizer.tokenize().unwrap();
    assert_eq!(
        vec![
            Token::Identifier(String::from("a")),
            Token::Neq,
            Token::Identifier(String::from("b")),
        ],
        tokens
    );
}

#[test]
fn tokenize_gt_eq_compound() {
    let mut tokenizer = Tokenizer { query: String::from("a >= 10") };
    let tokens = tokenizer.tokenize().unwrap();
    assert_eq!(
        vec![
            Token::Identifier(String::from("a")),
            Token::GtEq,
            Token::Number(String::from("10")),
        ],
        tokens
    );
}

#[test]
fn tokenize_trailing_lt_is_lt() {
    let mut tokenizer = Tokenizer { query: String::from("a <") };
    let tokens = tokenizer.tokenize().unwrap();
    assert_eq!(vec![Token::Identifier(String::from("a")), Token::Lt], tokens);
}

#[test]
fn tokenize_trailing_gt_is_gt() {
    let mut tokenizer = Tokenizer { query: String::from("a >") };
    let tokens = tokenizer.tokenize().unwrap();
    assert_eq!(vec![Token::Identifier(String::from("a")), Token::Gt], tokens);
}

#[test]
fn whitespace_is_fully_elided() {
    let mut one = Tokenizer { query: String::from("SELECT 1") };
    let mut two = Tokenizer { query: String::from("SELECT  1") };
    assert_eq!(one.tokenize().unwrap(), two.tokenize().unwrap());
}

#[test]
fn tabs_and_newlines_are_elided() {
    let mut one = Tokenizer { query: String::from("SELECT 1") };
    let mut two = Tokenizer { query: String::from("SELECT\t\n 1") };
    assert_eq!(one.tokenize().unwrap(), two.tokenize().unwrap());
}

#[test]
fn unrecognized_character_fails() {
    let mut tokenizer = Tokenizer { query: String::from("SELECT 1 % 2") };
    match tokenizer.tokenize() {
        Err(ParserError::TokenizerError(m)) => {
            assert_eq!("unhandled char '%' in tokenizer", m);
        }
        other => panic!("expected a tokenizer error, got {:?}", other),
    }
}

#[test]
fn lparen_is_not_a_recognized_character() {
    let mut tokenizer = Tokenizer { query: String::from("(1)") };
    match tokenizer.tokenize() {
        Err(ParserError::TokenizerError(m)) => {
            assert_eq!("unhandled char '(' in tokenizer", m);
        }
        other => panic!("expected a tokenizer error, got {:?}", other),
    }
}

#[test]
fn retokenizing_the_same_input_is_equal() {
    let sql = "SELECT * FROM customer WHERE id = 1";
    let mut one = Tokenizer { query: String::from(sql) };
    let mut two = Tokenizer { query: String::from(sql) };
    assert_eq!(one.tokenize().unwrap(), two.tokenize().unwrap());
}

#[test]
fn keywords_match_case_insensitively() {
    let mut tokenizer = Tokenizer { query: String::from("select x") };
    let tokens = tokenizer.tokenize().unwrap();
    assert_eq!(
        vec![
            Token::Keyword(String::from("select")),
            Token::Identifier(String::from("x")),
        ],
        tokens
    );
}

#[test]
fn at_sign_starts_an_identifier() {
    let mut tokenizer = Tokenizer { query: String::from("@id_9") };
    let tokens = tokenizer.tokenize().unwrap();
    assert_eq!(vec![Token::Identifier(String::from("@id_9"))], tokens);
}

#[test]
fn digit_runs_are_single_numbers() {
    let mut tokenizer = Tokenizer { query: String::from("12 345+6") };
    let tokens = tokenizer.tokenize().unwrap();
    assert_eq!(
        vec![
            Token::Number(String::from("12")),
            Token::Number(String::from("345")),
            Token::Plus,
            Token::Number(String::from("6")),
        ],
        tokens
    );
}

#[test]
fn empty_input_yields_no_tokens() {
    let mut tokenizer = Tokenizer { query: String::from("") };
    let tokens = tokenizer.tokenize().unwrap();
    assert_eq!(0, tokens.len());
}

#[test]
fn operators_need_no_whitespace() {
    let mut tokenizer = Tokenizer { query: String::from("a<=b<>c<d") };
    let tokens = tokenizer.tokenize().unwrap();
    assert_eq!(
        vec![
            Token::Identifier(String::from("a")),
            Token::LtEq,
            Token::Identifier(String::from("b")),
            Token::Neq,
            Token::Identifier(String::from("c")),
            Token::Lt,
            Token::Identifier(String::from("d")),
        ],
        tokens
    );
}
