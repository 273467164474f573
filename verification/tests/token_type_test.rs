use pygmaea::token_type::{keywords, TokenType};

const TOKEN_TYPES: [TokenType; 27] = [
    TokenType::Plus,
    TokenType::Minus,
    TokenType::Asterisk,
    TokenType::Slash,
    TokenType::Assign,
    TokenType::Bang,
    TokenType::LessThan,
    TokenType::GreaterThan,
    TokenType::Equal,
    TokenType::NotEqual,
    TokenType::Comma,
    TokenType::Semicolon,
    TokenType::LParen,
    TokenType::RParen,
    TokenType::LBrace,
    TokenType::RBrace,
    TokenType::True,
    TokenType::False,
    TokenType::Let,
    TokenType::Function,
    TokenType::If,
    TokenType::Else,
    TokenType::Return,
    TokenType::Int,
    TokenType::Ident,
    TokenType::EOF,
    TokenType::Illegal,
];

const KEYWORD_TOKEN_TYPES: [TokenType; 8] = [
    TokenType::True,
    TokenType::False,
    TokenType::Let,
    TokenType::Function,
    TokenType::If,
    TokenType::Else,
    TokenType::Return,
    TokenType::Ident,
];

#[test]
fn token_type_test_test_is_keyword() {
    TOKEN_TYPES.iter().for_each(|token_type| {
        assert_eq!(
            KEYWORD_TOKEN_TYPES.contains(token_type),
            token_type.is_keyword()
        );
    })
}

#[test]
fn token_type_test_test_is_int() {
    TOKEN_TYPES.iter().for_each(|token_type| {
        assert_eq!(token_type == &TokenType::Int, token_type.is_int());
    })
}

#[test]
fn token_type_test_test_is_eof() {
    TOKEN_TYPES.iter().for_each(|token_type| {
        assert_eq!(token_type == &TokenType::EOF, token_type.is_eof());
    })
}

#[test]
fn token_type_test_test_default() {
    let token_type: TokenType = TokenType::default();
    assert_eq!(token_type, TokenType::Illegal);
}

#[test]
fn token_type_test_test_keyword() {
    keywords().iter().for_each(|(_, keyword)| {
        assert!(KEYWORD_TOKEN_TYPES.contains(keyword));
    })
}

#[test]
fn token_type_test_test_display() {
    TOKEN_TYPES.iter().for_each(|token_type| match token_type {
        TokenType::Plus => assert_eq!("Plus", token_type.to_string()),
        TokenType::Minus => assert_eq!("Minus", token_type.to_string()),
        TokenType::Asterisk => assert_eq!("Asterisk", token_type.to_string()),
        TokenType::Slash => assert_eq!("Slash", token_type.to_string()),
        TokenType::Assign => assert_eq!("Assign", token_type.to_string()),
        TokenType::Bang => assert_eq!("Bang", token_type.to_string()),
        TokenType::LessThan => assert_eq!("LessThan", token_type.to_string()),
        TokenType::GreaterThan => assert_eq!("GreaterThan", token_type.to_string()),
        TokenType::Equal => assert_eq!("Equal", token_type.to_string()),
        TokenType::NotEqual => assert_eq!("NotEqual", token_type.to_string()),
        TokenType::LParen => assert_eq!("LParen", token_type.to_string()),
        TokenType::RParen => assert_eq!("RParen", token_type.to_string()),
        TokenType::LBrace => assert_eq!("LBrace", token_type.to_string()),
        TokenType::RBrace => assert_eq!("RBrace", token_type.to_string()),
        TokenType::Comma => assert_eq!("Comma", token_type.to_string()),
        TokenType::Semicolon => assert_eq!("Semicolon", token_type.to_string()),
        TokenType::True => assert_eq!("True", token_type.to_string()),
        TokenType::False => assert_eq!("False", token_type.to_string()),
        TokenType::Let => assert_eq!("Let", token_type.to_string()),
        TokenType::Function => assert_eq!("Function", token_type.to_string()),
        TokenType::If => assert_eq!("If", token_type.to_string()),
        TokenType::Else => assert_eq!("Else", token_type.to_string()),
        TokenType::Return => assert_eq!("Return", token_type.to_string()),
        TokenType::Int => assert_eq!("Int", token_type.to_string()),
        TokenType::Ident => assert_eq!("Ident", token_type.to_string()),
        TokenType::EOF => assert_eq!("EOF", token_type.to_string()),
        TokenType::Illegal => assert_eq!("Illegal", token_type.to_string()),
    });
}

#[test]
fn token_type_test_is_keyword() {
    TOKEN_TYPES.iter().for_each(|token_type| {
        assert_eq!(
            KEYWORD_TOKEN_TYPES.contains(token_type),
            token_type.is_keyword()
        );
    })
}

#[test]
fn token_type_test_is_int() {
    TOKEN_TYPES.iter().for_each(|token_type| {
        assert_eq!(token_type == &TokenType::Int, token_type.is_int());
    })
}

#[test]
fn token_type_test_is_eof() {
    TOKEN_TYPES.iter().for_each(|token_type| {
        assert_eq!(token_type == &TokenType::EOF, token_type.is_eof());
    })
}

#[test]
fn token_type_test_default() {
    let token_type: TokenType = TokenType::default();
    assert_eq!(token_type, TokenType::Illegal);
}

#[test]
fn token_type_test_keyword() {
    keywords().iter().for_each(|(_, keyword)| {
        assert!(KEYWORD_TOKEN_TYPES.contains(keyword));
    })
}

#[test]
fn token_type_test_display() {
    TOKEN_TYPES.iter().for_each(|token_type| match token_type {
        TokenType::Plus => assert_eq!("Plus", token_type.to_string()),
        TokenType::Minus => assert_eq!("Minus", token_type.to_string()),
        TokenType::Asterisk => assert_eq!("Asterisk", token_type.to_string()),
        TokenType::Slash => assert_eq!("Slash", token_type.to_string()),
        TokenType::Assign => assert_eq!("Assign", token_type.to_string()),
        TokenType::Bang => assert_eq!("Bang", token_type.to_string()),
        TokenType::LessThan => assert_eq!("LessThan", token_type.to_string()),
        TokenType::GreaterThan => assert_eq!("GreaterThan", token_type.to_string()),
        TokenType::Equal => assert_eq!("Equal", token_type.to_string()),
        TokenType::NotEqual => assert_eq!("NotEqual", token_type.to_string()),
        TokenType::LParen => assert_eq!("LParen", token_type.to_string()),
        TokenType::RParen => assert_eq!("RParen", token_type.to_string()),
        TokenType::LBrace => assert_eq!("LBrace", token_type.to_string()),
        TokenType::RBrace => assert_eq!("RBrace", token_type.to_string()),
        TokenType::Comma => assert_eq!("Comma", token_type.to_string()),
        TokenType::Semicolon => assert_eq!("Semicolon", token_type.to_string()),
        TokenType::True => assert_eq!("True", token_type.to_string()),
        TokenType::False => assert_eq!("False", token_type.to_string()),
        TokenType::Let => assert_eq!("Let", token_type.to_string()),
        TokenType::Function => assert_eq!("Function", token_type.to_string()),
        TokenType::If => assert_eq!("If", token_type.to_string()),
        TokenType::Else => assert_eq!("Else", token_type.to_string()),
        TokenType::Return => assert_eq!("Return", token_type.to_string()),
        TokenType::Int => assert_eq!("Int", token_type.to_string()),
        TokenType::Ident => assert_eq!("Ident", token_type.to_string()),
        TokenType::EOF => assert_eq!("EOF", token_type.to_string()),
        TokenType::Illegal => assert_eq!("Illegal", token_type.to_string()),
    });
}

#[test]
fn keywords_lists_each_reserved_word_with_its_category() {
    let table = keywords();
    assert_eq!(
        table,
        vec![
            ("true", TokenType::True),
            ("false", TokenType::False),
            ("let", TokenType::Let),
            ("fn", TokenType::Function),
            ("if", TokenType::If),
            ("else", TokenType::Else),
            ("return", TokenType::Return),
        ]
    );
}
