use pygmaea::token::Token;
use pygmaea::token_type::TokenType;

#[test]
fn new_keeps_the_category_and_the_text() {
    let token = Token::new(TokenType::Ident, "five".to_string());
    assert_eq!(TokenType::Ident, token.token_type);
    assert_eq!("five", token.literal);
}

#[test]
fn tokens_are_equal_when_both_fields_match() {
    let token = Token::new(TokenType::Ident, "five".to_string());
    assert_eq!(token, Token::new(TokenType::Ident, "five".to_string()));
    assert_ne!(token, Token::new(TokenType::Ident, "six".to_string()));
    assert_ne!(token, Token::new(TokenType::Int, "five".to_string()));
    assert_eq!(token, token.clone());
}

#[test]
fn the_default_token_is_illegal_and_empty() {
    assert_eq!(
        Token::new(TokenType::Illegal, "".to_string()),
        Token::default()
    );
}

#[test]
fn a_token_prints_with_its_category_and_its_text() {
    assert_eq!(
        "[Type:Let, Literal: let]",
        Token::new(TokenType::Let, "let".to_string()).to_string()
    );
    assert_eq!(
        "[Type:EOF, Literal: ]",
        Token::new(TokenType::EOF, "".to_string()).to_string()
    );
    assert_eq!(
        "[Type:NotEqual, Literal: !=]",
        Token::new(TokenType::NotEqual, "!=".to_string()).to_string()
    );
}
