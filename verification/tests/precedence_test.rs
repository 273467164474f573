use pygmaea::precedence::Precedence;
use pygmaea::token_type::TokenType;

const LEVELS: [Precedence; 7] = [
    Precedence::Lowest,
    Precedence::Equals,
    Precedence::LessGreater,
    Precedence::Sum,
    Precedence::Product,
    Precedence::Prefix,
    Precedence::Call,
];

#[test]
fn the_levels_are_ordered_from_lowest_to_call() {
    for (i, low) in LEVELS.iter().enumerate() {
        for (j, high) in LEVELS.iter().enumerate() {
            assert_eq!(i < j, low < high);
            assert_eq!(i == j, low == high);
            assert_eq!(i > j, low > high);
            assert_eq!(i.cmp(&j), low.cmp(high));
            assert_eq!(Some(i.cmp(&j)), low.partial_cmp(high));
        }
    }
}

#[test]
fn priority_is_the_place_in_the_order() {
    assert_eq!(0, Precedence::Lowest.priority());
    assert_eq!(1, Precedence::Equals.priority());
    assert_eq!(2, Precedence::LessGreater.priority());
    assert_eq!(3, Precedence::Sum.priority());
    assert_eq!(4, Precedence::Product.priority());
    assert_eq!(5, Precedence::Prefix.priority());
    assert_eq!(6, Precedence::Call.priority());
}

#[test]
fn each_binary_operator_has_its_level() {
    assert_eq!(
        Some(Precedence::Equals),
        Precedence::look_up_by(TokenType::Equal)
    );
    assert_eq!(
        Some(Precedence::Equals),
        Precedence::look_up_by(TokenType::NotEqual)
    );
    assert_eq!(
        Some(Precedence::LessGreater),
        Precedence::look_up_by(TokenType::LessThan)
    );
    assert_eq!(
        Some(Precedence::LessGreater),
        Precedence::look_up_by(TokenType::GreaterThan)
    );
    assert_eq!(
        Some(Precedence::Sum),
        Precedence::look_up_by(TokenType::Plus)
    );
    assert_eq!(
        Some(Precedence::Sum),
        Precedence::look_up_by(TokenType::Minus)
    );
    assert_eq!(
        Some(Precedence::Product),
        Precedence::look_up_by(TokenType::Slash)
    );
    assert_eq!(
        Some(Precedence::Product),
        Precedence::look_up_by(TokenType::Asterisk)
    );
}

#[test]
fn no_other_category_has_a_level() {
    for token_type in [
        TokenType::Assign,
        TokenType::Bang,
        TokenType::Comma,
        TokenType::Semicolon,
        TokenType::LParen,
        TokenType::RParen,
        TokenType::LBrace,
        TokenType::RBrace,
        TokenType::True,
        TokenType::False,
        TokenType::Let,
        TokenType::Function,
        TokenType::If,
        TokenType::Else,
        TokenType::Return,
        TokenType::Int,
        TokenType::Ident,
        TokenType::EOF,
        TokenType::Illegal,
    ] {
        assert_eq!(None, Precedence::look_up_by(token_type));
    }
}
