use crate::token_type::TokenType;
use vstd::prelude::*;
use vstd::std_specs::cmp::PartialEqSpecImpl;

verus! {

/// What a token is to a contract: its category and the characters of its
/// literal.
pub struct TokenView {
    pub token_type: TokenType,
    pub literal: Seq<char>,
}

/// A lexical unit: a category and the exact source text that was matched.
#[derive(Debug)]
pub struct Token {
    pub token_type: TokenType,
    pub literal: String,
}

impl View for Token {
    type V = TokenView;

    open spec fn view(&self) -> TokenView {
        TokenView { token_type: self.token_type, literal: self.literal@ }
    }
}

impl TokenView {
    /// The printed form of a token.
    pub open spec fn render(self) -> Seq<char> {
        "[Type:"@ + self.token_type.name() + ", Literal: "@ + self.literal + "]"@
    }
}

impl Token {
    pub fn new(token_type: TokenType, literal: String) -> (token: Self)
        ensures
            token.token_type == token_type,
            token.literal == literal,
    {
        Self { token_type, literal }
    }

    /// The printed form of the token, with its category by name.
    pub fn to_string(&self) -> (s: String)
        ensures
            s@ == self@.render(),
    {
        let mut s = "[Type:".to_owned();
        s.append(self.token_type.to_string().as_str());
        s.append(", Literal: ");
        s.append(self.literal.as_str());
        s.append("]");
        s
    }
}

impl Clone for Token {
    fn clone(&self) -> (token: Self)
        ensures
            token == *self,
    {
        Token { token_type: self.token_type, literal: self.literal.clone() }
    }
}

impl Default for Token {
    /// An `Illegal` token with no text.
    fn default() -> (token: Self)
        ensures
            token@ == (TokenView { token_type: TokenType::Illegal, literal: Seq::empty() }),
    {
        Token { token_type: TokenType::Illegal, literal: String::new() }
    }
}

impl PartialEq for Token {
    fn eq(&self, other: &Self) -> (b: bool) {
        self.token_type == other.token_type && self.literal == other.literal
    }
}

impl Eq for Token {

}

impl PartialEqSpecImpl for Token {
    open spec fn obeys_eq_spec() -> bool {
        true
    }

    /// Two tokens are equal when both fields match.
    open spec fn eq_spec(&self, other: &Self) -> bool {
        self.token_type == other.token_type && self.literal@ == other.literal@
    }
}

} // verus!
