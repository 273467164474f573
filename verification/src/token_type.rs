use vstd::prelude::*;

verus! {

/// The closed set of lexical categories.
#[derive(Debug, Eq, PartialEq, Clone, Copy, Hash, Structural)]
pub enum TokenType {
    Plus,
    Minus,
    Asterisk,
    Slash,
    Assign,
    Bang,
    LessThan,
    GreaterThan,
    Equal,
    NotEqual,
    Comma,
    Semicolon,
    LParen,
    RParen,
    LBrace,
    RBrace,
    True,
    False,
    Let,
    Function,
    If,
    Else,
    Return,
    Int,
    Ident,
    EOF,
    Illegal,
}

impl TokenType {
    /// Categories whose text is a run of letters: the keywords and `Ident`.
    pub open spec fn spec_is_keyword(self) -> bool {
        self == TokenType::True || self == TokenType::False || self == TokenType::Let || self
            == TokenType::Function || self == TokenType::If || self == TokenType::Else || self
            == TokenType::Return || self == TokenType::Ident
    }

    /// The name under which a category is printed.
    pub open spec fn name(self) -> Seq<char> {
        match self {
            TokenType::Plus => "Plus"@,
            TokenType::Minus => "Minus"@,
            TokenType::Asterisk => "Asterisk"@,
            TokenType::Slash => "Slash"@,
            TokenType::Assign => "Assign"@,
            TokenType::Bang => "Bang"@,
            TokenType::LessThan => "LessThan"@,
            TokenType::GreaterThan => "GreaterThan"@,
            TokenType::Equal => "Equal"@,
            TokenType::NotEqual => "NotEqual"@,
            TokenType::Comma => "Comma"@,
            TokenType::Semicolon => "Semicolon"@,
            TokenType::LParen => "LParen"@,
            TokenType::RParen => "RParen"@,
            TokenType::LBrace => "LBrace"@,
            TokenType::RBrace => "RBrace"@,
            TokenType::True => "True"@,
            TokenType::False => "False"@,
            TokenType::Let => "Let"@,
            TokenType::Function => "Function"@,
            TokenType::If => "If"@,
            TokenType::Else => "Else"@,
            TokenType::Return => "Return"@,
            TokenType::Int => "Int"@,
            TokenType::Ident => "Ident"@,
            TokenType::EOF => "EOF"@,
            TokenType::Illegal => "Illegal"@,
        }
    }

    #[verifier::when_used_as_spec(spec_is_keyword)]
    pub fn is_keyword(self) -> (b: bool)
        ensures
            b == self.spec_is_keyword(),
    {
        match self {
            TokenType::True
            | TokenType::False
            | TokenType::Let
            | TokenType::Function
            | TokenType::If
            | TokenType::Else
            | TokenType::Return
            | TokenType::Ident => true,
            _ => false,
        }
    }

    pub fn is_int(self) -> (b: bool)
        ensures
            b == (self == TokenType::Int),
    {
        self == TokenType::Int
    }

    pub fn is_eof(self) -> (b: bool)
        ensures
            b == (self == TokenType::EOF),
    {
        self == TokenType::EOF
    }

    /// The printed form of a category: its variant's name.
    pub fn to_string(&self) -> (s: String)
        ensures
            s@ == self.name(),
    {
        let name = match self {
            TokenType::Plus => "Plus",
            TokenType::Minus => "Minus",
            TokenType::Asterisk => "Asterisk",
            TokenType::Slash => "Slash",
            TokenType::Assign => "Assign",
            TokenType::Bang => "Bang",
            TokenType::LessThan => "LessThan",
            TokenType::GreaterThan => "GreaterThan",
            TokenType::Equal => "Equal",
            TokenType::NotEqual => "NotEqual",
            TokenType::Comma => "Comma",
            TokenType::Semicolon => "Semicolon",
            TokenType::LParen => "LParen",
            TokenType::RParen => "RParen",
            TokenType::LBrace => "LBrace",
            TokenType::RBrace => "RBrace",
            TokenType::True => "True",
            TokenType::False => "False",
            TokenType::Let => "Let",
            TokenType::Function => "Function",
            TokenType::If => "If",
            TokenType::Else => "Else",
            TokenType::Return => "Return",
            TokenType::Int => "Int",
            TokenType::Ident => "Ident",
            TokenType::EOF => "EOF",
            TokenType::Illegal => "Illegal",
        };
        name.to_owned()
    }
}

/// The category of a reserved word, if `word` is one.
pub open spec fn keyword_type(word: Seq<char>) -> Option<TokenType> {
    if word == "true"@ {
        Some(TokenType::True)
    } else if word == "false"@ {
        Some(TokenType::False)
    } else if word == "let"@ {
        Some(TokenType::Let)
    } else if word == "fn"@ {
        Some(TokenType::Function)
    } else if word == "if"@ {
        Some(TokenType::If)
    } else if word == "else"@ {
        Some(TokenType::Else)
    } else if word == "return"@ {
        Some(TokenType::Return)
    } else {
        None
    }
}

/// The reserved words, character by character.
pub proof fn lemma_keyword_texts()
    ensures
        "true"@ == seq!['t', 'r', 'u', 'e'],
        "false"@ == seq!['f', 'a', 'l', 's', 'e'],
        "let"@ == seq!['l', 'e', 't'],
        "fn"@ == seq!['f', 'n'],
        "if"@ == seq!['i', 'f'],
        "else"@ == seq!['e', 'l', 's', 'e'],
        "return"@ == seq!['r', 'e', 't', 'u', 'r', 'n'],
{
    reveal_strlit("true");
    reveal_strlit("false");
    reveal_strlit("let");
    reveal_strlit("fn");
    reveal_strlit("if");
    reveal_strlit("else");
    reveal_strlit("return");
    assert("true"@ =~= seq!['t', 'r', 'u', 'e']);
    assert("false"@ =~= seq!['f', 'a', 'l', 's', 'e']);
    assert("let"@ =~= seq!['l', 'e', 't']);
    assert("fn"@ =~= seq!['f', 'n']);
    assert("if"@ =~= seq!['i', 'f']);
    assert("else"@ =~= seq!['e', 'l', 's', 'e']);
    assert("return"@ =~= seq!['r', 'e', 't', 'u', 'r', 'n']);
}

/// Each reserved word has the category that the table gives it.
pub proof fn lemma_keyword_types()
    ensures
        keyword_type("true"@) == Some(TokenType::True),
        keyword_type("false"@) == Some(TokenType::False),
        keyword_type("let"@) == Some(TokenType::Let),
        keyword_type("fn"@) == Some(TokenType::Function),
        keyword_type("if"@) == Some(TokenType::If),
        keyword_type("else"@) == Some(TokenType::Else),
        keyword_type("return"@) == Some(TokenType::Return),
{
    lemma_keyword_texts();
    assert(seq!['t', 'r', 'u', 'e'].len() == 4);
    assert(seq!['f', 'a', 'l', 's', 'e'].len() == 5);
    assert(seq!['l', 'e', 't'].len() == 3);
    assert(seq!['f', 'n'].len() == 2);
    assert(seq!['i', 'f'].len() == 2);
    assert(seq!['e', 'l', 's', 'e'].len() == 4);
    assert(seq!['r', 'e', 't', 'u', 'r', 'n'].len() == 6);
    assert(seq!['e', 'l', 's', 'e'][0] != seq!['t', 'r', 'u', 'e'][0]);
    assert(seq!['i', 'f'][0] != seq!['f', 'n'][0]);
}

/// The reserved words, each with its category.
pub fn keywords() -> (table: Vec<(&'static str, TokenType)>)
    ensures
        table@.len() == 7,
        forall|i: int|
            0 <= i < table@.len() ==> keyword_type((#[trigger] table@[i]).0@) == Some(table@[i].1),
        forall|word: Seq<char>| #[trigger]
            keyword_type(word) is Some ==> exists|i: int|
                0 <= i < table@.len() && (#[trigger] table@[i]).0@ == word,
{
    let table = vec![
        ("true", TokenType::True),
        ("false", TokenType::False),
        ("let", TokenType::Let),
        ("fn", TokenType::Function),
        ("if", TokenType::If),
        ("else", TokenType::Else),
        ("return", TokenType::Return),
    ];
    proof {
        lemma_keyword_types();
        assert forall|word: Seq<char>| #[trigger] keyword_type(word) is Some implies exists|i: int|
            0 <= i < table@.len() && (#[trigger] table@[i]).0@ == word by {
            if word == "true"@ {
                assert(table@[0].0@ == word);
            } else if word == "false"@ {
                assert(table@[1].0@ == word);
            } else if word == "let"@ {
                assert(table@[2].0@ == word);
            } else if word == "fn"@ {
                assert(table@[3].0@ == word);
            } else if word == "if"@ {
                assert(table@[4].0@ == word);
            } else if word == "else"@ {
                assert(table@[5].0@ == word);
            } else {
                assert(table@[6].0@ == word);
            }
        }
    }
    table
}

impl Default for TokenType {
    fn default() -> (t: Self)
        ensures
            t == TokenType::Illegal,
    {
        TokenType::Illegal
    }
}

} // verus!
