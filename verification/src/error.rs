//! The diagnostics that the parser records.
use crate::token::{Token, TokenView};
use crate::token_type::TokenType;
use vstd::prelude::*;

verus! {

/// A diagnostic: what went wrong at one place of the input.
#[derive(Debug)]
pub enum ParseError {
    /// A token was expected and there was none.
    NoneToken,
    /// The category that the grammar asks for at this place, and the token
    /// that was found ahead.
    PeekToken(TokenType, Option<Box<Token>>),
    /// A statement rule gave up.
    Statement(ParseStatementError),
    /// An expression rule gave up.
    Expression(ParseExpressionError),
}

/// The statement rule that gave up.
#[derive(Debug, Clone, Copy, PartialEq, Eq, Structural)]
pub enum ParseStatementError {
    Let,
    Return,
    Expression,
}

/// The expression rule that gave up.
#[derive(Debug)]
pub enum ParseExpressionError {
    /// No expression starts with this token.
    NoPrefix(Option<Box<Token>>),
    Prefix,
    Infix,
    Boolean,
}

pub enum ParseExpressionErrorView {
    NoPrefix(Option<TokenView>),
    Prefix,
    Infix,
    Boolean,
}

pub enum ParseErrorView {
    NoneToken,
    PeekToken(TokenType, Option<TokenView>),
    Statement(ParseStatementError),
    Expression(ParseExpressionErrorView),
}

/// The message for a diagnostic that has no wording of its own.
pub open spec fn unmatched_message() -> Seq<char> {
    "occur something error that does not to be catched any patterns."@
}

impl ParseStatementError {
    pub open spec fn message(self) -> Seq<char> {
        match self {
            ParseStatementError::Let => "failed to parse LetStatement."@,
            ParseStatementError::Return => "failed to parse ReturnStatement."@,
            ParseStatementError::Expression => "failed to parse ExpressionStatement."@,
        }
    }

    /// The message of the diagnostic.
    pub fn to_string(&self) -> (s: String)
        ensures
            s@ == self.message(),
    {
        match self {
            ParseStatementError::Let => "failed to parse LetStatement.".to_owned(),
            ParseStatementError::Return => "failed to parse ReturnStatement.".to_owned(),
            ParseStatementError::Expression => "failed to parse ExpressionStatement.".to_owned(),
        }
    }
}

impl ParseExpressionErrorView {
    pub open spec fn message(self) -> Seq<char> {
        match self {
            ParseExpressionErrorView::NoPrefix(Some(token)) => "no prefix parse for "@
                + token.token_type.name() + "."@,
            ParseExpressionErrorView::Prefix => "failed to parse prefix."@,
            ParseExpressionErrorView::Infix => "failed to parse infix expression."@,
            ParseExpressionErrorView::Boolean => "failed to parse boolean."@,
            ParseExpressionErrorView::NoPrefix(None) => unmatched_message(),
        }
    }
}

impl View for ParseExpressionError {
    type V = ParseExpressionErrorView;

    open spec fn view(&self) -> ParseExpressionErrorView {
        match self {
            ParseExpressionError::NoPrefix(Some(token)) => ParseExpressionErrorView::NoPrefix(
                Some(token@),
            ),
            ParseExpressionError::NoPrefix(None) => ParseExpressionErrorView::NoPrefix(None),
            ParseExpressionError::Prefix => ParseExpressionErrorView::Prefix,
            ParseExpressionError::Infix => ParseExpressionErrorView::Infix,
            ParseExpressionError::Boolean => ParseExpressionErrorView::Boolean,
        }
    }
}

impl ParseExpressionError {
    /// The message of the diagnostic; it names the category of the token
    /// that no expression starts with.
    pub fn to_string(&self) -> (s: String)
        ensures
            s@ == self@.message(),
    {
        match self {
            ParseExpressionError::NoPrefix(Some(token)) => {
                let mut s = "no prefix parse for ".to_owned();
                s.append(token.token_type.to_string().as_str());
                s.append(".");
                s
            },
            ParseExpressionError::Prefix => "failed to parse prefix.".to_owned(),
            ParseExpressionError::Infix => "failed to parse infix expression.".to_owned(),
            ParseExpressionError::Boolean => "failed to parse boolean.".to_owned(),
            _ => "occur something error that does not to be catched any patterns.".to_owned(),
        }
    }
}

impl ParseErrorView {
    pub open spec fn message(self) -> Seq<char> {
        match self {
            ParseErrorView::NoneToken => "expected token to be exist. got None instead."@,
            ParseErrorView::PeekToken(expect, Some(actual)) => "expected next token to be "@
                + expect.name() + ", got "@ + actual.token_type.name() + " instead."@,
            ParseErrorView::Expression(e) => e.message(),
            ParseErrorView::PeekToken(_, None) => unmatched_message(),
            ParseErrorView::Statement(_) => unmatched_message(),
        }
    }
}

impl View for ParseError {
    type V = ParseErrorView;

    open spec fn view(&self) -> ParseErrorView {
        match self {
            ParseError::NoneToken => ParseErrorView::NoneToken,
            ParseError::PeekToken(expect, Some(actual)) => ParseErrorView::PeekToken(
                *expect,
                Some(actual@),
            ),
            ParseError::PeekToken(expect, None) => ParseErrorView::PeekToken(*expect, None),
            ParseError::Statement(e) => ParseErrorView::Statement(*e),
            ParseError::Expression(e) => ParseErrorView::Expression(e@),
        }
    }
}

impl ParseError {
    /// The message of the diagnostic. A statement rule that gave up, and a
    /// lookahead of which no token is known, have no wording of their own.
    pub fn to_string(&self) -> (s: String)
        ensures
            s@ == self@.message(),
    {
        match self {
            ParseError::NoneToken => "expected token to be exist. got None instead.".to_owned(),
            ParseError::PeekToken(expect, Some(actual)) => {
                let mut s = "expected next token to be ".to_owned();
                s.append(expect.to_string().as_str());
                s.append(", got ");
                s.append(actual.token_type.to_string().as_str());
                s.append(" instead.");
                s
            },
            ParseError::Expression(e) => e.to_string(),
            _ => "occur something error that does not to be catched any patterns.".to_owned(),
        }
    }
}

/// The views of the diagnostics in a list.
pub open spec fn error_views(errors: Seq<ParseError>) -> Seq<ParseErrorView> {
    Seq::new(errors.len(), |i: int| errors[i]@)
}

} // verus!
