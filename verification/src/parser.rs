//! The parser: from the scanner's tokens to statements, by precedence
//! climbing with one token of lookahead.
//!
//! What each rule computes is stated in `grammar`, over the tokens that lie
//! ahead of the parser; the methods here are proved to compute it.
use crate::ast::{
    statement_views, Boolean, Expression, ExpressionStatement, Identifier, InfixExpression,
    IntegerLiteral, LetStatement, PrefixExpression, Program, ReturnStatement, Statement,
};
use crate::error::{
    error_views, ParseError, ParseErrorView, ParseExpressionError, ParseStatementError,
};
use crate::grammar::{
    advance, current, infix_level, is_prefix_operator, lemma_infix_expression_consumes,
    lemma_prefix_expression_consumes, lemma_statement_consumes, peek, Outcome,
};
use crate::decimal::parse_i64;
use crate::lexer::{eof_token, lemma_scan_consumes, scan, tokens, Lexer};
use crate::precedence::Precedence;
use crate::token::{Token, TokenView};
use crate::token_type::TokenType;
use vstd::pervasive::unreached;
use vstd::prelude::*;

verus! {

/// A parser over a scanner.
///
/// `current_token` is the next token that has not been consumed and
/// `peek_token` the one after it; `errors` holds the diagnostics recorded so
/// far, oldest first.
pub struct Parser {
    lexer: Lexer,
    current_token: Box<Token>,
    peek_token: Box<Token>,
    pub errors: Vec<ParseError>,
}

/// Why a rule built no node.
enum Failure {
    /// The rule gave up with this error.
    Error(ParseError),
    /// The rule met an integer literal that does not fit in 64 bits:
    /// parsing cannot go on.
    Abort,
}

/// `result` and the parser's new state are what `outcome` says: the node or
/// the error, the tokens still ahead, and the diagnostics added behind those
/// that were there before. Where the rule aborts, the diagnostics that were
/// there before are still there, in front of any that were added.
spec fn yields<T: View>(
    before: Parser,
    after: Parser,
    result: Result<T, Failure>,
    outcome: Outcome<T::V>,
) -> bool {
    match outcome {
        Outcome::Parsed { value, rest } => {
            &&& result matches Ok(node)
            &&& node@ == value
            &&& after.stream() == rest
            &&& after.diagnostics() == before.diagnostics()
        },
        Outcome::Failed { error, diagnostics, rest } => {
            &&& result matches Err(Failure::Error(e))
            &&& e@ == error
            &&& after.stream() == rest
            &&& after.diagnostics() == before.diagnostics() + diagnostics
        },
        Outcome::Aborted => {
            &&& result matches Err(Failure::Abort)
            &&& before.diagnostics().is_prefix_of(after.diagnostics())
        },
    }
}

impl Parser {
    /// The tokens ahead: the current token first, `EOF` not among them.
    pub closed spec fn stream(&self) -> Seq<TokenView> {
        if self.current_token.token_type == TokenType::EOF {
            Seq::empty()
        } else if self.peek_token.token_type == TokenType::EOF {
            seq![self.current_token@]
        } else {
            seq![self.current_token@, self.peek_token@] + tokens(self.lexer@)
        }
    }

    /// The scanner is well formed, and nothing follows `EOF`: once the
    /// current token or the one after it is `EOF`, so is every later one.
    pub closed spec fn wf(&self) -> bool {
        &&& self.lexer.wf()
        &&& self.current_token.token_type == TokenType::EOF ==> self.current_token@ == eof_token()
            && self.peek_token.token_type == TokenType::EOF
        &&& self.peek_token.token_type == TokenType::EOF ==> self.peek_token@ == eof_token()
            && scan(self.lexer@).token.token_type == TokenType::EOF
    }

    /// The diagnostics recorded so far, oldest first.
    pub closed spec fn diagnostics(&self) -> Seq<ParseErrorView> {
        error_views(self.errors@)
    }

    /// A parser at the first token of `lexer`, with no diagnostics.
    pub fn new(lexer: Lexer) -> (parser: Self)
        requires
            lexer.wf(),
        ensures
            parser.wf(),
            parser.stream() == tokens(lexer@),
            parser.diagnostics() == Seq::<ParseErrorView>::empty(),
    {
        let mut lexer = lexer;
        let ghost text = lexer@;
        let current_token = Box::new(lexer.next_token());
        let ghost after_first = lexer@;
        let peek_token = Box::new(lexer.next_token());
        proof {
            lemma_scan_consumes(text);
            lemma_scan_consumes(after_first);
            lemma_scan_consumes(lexer@);
        }
        let parser = Parser { lexer, current_token, peek_token, errors: Vec::new() };
        proof {
            if scan(text).token.token_type != TokenType::EOF {
                assert(tokens(text) == seq![scan(text).token] + tokens(after_first));
                if scan(after_first).token.token_type != TokenType::EOF {
                    assert(tokens(after_first) == seq![scan(after_first).token] + tokens(
                        parser.lexer@,
                    ));
                } else {
                    assert(tokens(after_first) == Seq::<TokenView>::empty());
                }
            }
        }
        assert(parser.stream() =~= tokens(text));
        assert(parser.diagnostics() =~= Seq::empty());
        parser
    }

    /// The diagnostics recorded so far, oldest first.
    pub fn errors(&self) -> (errors: &Vec<ParseError>)
        ensures
            error_views(errors@) == self.diagnostics(),
    {
        &self.errors
    }

    /// Consumes the current token and returns it: the token after it becomes
    /// the current one and the scanner gives the new lookahead.
    fn next_token(&mut self) -> (consumed: Box<Token>)
        requires
            old(self).wf(),
        ensures
            final(self).wf(),
            consumed@ == current(old(self).stream()),
            final(self).stream() == advance(old(self).stream()),
            final(self).errors == old(self).errors,
    {
        let ghost text = self.lexer@;
        let mut token = Box::new(self.lexer.next_token());
        proof {
            lemma_scan_consumes(text);
            lemma_scan_consumes(self.lexer@);
        }
        core::mem::swap(&mut self.peek_token, &mut token);
        core::mem::swap(&mut self.current_token, &mut token);
        assert(self.stream() =~= advance(old(self).stream()));
        token
    }

    /// Parses statements until `EOF` is the current token, and returns those
    /// that could be parsed. What could not be parsed leaves its diagnostics
    /// in `errors`.
    ///
    /// The text of every integer literal that is parsed has to write a
    /// 64-bit signed integer: `grammar::program` is `None` otherwise.
    /// `try_parse_program` is for a caller that cannot know this.
    pub fn parse_program(&mut self) -> (program: Program)
        requires
            old(self).wf(),
            crate::grammar::program(old(self).stream()) is Some,
        ensures
            final(self).wf(),
            final(self).stream().len() == 0,
            statement_views(program@) == crate::grammar::program(
                old(self).stream(),
            ).unwrap().statements,
            final(self).diagnostics() == old(self).diagnostics() + crate::grammar::program(
                old(self).stream(),
            ).unwrap().diagnostics,
    {
        match self.parse_statements() {
            Some(program) => program,
            None => unreached(),
        }
    }

    /// Parses the program as `parse_program` does, if the text of every
    /// integer literal that is parsed writes a 64-bit signed integer. If one
    /// does not, the result is `None` and the parser is left as it was: the
    /// same tokens ahead and the same diagnostics.
    pub fn try_parse_program(&mut self) -> (program: Option<Program>)
        requires
            old(self).wf(),
        ensures
            final(self).wf(),
            match crate::grammar::program(old(self).stream()) {
                Some(outcome) => {
                    &&& program matches Some(statements)
                    &&& statement_views(statements@) == outcome.statements
                    &&& final(self).diagnostics() == old(self).diagnostics() + outcome.diagnostics
                    &&& final(self).stream().len() == 0
                },
                None => {
                    &&& program is None
                    &&& final(self).stream() == old(self).stream()
                    &&& final(self).diagnostics() == old(self).diagnostics()
                },
            },
    {
        let lexer = self.lexer.clone();
        let current_token = Box::new((*self.current_token).clone());
        let peek_token = Box::new((*self.peek_token).clone());
        let recorded = self.errors.len();
        match self.parse_statements() {
            Some(program) => Some(program),
            None => {
                let ghost added = self.errors@;
                self.lexer = lexer;
                self.current_token = current_token;
                self.peek_token = peek_token;
                self.errors.truncate(recorded);
                assert(self.diagnostics() =~= error_views(added).subrange(0, recorded as int));
                assert(self.diagnostics() =~= old(self).diagnostics());
                None
            },
        }
    }

    /// The statements of the program, or `None` where a rule aborts.
    fn parse_statements(&mut self) -> (program: Option<Program>)
        requires
            old(self).wf(),
        ensures
            final(self).wf(),
            match crate::grammar::program(old(self).stream()) {
                Some(outcome) => {
                    &&& program matches Some(statements)
                    &&& statement_views(statements@) == outcome.statements
                    &&& final(self).diagnostics() == old(self).diagnostics() + outcome.diagnostics
                    &&& final(self).stream().len() == 0
                },
                None => {
                    &&& program is None
                    &&& old(self).diagnostics().is_prefix_of(final(self).diagnostics())
                },
            },
    {
        let mut program = Program::new();
        let ghost whole = crate::grammar::program(self.stream());
        assert(statement_views(program@) =~= Seq::empty());
        while !self.current_token.token_type.is_eof()
            invariant
                self.wf(),
                whole == crate::grammar::program(old(self).stream()),
                old(self).diagnostics().is_prefix_of(self.diagnostics()),
                whole is Some <==> crate::grammar::program(self.stream()) is Some,
                whole is Some ==> whole.unwrap().statements == statement_views(program@)
                    + crate::grammar::program(self.stream()).unwrap().statements,
                whole is Some ==> old(self).diagnostics() + whole.unwrap().diagnostics
                    == self.diagnostics() + crate::grammar::program(
                    self.stream(),
                ).unwrap().diagnostics,
            decreases self.stream().len(),
        {
            let ghost tokens = self.stream();
            let ghost parsed = statement_views(program@);
            let ghost recorded = self.diagnostics();
            proof {
                lemma_statement_consumes(tokens);
            }
            match self.parse_statement() {
                Ok(statement) => {
                    program.push(statement);
                    assert(statement_views(program@) =~= parsed.push(statement@));
                },
                Err(Failure::Error(_)) => {},
                Err(Failure::Abort) => {
                    return None;
                },
            }
            self.next_token();
            proof {
                match crate::grammar::statement(tokens) {
                    Outcome::Parsed { value, rest } => {
                        if whole is Some {
                            let then = crate::grammar::program(self.stream()).unwrap();
                            assert(parsed + (seq![value] + then.statements) =~= parsed.push(value)
                                + then.statements);
                        }
                    },
                    Outcome::Failed { error, diagnostics, rest } => {
                        if whole is Some {
                            let then = crate::grammar::program(self.stream()).unwrap();
                            assert(recorded + (diagnostics + then.diagnostics) =~= (recorded
                                + diagnostics) + then.diagnostics);
                        }
                    },
                    Outcome::Aborted => {},
                }
            }
        }
        assert(statement_views(program@) + Seq::<crate::ast::StatementView>::empty()
            =~= statement_views(program@));
        assert(self.diagnostics() + Seq::<ParseErrorView>::empty() =~= self.diagnostics());
        Some(program)
    }

    fn parse_statement(&mut self) -> (result: Result<Statement, Failure>)
        requires
            old(self).wf(),
        ensures
            final(self).wf(),
            yields(*old(self), *final(self), result, crate::grammar::statement(old(self).stream())),
    {
        if self.current_token_is(TokenType::Let) {
            self.parse_let_statement()
        } else if self.current_token_is(TokenType::Return) {
            self.parse_return_statement()
        } else {
            self.parse_expression_statement()
        }
    }

    fn parse_let_statement(&mut self) -> (result: Result<Statement, Failure>)
        requires
            old(self).wf(),
        ensures
            final(self).wf(),
            yields(
                *old(self),
                *final(self),
                result,
                crate::grammar::let_statement(old(self).stream()),
            ),
    {
        if !self.peek_token_is(TokenType::Ident) {
            self.peek_error(TokenType::Ident);
            assert(self.diagnostics() =~= old(self).diagnostics() + seq![
                ParseErrorView::PeekToken(TokenType::Ident, Some(peek(old(self).stream()))),
            ]);
            return Err(Failure::Error(ParseError::Statement(ParseStatementError::Let)));
        }
        let let_token = self.next_token();
        let identifier = Identifier::new(self.next_token());

        if !self.current_token_is(TokenType::Assign) {
            let ghost after_name = self.stream();
            self.peek_error(TokenType::Assign);
            assert(self.diagnostics() =~= old(self).diagnostics() + seq![
                ParseErrorView::PeekToken(TokenType::Assign, Some(peek(after_name))),
            ]);
            return Err(Failure::Error(ParseError::Statement(ParseStatementError::Let)));
        }
        self.next_token();
        let expression = match self.parse_expression(Precedence::Lowest) {
            Ok(expression) => expression,
            Err(e) => {
                return Err(self.fail(e, ParseError::Statement(ParseStatementError::Let)));
            },
        };
        Ok(Statement::Let(LetStatement::new(let_token, identifier, expression)))
    }

    fn parse_return_statement(&mut self) -> (result: Result<Statement, Failure>)
        requires
            old(self).wf(),
        ensures
            final(self).wf(),
            yields(
                *old(self),
                *final(self),
                result,
                crate::grammar::return_statement(old(self).stream()),
            ),
    {
        let token = self.next_token();
        let expression = match self.parse_expression(Precedence::Lowest) {
            Ok(expression) => expression,
            Err(e) => {
                return Err(self.fail(e, ParseError::Statement(ParseStatementError::Return)));
            },
        };
        Ok(Statement::Return(ReturnStatement::new(token, expression)))
    }

    fn parse_expression_statement(&mut self) -> (result: Result<Statement, Failure>)
        requires
            old(self).wf(),
        ensures
            final(self).wf(),
            yields(
                *old(self),
                *final(self),
                result,
                crate::grammar::expression_statement(old(self).stream()),
            ),
    {
        let expression = match self.parse_expression(Precedence::Lowest) {
            Ok(expression) => expression,
            Err(e) => {
                return Err(self.fail(e, ParseError::Statement(ParseStatementError::Expression)));
            },
        };
        let statement = ExpressionStatement::new(expression);
        if self.peek_token_is(TokenType::Semicolon) {
            self.next_token();
        }
        Ok(Statement::Expression(statement))
    }

    fn parse_expression(&mut self, precedence: Precedence) -> (result: Result<
        Box<Expression>,
        Failure,
    >)
        requires
            old(self).wf(),
        ensures
            final(self).wf(),
            yields(
                *old(self),
                *final(self),
                result,
                crate::grammar::expression(old(self).stream(), precedence),
            ),
        decreases old(self).stream().len(), 1nat,
    {
        let ghost ahead = self.stream();
        let token = self.next_token();
        proof {
            lemma_prefix_expression_consumes(token@, self.stream());
        }
        let mut expression = match self.parse_prefix_expression(token) {
            Ok(expression) => expression,
            Err(e) => {
                return Err(e);
            },
        };

        while self.infix_follows(precedence)
            invariant
                self.wf(),
                self.stream().len() < ahead.len(),
                ahead == old(self).stream(),
                self.diagnostics() == old(self).diagnostics(),
                crate::grammar::expression(ahead, precedence) == crate::grammar::infix_chain(
                    expression@,
                    self.stream(),
                    precedence,
                ),
            decreases self.stream().len(),
        {
            let precedence_ahead = match Precedence::look_up_by(self.current_token.token_type) {
                Some(precedence_ahead) => precedence_ahead,
                None => {
                    return Ok(expression);
                },
            };
            let token = self.next_token();
            proof {
                lemma_infix_expression_consumes(
                    expression@,
                    token@,
                    precedence_ahead,
                    self.stream(),
                );
            }
            expression = match self.parse_infix_expression(expression, token, precedence_ahead) {
                Ok(expression) => expression,
                Err(e) => {
                    return Err(self.fail(e, ParseError::Expression(ParseExpressionError::Infix)));
                },
            };
        }

        Ok(expression)
    }

    /// Whether the expression read so far goes on: the current token is a
    /// binary operator that binds tighter than `precedence`.
    fn infix_follows(&self, precedence: Precedence) -> (follows: bool)
        requires
            self.wf(),
        ensures
            follows == infix_level(self.stream(), precedence).is_some(),
    {
        if self.current_token_is(TokenType::Semicolon) {
            false
        } else {
            match Precedence::look_up_by(self.current_token.token_type) {
                Some(looked_up_precedence) => precedence < looked_up_precedence,
                None => false,
            }
        }
    }

    fn parse_prefix_expression(&mut self, token: Box<Token>) -> (result: Result<
        Box<Expression>,
        Failure,
    >)
        requires
            old(self).wf(),
        ensures
            final(self).wf(),
            yields(
                *old(self),
                *final(self),
                result,
                crate::grammar::prefix_expression(token@, old(self).stream()),
            ),
        decreases
                old(self).stream().len() + if is_prefix_operator(token.token_type) {
                    1nat
                } else {
                    0nat
                },
                0nat,
    {
        match token.token_type {
            TokenType::Ident => {
                let expression = Expression::Identifier(Identifier::new(token));
                Ok(Box::new(expression))
            },
            TokenType::Int => {
                if parse_i64(token.literal.as_str()).is_none() {
                    return Err(Failure::Abort);
                }
                let expression = Expression::Integer(IntegerLiteral::new(token));
                Ok(Box::new(expression))
            },
            TokenType::Bang | TokenType::Minus => {
                let expression = match self.parse_expression(Precedence::Prefix) {
                    Ok(expression) => expression,
                    Err(e) => {
                        return Err(
                            self.fail(e, ParseError::Expression(ParseExpressionError::Prefix)),
                        );
                    },
                };
                Ok(Box::new(Expression::Prefix(PrefixExpression::new(token, expression))))
            },
            TokenType::True | TokenType::False => Ok(Box::new(self.parse_boolean(token))),
            _ => Err(
                Failure::Error(ParseError::Expression(ParseExpressionError::NoPrefix(Some(token)))),
            ),
        }
    }

    fn parse_infix_expression(
        &mut self,
        left_expression: Box<Expression>,
        token: Box<Token>,
        precedence: Precedence,
    ) -> (result: Result<Box<Expression>, Failure>)
        requires
            old(self).wf(),
        ensures
            final(self).wf(),
            yields(
                *old(self),
                *final(self),
                result,
                crate::grammar::infix_expression(
                    left_expression@,
                    token@,
                    precedence,
                    old(self).stream(),
                ),
            ),
        decreases old(self).stream().len(), 2nat,
    {
        let right_expression = match self.parse_expression(precedence) {
            Ok(expression) => expression,
            Err(e) => {
                return Err(self.fail(e, ParseError::Expression(ParseExpressionError::Infix)));
            },
        };

        Ok(
            Box::new(
                Expression::Infix(InfixExpression::new(token, left_expression, right_expression)),
            ),
        )
    }

    fn parse_boolean(&self, token: Box<Token>) -> (expression: Expression)
        ensures
            expression@ == crate::ast::ExpressionView::Boolean(
                crate::ast::BooleanView {
                    token: token@,
                    value: token.token_type == TokenType::True,
                },
            ),
    {
        let value = token.token_type == TokenType::True;
        Expression::Boolean(Boolean::new(token, value))
    }

    fn current_token_is(&self, token_type: TokenType) -> (is: bool)
        requires
            self.wf(),
        ensures
            is == (current(self.stream()).token_type == token_type),
    {
        self.current_token.token_type == token_type
    }

    fn peek_token_is(&self, token_type: TokenType) -> (is: bool)
        requires
            self.wf(),
        ensures
            is == (peek(self.stream()).token_type == token_type),
    {
        self.peek_token.token_type == token_type
    }

    /// Records that `token_type` was expected, together with the token after
    /// the current one.
    fn peek_error(&mut self, token_type: TokenType)
        requires
            old(self).wf(),
        ensures
            final(self).wf(),
            final(self).stream() == old(self).stream(),
            final(self).diagnostics() == old(self).diagnostics().push(
                ParseErrorView::PeekToken(token_type, Some(peek(old(self).stream()))),
            ),
    {
        let actual = Box::new((*self.peek_token).clone());
        self.record(ParseError::PeekToken(token_type, Some(actual)));
    }

    /// What a rule returns when the rule it called built no node: the inner
    /// error is recorded and `error` returned in its place; an abort is
    /// passed on as it is.
    fn fail(&mut self, failure: Failure, error: ParseError) -> (outer: Failure)
        requires
            old(self).wf(),
        ensures
            final(self).wf(),
            final(self).stream() == old(self).stream(),
            match failure {
                Failure::Error(inner) => {
                    &&& outer matches Failure::Error(e)
                    &&& e@ == error@
                    &&& final(self).diagnostics() == old(self).diagnostics().push(inner@)
                },
                Failure::Abort => {
                    &&& outer is Abort
                    &&& final(self).diagnostics() == old(self).diagnostics()
                },
            },
    {
        match failure {
            Failure::Error(inner) => {
                self.record(inner);
                Failure::Error(error)
            },
            Failure::Abort => Failure::Abort,
        }
    }

    /// Appends `error` to the diagnostics.
    fn record(&mut self, error: ParseError)
        requires
            old(self).wf(),
        ensures
            final(self).wf(),
            final(self).stream() == old(self).stream(),
            final(self).diagnostics() == old(self).diagnostics().push(error@),
    {
        self.errors.push(error);
        assert(self.diagnostics() =~= old(self).diagnostics().push(error@));
    }
}

} // verus!
