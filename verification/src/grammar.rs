//! What the parser computes, as functions on the tokens that lie ahead.
//!
//! The tokens ahead are a sequence whose first element is the current token;
//! `EOF` is not among them and follows the last of them for ever. Each rule
//! of the grammar is a function from the tokens ahead to an `Outcome`: the
//! node it builds or the error it returns, the diagnostics it records, and
//! the tokens that are still ahead when it is done.
use crate::ast::{
    BooleanView, ExpressionStatementView, ExpressionView, IdentifierView, InfixExpressionView,
    IntegerLiteralView, LetStatementView, PrefixExpressionView, ReturnStatementView, StatementView,
};
use crate::decimal::i64_value;
use crate::error::{ParseErrorView, ParseExpressionErrorView, ParseStatementError};
use crate::lexer::{eof_token, integers_fit};
use crate::precedence::Precedence;
use crate::token::TokenView;
use crate::token_type::TokenType;
use vstd::prelude::*;

verus! {

/// The token `i` places ahead; behind the last token every token is `EOF`.
pub open spec fn token_at(tokens: Seq<TokenView>, i: int) -> TokenView {
    if 0 <= i < tokens.len() {
        tokens[i]
    } else {
        eof_token()
    }
}

/// The current token: the next one that has not been consumed.
pub open spec fn current(tokens: Seq<TokenView>) -> TokenView {
    token_at(tokens, 0)
}

/// The token after the current one.
pub open spec fn peek(tokens: Seq<TokenView>) -> TokenView {
    token_at(tokens, 1)
}

/// The tokens ahead once the current token has been consumed.
pub open spec fn advance(tokens: Seq<TokenView>) -> Seq<TokenView> {
    if tokens.len() > 0 {
        tokens.drop_first()
    } else {
        tokens
    }
}

/// How a rule of the grammar ends.
pub enum Outcome<T> {
    /// The rule built `value`; `rest` are the tokens still ahead. A rule that
    /// succeeds records no diagnostic.
    Parsed { value: T, rest: Seq<TokenView> },
    /// The rule gave up with `error`, after it had recorded `diagnostics`.
    Failed { error: ParseErrorView, diagnostics: Seq<ParseErrorView>, rest: Seq<TokenView> },
    /// The rule met an `Int` token whose text writes no 64-bit signed
    /// integer: the scanner and the parser disagree, and parsing cannot go
    /// on.
    Aborted,
}

/// How the parsing of a whole program ends.
pub struct ProgramOutcome {
    /// The statements that were parsed, in source order.
    pub statements: Seq<StatementView>,
    /// The diagnostics that were recorded, in the order of their recording.
    pub diagnostics: Seq<ParseErrorView>,
}

pub open spec fn is_prefix_operator(token_type: TokenType) -> bool {
    token_type == TokenType::Bang || token_type == TokenType::Minus
}

/// The level of the operator that comes next, if the expression on its left
/// goes on with it: the current token is a binary operator that binds
/// tighter than `precedence`. A semicolon ends every expression.
pub open spec fn infix_level(tokens: Seq<TokenView>, precedence: Precedence) -> Option<
    Precedence,
> {
    let token_type = current(tokens).token_type;
    match Precedence::look_up_by(token_type) {
        Some(level) => if token_type != TokenType::Semicolon && precedence.level()
            < level.level() {
            Some(level)
        } else {
            None
        },
        None => None,
    }
}

/// The prefix rule for `token`, which has just been consumed; `tokens` are
/// the tokens ahead of it.
///
/// An identifier, an integer literal and a boolean are leaves. `!` and `-`
/// take as their operand the expression that follows at `Prefix` level. No
/// other token starts an expression.
pub open spec fn prefix_expression(token: TokenView, tokens: Seq<TokenView>) -> Outcome<
    ExpressionView,
>
    decreases
            tokens.len() + if is_prefix_operator(token.token_type) {
                1nat
            } else {
                0nat
            },
            0nat,
{
    match token.token_type {
        TokenType::Ident => Outcome::Parsed {
            value: ExpressionView::Identifier(IdentifierView { token, value: token.literal }),
            rest: tokens,
        },
        TokenType::Int => match i64_value(token.literal) {
            Some(value) => Outcome::Parsed {
                value: ExpressionView::Integer(IntegerLiteralView { token, value }),
                rest: tokens,
            },
            None => Outcome::Aborted,
        },
        TokenType::Bang | TokenType::Minus => match expression(tokens, Precedence::Prefix) {
            Outcome::Parsed { value, rest } => Outcome::Parsed {
                value: ExpressionView::Prefix(
                    PrefixExpressionView { token, operator: token.literal, right: Box::new(value) },
                ),
                rest,
            },
            Outcome::Failed { error, diagnostics, rest } => Outcome::Failed {
                error: ParseErrorView::Expression(ParseExpressionErrorView::Prefix),
                diagnostics: diagnostics.push(error),
                rest,
            },
            Outcome::Aborted => Outcome::Aborted,
        },
        TokenType::True | TokenType::False => Outcome::Parsed {
            value: ExpressionView::Boolean(
                BooleanView { token, value: token.token_type == TokenType::True },
            ),
            rest: tokens,
        },
        _ => Outcome::Failed {
            error: ParseErrorView::Expression(ParseExpressionErrorView::NoPrefix(Some(token))),
            diagnostics: Seq::empty(),
            rest: tokens,
        },
    }
}

/// The expression that starts at the current token and whose binary
/// operators all bind tighter than `precedence`.
///
/// The current token is consumed and its prefix rule gives the leftmost
/// operand; the operators that follow are folded onto it by `infix_chain`.
/// (The prefix rule has consumed a token when it succeeds, see
/// `lemma_expression_consumes`: the test on the lengths always holds.)
pub open spec fn expression(tokens: Seq<TokenView>, precedence: Precedence) -> Outcome<
    ExpressionView,
>
    decreases tokens.len(), 1nat,
{
    match prefix_expression(current(tokens), advance(tokens)) {
        Outcome::Parsed { value, rest } => if rest.len() < tokens.len() {
            infix_chain(value, rest, precedence)
        } else {
            Outcome::Parsed { value, rest }
        },
        Outcome::Failed { error, diagnostics, rest } => Outcome::Failed {
            error,
            diagnostics,
            rest,
        },
        Outcome::Aborted => Outcome::Aborted,
    }
}

/// The expression `left` with the binary operators that follow it folded
/// onto it, as long as they bind tighter than `precedence`.
///
/// Each operator takes as its right operand the expression that follows at
/// the operator's own level, so that operators of one level associate to the
/// left. (An operator and its right operand are at least one token, see
/// `lemma_expression_consumes`: the test on the lengths always holds.)
pub open spec fn infix_chain(
    left: ExpressionView,
    tokens: Seq<TokenView>,
    precedence: Precedence,
) -> Outcome<ExpressionView>
    decreases tokens.len(), 3nat,
{
    match infix_level(tokens, precedence) {
        Some(level) => match infix_expression(left, current(tokens), level, advance(tokens)) {
            Outcome::Parsed { value, rest } => if rest.len() < tokens.len() {
                infix_chain(value, rest, precedence)
            } else {
                Outcome::Parsed { value, rest }
            },
            Outcome::Failed { error, diagnostics, rest } => Outcome::Failed {
                error: ParseErrorView::Expression(ParseExpressionErrorView::Infix),
                diagnostics: diagnostics.push(error),
                rest,
            },
            Outcome::Aborted => Outcome::Aborted,
        },
        None => Outcome::Parsed { value: left, rest: tokens },
    }
}

/// The application of the binary operator `token`, which has just been
/// consumed, to `left` and to the expression that follows at `level`.
pub open spec fn infix_expression(
    left: ExpressionView,
    token: TokenView,
    level: Precedence,
    tokens: Seq<TokenView>,
) -> Outcome<ExpressionView>
    decreases tokens.len(), 2nat,
{
    match expression(tokens, level) {
        Outcome::Parsed { value, rest } => Outcome::Parsed {
            value: ExpressionView::Infix(
                InfixExpressionView {
                    token,
                    left: Box::new(left),
                    operator: token.literal,
                    right: Box::new(value),
                },
            ),
            rest,
        },
        Outcome::Failed { error, diagnostics, rest } => Outcome::Failed {
            error: ParseErrorView::Expression(ParseExpressionErrorView::Infix),
            diagnostics: diagnostics.push(error),
            rest,
        },
        Outcome::Aborted => Outcome::Aborted,
    }
}

/// A statement rule's outcome, from that of the expression it ends with:
/// `build` makes the statement, and a failure of the expression is recorded
/// and becomes a failure of the rule `kind`.
pub open spec fn statement_of(
    outcome: Outcome<ExpressionView>,
    kind: ParseStatementError,
    build: spec_fn(ExpressionView) -> StatementView,
) -> Outcome<StatementView> {
    match outcome {
        Outcome::Parsed { value, rest } => Outcome::Parsed { value: build(value), rest },
        Outcome::Failed { error, diagnostics, rest } => Outcome::Failed {
            error: ParseErrorView::Statement(kind),
            diagnostics: diagnostics.push(error),
            rest,
        },
        Outcome::Aborted => Outcome::Aborted,
    }
}

/// The `let` rule; the current token is `let`.
///
/// The token after `let` has to be an identifier and the one after that an
/// `=`; the value is the expression that follows at `Lowest` level. Where
/// one of the two is missing, the rule records what it expected together
/// with the token after the current one, and gives up.
pub open spec fn let_statement(tokens: Seq<TokenView>) -> Outcome<StatementView> {
    if peek(tokens).token_type != TokenType::Ident {
        Outcome::Failed {
            error: ParseErrorView::Statement(ParseStatementError::Let),
            diagnostics: seq![ParseErrorView::PeekToken(TokenType::Ident, Some(peek(tokens)))],
            rest: tokens,
        }
    } else {
        let name = peek(tokens);
        let after_name = advance(advance(tokens));
        if current(after_name).token_type != TokenType::Assign {
            Outcome::Failed {
                error: ParseErrorView::Statement(ParseStatementError::Let),
                diagnostics: seq![
                    ParseErrorView::PeekToken(TokenType::Assign, Some(peek(after_name))),
                ],
                rest: after_name,
            }
        } else {
            statement_of(
                expression(advance(after_name), Precedence::Lowest),
                ParseStatementError::Let,
                |value: ExpressionView|
                    StatementView::Let(
                        LetStatementView {
                            token: current(tokens),
                            name: IdentifierView { token: name, value: name.literal },
                            value,
                        },
                    ),
            )
        }
    }
}

/// The `return` rule; the current token is `return`. The value is the
/// expression that follows at `Lowest` level.
pub open spec fn return_statement(tokens: Seq<TokenView>) -> Outcome<StatementView> {
    statement_of(
        expression(advance(tokens), Precedence::Lowest),
        ParseStatementError::Return,
        |value: ExpressionView|
            StatementView::Return(
                ReturnStatementView { token: current(tokens), return_value: value },
            ),
    )
}

/// The tokens ahead after an expression statement: where the token after the
/// current one is a semicolon, the current token is consumed.
pub open spec fn after_expression_statement(tokens: Seq<TokenView>) -> Seq<TokenView> {
    if peek(tokens).token_type == TokenType::Semicolon {
        advance(tokens)
    } else {
        tokens
    }
}

/// The rule for a bare expression at `Lowest` level.
pub open spec fn expression_statement(tokens: Seq<TokenView>) -> Outcome<StatementView> {
    match statement_of(
        expression(tokens, Precedence::Lowest),
        ParseStatementError::Expression,
        |value: ExpressionView|
            StatementView::Expression(ExpressionStatementView { expression: value }),
    ) {
        Outcome::Parsed { value, rest } => Outcome::Parsed {
            value,
            rest: after_expression_statement(rest),
        },
        Outcome::Failed { error, diagnostics, rest } => Outcome::Failed {
            error,
            diagnostics,
            rest,
        },
        Outcome::Aborted => Outcome::Aborted,
    }
}

/// The statement that starts at the current token: the `let` rule after
/// `let`, the `return` rule after `return`, a bare expression anywhere else.
pub open spec fn statement(tokens: Seq<TokenView>) -> Outcome<StatementView> {
    match current(tokens).token_type {
        TokenType::Let => let_statement(tokens),
        TokenType::Return => return_statement(tokens),
        _ => expression_statement(tokens),
    }
}

/// The program that `tokens` write: statement after statement until `EOF`
/// is the current token.
///
/// After each statement, parsed or not, the current token is consumed. A
/// statement that fails leaves its diagnostics and no statement; the error
/// that it returns is dropped. The result is `None` where a rule aborts.
/// (A statement never leaves more tokens than it met, see
/// `lemma_statement_consumes`: the tests on the lengths always hold.)
pub open spec fn program(tokens: Seq<TokenView>) -> Option<ProgramOutcome>
    decreases tokens.len(),
{
    if current(tokens).token_type == TokenType::EOF {
        Some(ProgramOutcome { statements: Seq::empty(), diagnostics: Seq::empty() })
    } else {
        match statement(tokens) {
            Outcome::Parsed { value, rest } => if rest.len() <= tokens.len() {
                match program(advance(rest)) {
                    Some(then) => Some(
                        ProgramOutcome {
                            statements: seq![value] + then.statements,
                            diagnostics: then.diagnostics,
                        },
                    ),
                    None => None,
                }
            } else {
                None
            },
            Outcome::Failed { error, diagnostics, rest } => if rest.len() <= tokens.len() {
                match program(advance(rest)) {
                    Some(then) => Some(
                        ProgramOutcome {
                            statements: then.statements,
                            diagnostics: diagnostics + then.diagnostics,
                        },
                    ),
                    None => None,
                }
            } else {
                None
            },
            Outcome::Aborted => None,
        }
    }
}

/// `rest` is what is left of `tokens` once some of its first tokens, maybe
/// none, have been consumed.
pub open spec fn is_suffix(rest: Seq<TokenView>, tokens: Seq<TokenView>) -> bool {
    rest.len() <= tokens.len() && rest == tokens.skip(tokens.len() - rest.len())
}

impl<T> Outcome<T> {
    /// The rule consumed tokens from the front of `tokens`, maybe none, and
    /// touched no other.
    pub open spec fn leaves_suffix_of(self, tokens: Seq<TokenView>) -> bool {
        match self {
            Outcome::Parsed { value, rest } => is_suffix(rest, tokens),
            Outcome::Failed { error, diagnostics, rest } => is_suffix(rest, tokens),
            Outcome::Aborted => true,
        }
    }

    /// The rule consumed at least one token of `tokens`, if there was one.
    pub open spec fn consumes(self, tokens: Seq<TokenView>) -> bool {
        match self {
            Outcome::Parsed { value, rest } => tokens.len() > 0 ==> rest.len() < tokens.len(),
            Outcome::Failed { error, diagnostics, rest } => tokens.len() > 0 ==> rest.len()
                < tokens.len(),
            Outcome::Aborted => true,
        }
    }
}

pub proof fn lemma_suffix_transitive(a: Seq<TokenView>, b: Seq<TokenView>, c: Seq<TokenView>)
    requires
        is_suffix(a, b),
        is_suffix(b, c),
    ensures
        is_suffix(a, c),
{
    assert(a =~= c.skip(c.len() - a.len()));
}

pub proof fn lemma_advance_is_suffix(tokens: Seq<TokenView>)
    ensures
        is_suffix(advance(tokens), tokens),
        is_suffix(tokens, tokens),
{
    assert(tokens =~= tokens.skip(0));
}

/// A prefix rule consumes tokens from the front of those ahead of it and
/// touches no other.
pub proof fn lemma_prefix_expression_consumes(token: TokenView, tokens: Seq<TokenView>)
    ensures
        prefix_expression(token, tokens).leaves_suffix_of(tokens),
        is_prefix_operator(token.token_type) ==> prefix_expression(token, tokens).consumes(
            tokens,
        ),
    decreases
            tokens.len() + if is_prefix_operator(token.token_type) {
                1nat
            } else {
                0nat
            },
            0nat,
{
    lemma_advance_is_suffix(tokens);
    if is_prefix_operator(token.token_type) {
        lemma_expression_consumes(tokens, Precedence::Prefix);
    }
}

/// An expression consumes tokens from the front of those ahead and touches
/// no other; where a token is ahead, it consumes at least that one.
pub proof fn lemma_expression_consumes(tokens: Seq<TokenView>, precedence: Precedence)
    ensures
        expression(tokens, precedence).leaves_suffix_of(tokens),
        expression(tokens, precedence).consumes(tokens),
    decreases tokens.len(), 1nat,
{
    lemma_advance_is_suffix(tokens);
    lemma_prefix_expression_consumes(current(tokens), advance(tokens));
    match prefix_expression(current(tokens), advance(tokens)) {
        Outcome::Parsed { value, rest } => {
            lemma_suffix_transitive(rest, advance(tokens), tokens);
            if rest.len() < tokens.len() {
                lemma_infix_chain_consumes(value, rest, precedence);
                match infix_chain(value, rest, precedence) {
                    Outcome::Parsed { value: _, rest: last } => {
                        lemma_suffix_transitive(last, rest, tokens);
                    },
                    Outcome::Failed { error: _, diagnostics: _, rest: last } => {
                        lemma_suffix_transitive(last, rest, tokens);
                    },
                    Outcome::Aborted => {},
                }
            }
        },
        Outcome::Failed { error, diagnostics, rest } => {
            lemma_suffix_transitive(rest, advance(tokens), tokens);
        },
        Outcome::Aborted => {},
    }
}

/// A chain of binary operators consumes tokens from the front of those ahead
/// and touches no other.
pub proof fn lemma_infix_chain_consumes(
    left: ExpressionView,
    tokens: Seq<TokenView>,
    precedence: Precedence,
)
    ensures
        infix_chain(left, tokens, precedence).leaves_suffix_of(tokens),
    decreases tokens.len(), 3nat,
{
    lemma_advance_is_suffix(tokens);
    match infix_level(tokens, precedence) {
        Some(level) => {
            lemma_infix_expression_consumes(left, current(tokens), level, advance(tokens));
            match infix_expression(left, current(tokens), level, advance(tokens)) {
                Outcome::Parsed { value, rest } => {
                    lemma_suffix_transitive(rest, advance(tokens), tokens);
                    lemma_infix_chain_consumes(value, rest, precedence);
                    match infix_chain(value, rest, precedence) {
                        Outcome::Parsed { value: _, rest: last } => {
                            lemma_suffix_transitive(last, rest, tokens);
                        },
                        Outcome::Failed { error: _, diagnostics: _, rest: last } => {
                            lemma_suffix_transitive(last, rest, tokens);
                        },
                        Outcome::Aborted => {},
                    }
                },
                Outcome::Failed { error, diagnostics, rest } => {
                    lemma_suffix_transitive(rest, advance(tokens), tokens);
                },
                Outcome::Aborted => {},
            }
        },
        None => {},
    }
}

/// The right operand of a binary operator consumes tokens from the front of
/// those ahead and touches no other.
pub proof fn lemma_infix_expression_consumes(
    left: ExpressionView,
    token: TokenView,
    level: Precedence,
    tokens: Seq<TokenView>,
)
    ensures
        infix_expression(left, token, level, tokens).leaves_suffix_of(tokens),
    decreases tokens.len(), 2nat,
{
    lemma_expression_consumes(tokens, level);
}

/// A statement consumes tokens from the front of those ahead, maybe none,
/// and touches no other.
pub proof fn lemma_statement_consumes(tokens: Seq<TokenView>)
    ensures
        statement(tokens).leaves_suffix_of(tokens),
{
    let after_let = advance(tokens);
    let after_name = advance(after_let);
    let after_assign = advance(after_name);
    lemma_advance_is_suffix(tokens);
    lemma_advance_is_suffix(after_let);
    lemma_advance_is_suffix(after_name);
    lemma_suffix_transitive(after_name, after_let, tokens);
    lemma_suffix_transitive(after_assign, after_name, tokens);
    lemma_expression_consumes(tokens, Precedence::Lowest);
    lemma_expression_consumes(after_let, Precedence::Lowest);
    lemma_expression_consumes(after_assign, Precedence::Lowest);
    match current(tokens).token_type {
        TokenType::Let => {
            match expression(after_assign, Precedence::Lowest) {
                Outcome::Parsed { value, rest } => {
                    lemma_suffix_transitive(rest, after_assign, tokens);
                },
                Outcome::Failed { error, diagnostics, rest } => {
                    lemma_suffix_transitive(rest, after_assign, tokens);
                },
                Outcome::Aborted => {},
            }
        },
        TokenType::Return => {
            match expression(after_let, Precedence::Lowest) {
                Outcome::Parsed { value, rest } => {
                    lemma_suffix_transitive(rest, after_let, tokens);
                },
                Outcome::Failed { error, diagnostics, rest } => {
                    lemma_suffix_transitive(rest, after_let, tokens);
                },
                Outcome::Aborted => {},
            }
        },
        _ => {
            match expression(tokens, Precedence::Lowest) {
                Outcome::Parsed { value, rest } => {
                    lemma_advance_is_suffix(rest);
                    lemma_suffix_transitive(advance(rest), rest, tokens);
                },
                Outcome::Failed { error, diagnostics, rest } => {},
                Outcome::Aborted => {},
            }
        },
    }
}

pub proof fn lemma_integers_fit_suffix(rest: Seq<TokenView>, tokens: Seq<TokenView>)
    requires
        integers_fit(tokens),
        is_suffix(rest, tokens),
    ensures
        integers_fit(rest),
{
    assert forall|i: int|
        0 <= i < rest.len() && (#[trigger] rest[i]).token_type == TokenType::Int implies i64_value(
        rest[i].literal,
    ) is Some by {
        assert(rest[i] == tokens[tokens.len() - rest.len() + i]);
    }
}

/// Where the integer literals ahead all fit, a prefix rule does not abort.
pub proof fn lemma_prefix_expression_completes(token: TokenView, tokens: Seq<TokenView>)
    requires
        token.token_type == TokenType::Int ==> i64_value(token.literal) is Some,
        integers_fit(tokens),
    ensures
        prefix_expression(token, tokens) !is Aborted,
    decreases
            tokens.len() + if is_prefix_operator(token.token_type) {
                1nat
            } else {
                0nat
            },
            0nat,
{
    if is_prefix_operator(token.token_type) {
        lemma_expression_completes(tokens, Precedence::Prefix);
    }
}

/// Where the integer literals ahead all fit, an expression does not abort.
pub proof fn lemma_expression_completes(tokens: Seq<TokenView>, precedence: Precedence)
    requires
        integers_fit(tokens),
    ensures
        expression(tokens, precedence) !is Aborted,
    decreases tokens.len(), 1nat,
{
    lemma_advance_is_suffix(tokens);
    lemma_integers_fit_suffix(advance(tokens), tokens);
    if tokens.len() > 0 {
        assert(current(tokens) == tokens[0]);
    }
    lemma_prefix_expression_completes(current(tokens), advance(tokens));
    lemma_prefix_expression_consumes(current(tokens), advance(tokens));
    match prefix_expression(current(tokens), advance(tokens)) {
        Outcome::Parsed { value, rest } => {
            if rest.len() < tokens.len() {
                lemma_integers_fit_suffix(rest, advance(tokens));
                lemma_infix_chain_completes(value, rest, precedence);
            }
        },
        _ => {},
    }
}

/// Where the integer literals ahead all fit, a chain of binary operators
/// does not abort.
pub proof fn lemma_infix_chain_completes(
    left: ExpressionView,
    tokens: Seq<TokenView>,
    precedence: Precedence,
)
    requires
        integers_fit(tokens),
    ensures
        infix_chain(left, tokens, precedence) !is Aborted,
    decreases tokens.len(), 3nat,
{
    match infix_level(tokens, precedence) {
        Some(level) => {
            lemma_advance_is_suffix(tokens);
            lemma_integers_fit_suffix(advance(tokens), tokens);
            lemma_expression_completes(advance(tokens), level);
            lemma_infix_expression_consumes(left, current(tokens), level, advance(tokens));
            match infix_expression(left, current(tokens), level, advance(tokens)) {
                Outcome::Parsed { value, rest } => {
                    lemma_integers_fit_suffix(rest, advance(tokens));
                    lemma_infix_chain_completes(value, rest, precedence);
                },
                _ => {},
            }
        },
        None => {},
    }
}

/// Where the integer literals ahead all fit, a statement does not abort.
pub proof fn lemma_statement_completes(tokens: Seq<TokenView>)
    requires
        integers_fit(tokens),
    ensures
        statement(tokens) !is Aborted,
{
    let after_let = advance(tokens);
    let after_name = advance(after_let);
    let after_assign = advance(after_name);
    lemma_advance_is_suffix(tokens);
    lemma_advance_is_suffix(after_let);
    lemma_advance_is_suffix(after_name);
    lemma_integers_fit_suffix(after_let, tokens);
    lemma_integers_fit_suffix(after_name, after_let);
    lemma_integers_fit_suffix(after_assign, after_name);
    lemma_expression_completes(tokens, Precedence::Lowest);
    lemma_expression_completes(after_let, Precedence::Lowest);
    lemma_expression_completes(after_assign, Precedence::Lowest);
}

/// Where every integer literal ahead writes a 64-bit signed integer, the
/// parsing of the program runs to its end.
pub proof fn lemma_program_completes(tokens: Seq<TokenView>)
    requires
        integers_fit(tokens),
    ensures
        program(tokens) is Some,
    decreases tokens.len(),
{
    if current(tokens).token_type != TokenType::EOF {
        lemma_statement_completes(tokens);
        lemma_statement_consumes(tokens);
        match statement(tokens) {
            Outcome::Parsed { value, rest } => {
                lemma_advance_is_suffix(rest);
                lemma_integers_fit_suffix(rest, tokens);
                lemma_integers_fit_suffix(advance(rest), rest);
                lemma_program_completes(advance(rest));
            },
            Outcome::Failed { error, diagnostics, rest } => {
                lemma_advance_is_suffix(rest);
                lemma_integers_fit_suffix(rest, tokens);
                lemma_integers_fit_suffix(advance(rest), rest);
                lemma_program_completes(advance(rest));
            },
            Outcome::Aborted => {},
        }
    }
}

} // verus!
