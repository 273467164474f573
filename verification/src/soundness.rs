//! What holds of everything the parser builds.
//!
//! Parsing keeps the tokens it consumes, in their order, and the tree it
//! builds follows precedence and associativity. Two consequences are stated
//! for inputs of a given form: an expression with two binary operators, and
//! the sum of two identifiers written out as text.
use crate::ast::{
    ExpressionStatementView, ExpressionView, IdentifierView, InfixExpressionView, StatementView,
};
use crate::grammar::{
    advance, after_expression_statement, current, expression, infix_chain, infix_expression,
    infix_level, is_prefix_operator, lemma_expression_consumes, lemma_prefix_expression_consumes,
    prefix_expression, program, statement, Outcome, ProgramOutcome,
};
use crate::lexer::{is_identifier, lemma_scan_symbol, lemma_scan_word, scan, tokens};
use crate::precedence::Precedence;
use crate::text::{lemma_run_length, CharClass};
use crate::token::TokenView;
use crate::token_type::TokenType;
use vstd::prelude::*;

verus! {

/// The token of the identifier `name`.
pub open spec fn identifier_token(name: Seq<char>) -> TokenView {
    TokenView { token_type: TokenType::Ident, literal: name }
}

/// The application of the binary operator that `operator` writes to `left`
/// and `right`.
pub open spec fn infix_node(
    left: ExpressionView,
    operator: TokenView,
    right: ExpressionView,
) -> ExpressionView {
    ExpressionView::Infix(
        InfixExpressionView {
            token: operator,
            left: Box::new(left),
            operator: operator.literal,
            right: Box::new(right),
        },
    )
}

/// The leaf that an identifier is parsed to: its token and its value both
/// hold the name.
pub open spec fn identifier_leaf(name: Seq<char>) -> ExpressionView {
    ExpressionView::Identifier(IdentifierView { token: identifier_token(name), value: name })
}

/// The tokens of an expression, in the order in which they were written: a
/// prefix operator before its operand, a binary operator between its
/// operands.
pub open spec fn expression_tokens(expression: ExpressionView) -> Seq<TokenView>
    decreases expression,
{
    match expression {
        ExpressionView::Identifier(identifier) => seq![identifier.token],
        ExpressionView::Integer(integer) => seq![integer.token],
        ExpressionView::Boolean(boolean) => seq![boolean.token],
        ExpressionView::Prefix(prefix) => seq![prefix.token] + expression_tokens(*prefix.right),
        ExpressionView::Infix(infix) => expression_tokens(*infix.left) + seq![infix.token]
            + expression_tokens(*infix.right),
    }
}

/// The expression that a prefix rule builds is made of the rule's token and
/// of the tokens that it consumed, in their order.
pub proof fn lemma_prefix_expression_keeps_tokens(token: TokenView, tokens: Seq<TokenView>)
    ensures
        prefix_expression(token, tokens) matches Outcome::Parsed { value, rest }
            ==> expression_tokens(value) + rest == seq![token] + tokens,
    decreases
            tokens.len() + if is_prefix_operator(token.token_type) {
                1nat
            } else {
                0nat
            },
            0nat,
{
    if is_prefix_operator(token.token_type) {
        lemma_expression_keeps_tokens(tokens, Precedence::Prefix);
        match expression(tokens, Precedence::Prefix) {
            Outcome::Parsed { value, rest } => {
                assert((seq![token] + expression_tokens(value)) + rest =~= seq![token] + (
                expression_tokens(value) + rest));
            },
            _ => {},
        }
    }
}

/// Parsing neither loses a token nor invents one, and keeps their order: the
/// tokens of the expression that was parsed, followed by the tokens that are
/// still ahead, are the tokens that were ahead before.
pub proof fn lemma_expression_keeps_tokens(tokens: Seq<TokenView>, precedence: Precedence)
    ensures
        expression(tokens, precedence) matches Outcome::Parsed { value, rest }
            ==> expression_tokens(value) + rest == tokens,
    decreases tokens.len(), 1nat,
{
    lemma_prefix_expression_keeps_tokens(current(tokens), advance(tokens));
    match prefix_expression(current(tokens), advance(tokens)) {
        Outcome::Parsed { value, rest } => {
            assert(tokens.len() > 0);
            assert(seq![current(tokens)] + advance(tokens) =~= tokens);
            if rest.len() < tokens.len() {
                lemma_infix_chain_keeps_tokens(value, rest, precedence);
            }
        },
        _ => {},
    }
}

/// A chain of binary operators keeps the tokens of its left operand and
/// those that it consumed, in their order.
pub proof fn lemma_infix_chain_keeps_tokens(
    left: ExpressionView,
    tokens: Seq<TokenView>,
    precedence: Precedence,
)
    ensures
        infix_chain(left, tokens, precedence) matches Outcome::Parsed { value, rest }
            ==> expression_tokens(value) + rest == expression_tokens(left) + tokens,
    decreases tokens.len(), 3nat,
{
    match infix_level(tokens, precedence) {
        Some(level) => {
            let token = current(tokens);
            lemma_expression_keeps_tokens(advance(tokens), level);
            match expression(advance(tokens), level) {
                Outcome::Parsed { value: right, rest } => {
                    let both = infix_node(left, token, right);
                    assert(infix_expression(left, token, level, advance(tokens)) == (
                    Outcome::Parsed { value: both, rest }));
                    assert(seq![token] + advance(tokens) =~= tokens);
                    assert(expression_tokens(both) + rest =~= expression_tokens(left) + (seq![
                        token,
                    ] + (expression_tokens(right) + rest)));
                    assert(expression_tokens(left) + (seq![token] + advance(tokens))
                        =~= expression_tokens(left) + tokens);
                    lemma_expression_consumes(advance(tokens), level);
                    lemma_infix_chain_keeps_tokens(both, rest, precedence);
                },
                _ => {},
            }
        },
        None => {},
    }
}

/// The level of the binary operator at the root of `expression`; an
/// expression that is no application of a binary operator has none.
pub open spec fn root_level(expression: ExpressionView) -> Option<Precedence> {
    match expression {
        ExpressionView::Infix(infix) => Precedence::look_up_by(infix.token.token_type),
        _ => None,
    }
}

/// The binary operator at the root of `expression`, if there is one, binds
/// tighter than `precedence`.
pub open spec fn binds_tighter_than(expression: ExpressionView, precedence: Precedence) -> bool {
    match root_level(expression) {
        Some(level) => precedence.level() < level.level(),
        None => true,
    }
}

/// The binary operator at the root of `expression`, if there is one, binds
/// at least as tight as `precedence`.
pub open spec fn binds_at_least_as(expression: ExpressionView, precedence: Precedence) -> bool {
    match root_level(expression) {
        Some(level) => precedence.level() <= level.level(),
        None => true,
    }
}

/// The tree follows precedence and associativity. At every application of a
/// binary operator, an operator at the root of the right operand binds
/// strictly tighter and one at the root of the left operand at least as
/// tight; the operand of a prefix operator is never the application of a
/// binary operator.
pub open spec fn follows_precedence(expression: ExpressionView) -> bool
    decreases expression,
{
    match expression {
        ExpressionView::Prefix(prefix) => {
            &&& follows_precedence(*prefix.right)
            &&& root_level(*prefix.right) is None
        },
        ExpressionView::Infix(infix) => {
            &&& Precedence::look_up_by(infix.token.token_type) matches Some(level)
            &&& follows_precedence(*infix.left)
            &&& follows_precedence(*infix.right)
            &&& binds_at_least_as(*infix.left, level)
            &&& binds_tighter_than(*infix.right, level)
        },
        _ => true,
    }
}

/// The expression that a prefix rule builds follows precedence, and is no
/// application of a binary operator.
pub proof fn lemma_prefix_expression_follows_precedence(token: TokenView, tokens: Seq<TokenView>)
    ensures
        prefix_expression(token, tokens) matches Outcome::Parsed { value, rest } ==> {
            &&& follows_precedence(value)
            &&& root_level(value) is None
        },
    decreases
            tokens.len() + if is_prefix_operator(token.token_type) {
                1nat
            } else {
                0nat
            },
            0nat,
{
    if is_prefix_operator(token.token_type) {
        lemma_expression_follows_precedence(tokens, Precedence::Prefix);
    }
}

/// Every expression that is parsed follows precedence and associativity.
/// Its own root binds tighter than the level it was parsed at, and it ends
/// only where no operator that binds tighter than that level follows.
pub proof fn lemma_expression_follows_precedence(tokens: Seq<TokenView>, precedence: Precedence)
    ensures
        expression(tokens, precedence) matches Outcome::Parsed { value, rest } ==> {
            &&& follows_precedence(value)
            &&& binds_tighter_than(value, precedence)
            &&& infix_level(rest, precedence) is None
        },
    decreases tokens.len(), 1nat,
{
    lemma_prefix_expression_follows_precedence(current(tokens), advance(tokens));
    match prefix_expression(current(tokens), advance(tokens)) {
        Outcome::Parsed { value, rest } => {
            if rest.len() < tokens.len() {
                lemma_infix_chain_follows_precedence(value, rest, precedence);
            } else {
                lemma_prefix_expression_consumes(current(tokens), advance(tokens));
            }
        },
        _ => {},
    }
}

/// Folding binary operators onto an expression keeps it in line with
/// precedence, where no operator that binds tighter than its root follows
/// it.
pub proof fn lemma_infix_chain_follows_precedence(
    left: ExpressionView,
    tokens: Seq<TokenView>,
    precedence: Precedence,
)
    requires
        follows_precedence(left),
        binds_tighter_than(left, precedence),
        root_level(left) matches Some(level) ==> infix_level(tokens, level) is None,
    ensures
        infix_chain(left, tokens, precedence) matches Outcome::Parsed { value, rest } ==> {
            &&& follows_precedence(value)
            &&& binds_tighter_than(value, precedence)
            &&& infix_level(rest, precedence) is None
        },
    decreases tokens.len(), 3nat,
{
    match infix_level(tokens, precedence) {
        Some(level) => {
            let token = current(tokens);
            lemma_expression_follows_precedence(advance(tokens), level);
            lemma_expression_consumes(advance(tokens), level);
            match expression(advance(tokens), level) {
                Outcome::Parsed { value: right, rest } => {
                    let both = infix_node(left, token, right);
                    assert(infix_expression(left, token, level, advance(tokens)) == (
                    Outcome::Parsed { value: both, rest }));
                    assert(follows_precedence(both));
                    lemma_infix_chain_follows_precedence(both, rest, precedence);
                },
                _ => {},
            }
        },
        None => {},
    }
}

/// Precedence and associativity. In `x first y second z`, where `x`, `y` and
/// `z` are identifiers and `first` and `second` binary operators, `second`
/// takes `y` as its left operand only if it binds strictly tighter than
/// `first`: `x first (y second z)`. Otherwise `first` takes `y`, so that
/// operators of one level associate to the left: `(x first y) second z`.
pub proof fn lemma_two_binary_operators(
    x: Seq<char>,
    first: TokenView,
    y: Seq<char>,
    second: TokenView,
    z: Seq<char>,
)
    requires
        Precedence::look_up_by(first.token_type) is Some,
        Precedence::look_up_by(second.token_type) is Some,
    ensures
        expression(
            seq![identifier_token(x), first, identifier_token(y), second, identifier_token(z)],
            Precedence::Lowest,
        ) == (Outcome::Parsed {
            value: if Precedence::look_up_by(first.token_type).unwrap().level()
                < Precedence::look_up_by(second.token_type).unwrap().level() {
                infix_node(
                    identifier_leaf(x),
                    first,
                    infix_node(identifier_leaf(y), second, identifier_leaf(z)),
                )
            } else {
                infix_node(
                    infix_node(identifier_leaf(x), first, identifier_leaf(y)),
                    second,
                    identifier_leaf(z),
                )
            },
            rest: Seq::empty(),
        }),
{
    let level_first = Precedence::look_up_by(first.token_type).unwrap();
    let level_second = Precedence::look_up_by(second.token_type).unwrap();
    let all = seq![identifier_token(x), first, identifier_token(y), second, identifier_token(z)];
    let from_first = seq![first, identifier_token(y), second, identifier_token(z)];
    let from_y = seq![identifier_token(y), second, identifier_token(z)];
    let from_second = seq![second, identifier_token(z)];
    let from_z = seq![identifier_token(z)];
    let none = Seq::<TokenView>::empty();
    assert(advance(all) =~= from_first);
    assert(advance(from_first) =~= from_y);
    assert(advance(from_y) =~= from_second);
    assert(advance(from_second) =~= from_z);
    assert(advance(from_z) =~= none);

    assert(prefix_expression(identifier_token(z), none) == (Outcome::Parsed {
        value: identifier_leaf(z),
        rest: none,
    }));
    assert(infix_level(none, level_second) is None);
    assert(infix_chain(identifier_leaf(z), none, level_second) == (Outcome::Parsed {
        value: identifier_leaf(z),
        rest: none,
    }));
    assert(expression(from_z, level_second) == (Outcome::Parsed {
        value: identifier_leaf(z),
        rest: none,
    }));
    assert(prefix_expression(identifier_token(y), from_second) == (Outcome::Parsed {
        value: identifier_leaf(y),
        rest: from_second,
    }));
    assert(prefix_expression(identifier_token(x), from_first) == (Outcome::Parsed {
        value: identifier_leaf(x),
        rest: from_first,
    }));
    assert(infix_level(from_first, Precedence::Lowest) == Some(level_first));

    if level_first.level() < level_second.level() {
        let right = infix_node(identifier_leaf(y), second, identifier_leaf(z));
        let whole = infix_node(identifier_leaf(x), first, right);
        assert(infix_level(from_second, level_first) == Some(level_second));
        assert(infix_expression(identifier_leaf(y), second, level_second, from_z) == (
        Outcome::Parsed { value: right, rest: none }));
        assert(infix_level(none, level_first) is None);
        assert(infix_chain(right, none, level_first) == (Outcome::Parsed {
            value: right,
            rest: none,
        }));
        assert(infix_chain(identifier_leaf(y), from_second, level_first) == (Outcome::Parsed {
            value: right,
            rest: none,
        }));
        assert(expression(from_y, level_first) == (Outcome::Parsed { value: right, rest: none }));
        assert(infix_expression(identifier_leaf(x), first, level_first, from_y) == (
        Outcome::Parsed { value: whole, rest: none }));
        assert(infix_level(none, Precedence::Lowest) is None);
        assert(infix_chain(whole, none, Precedence::Lowest) == (Outcome::Parsed {
            value: whole,
            rest: none,
        }));
        assert(infix_chain(identifier_leaf(x), from_first, Precedence::Lowest) == (
        Outcome::Parsed { value: whole, rest: none }));
    } else {
        let left = infix_node(identifier_leaf(x), first, identifier_leaf(y));
        let whole = infix_node(left, second, identifier_leaf(z));
        assert(infix_level(from_second, level_first) is None);
        assert(infix_chain(identifier_leaf(y), from_second, level_first) == (Outcome::Parsed {
            value: identifier_leaf(y),
            rest: from_second,
        }));
        assert(expression(from_y, level_first) == (Outcome::Parsed {
            value: identifier_leaf(y),
            rest: from_second,
        }));
        assert(infix_expression(identifier_leaf(x), first, level_first, from_y) == (
        Outcome::Parsed { value: left, rest: from_second }));
        assert(infix_level(from_second, Precedence::Lowest) == Some(level_second));
        assert(infix_expression(left, second, level_second, from_z) == (Outcome::Parsed {
            value: whole,
            rest: none,
        }));
        assert(infix_level(none, Precedence::Lowest) is None);
        assert(infix_chain(whole, none, Precedence::Lowest) == (Outcome::Parsed {
            value: whole,
            rest: none,
        }));
        assert(infix_chain(left, from_second, Precedence::Lowest) == (Outcome::Parsed {
            value: whole,
            rest: none,
        }));
        assert(infix_chain(identifier_leaf(x), from_first, Precedence::Lowest) == (
        Outcome::Parsed { value: whole, rest: none }));
    }
}

/// The tokens of `left + right;`, where `left` and `right` are names.
pub proof fn lemma_tokens_of_sum(left: Seq<char>, right: Seq<char>)
    requires
        is_identifier(left),
        is_identifier(right),
    ensures
        tokens(left + " + "@ + right + ";"@) == seq![
            TokenView { token_type: TokenType::Ident, literal: left },
            TokenView { token_type: TokenType::Plus, literal: "+"@ },
            TokenView { token_type: TokenType::Ident, literal: right },
            TokenView { token_type: TokenType::Semicolon, literal: ";"@ },
        ],
{
    reveal_strlit(" + ");
    reveal_strlit("+");
    reveal_strlit(";");
    let none = Seq::<char>::empty();
    let blank = seq![' '];
    let text = left + " + "@ + right + ";"@;
    let after_left = " + "@ + right + ";"@;
    let after_plus = blank + right + ";"@;
    let after_right = ";"@;

    assert(text =~= none + left + after_left);
    assert(after_left[0] == ' ');
    lemma_scan_word(none, left, after_left);

    assert(after_left =~= blank + seq!['+'] + after_plus);
    assert(after_plus[0] == ' ');
    lemma_scan_symbol(blank, '+', after_plus);
    assert("+"@ =~= seq!['+']);

    assert(after_right[0] == ';');
    lemma_scan_word(blank, right, after_right);

    assert(after_right =~= none + seq![';'] + none);
    lemma_scan_symbol(none, ';', none);
    assert(";"@ =~= seq![';']);

    assert(none.skip(0) =~= none);
    assert(scan(none).token.token_type == TokenType::EOF) by {
        lemma_run_length(none, CharClass::Whitespace, 0);
    }
    assert(tokens(none) =~= Seq::<TokenView>::empty());
    assert(tokens(after_right) =~= seq![scan(after_right).token]);
    assert(tokens(after_plus) =~= seq![scan(after_plus).token] + tokens(after_right));
    assert(tokens(after_left) =~= seq![scan(after_left).token] + tokens(after_plus));
    assert(tokens(text) =~= seq![scan(text).token] + tokens(after_left));
}

/// A statement of the form `left + right;`, where `left` and `right` are
/// names, is parsed to one expression statement and no diagnostic. The root
/// of its expression is the application of `+` to two leaves, the
/// identifier `left` and the identifier `right`.
pub proof fn lemma_sum_of_identifiers(left: Seq<char>, right: Seq<char>)
    requires
        is_identifier(left),
        is_identifier(right),
    ensures
        program(tokens(left + " + "@ + right + ";"@)) == Some(
            ProgramOutcome {
                statements: seq![
                    StatementView::Expression(
                        ExpressionStatementView {
                            expression: ExpressionView::Infix(
                                InfixExpressionView {
                                    token: TokenView {
                                        token_type: TokenType::Plus,
                                        literal: "+"@,
                                    },
                                    left: Box::new(identifier_leaf(left)),
                                    operator: "+"@,
                                    right: Box::new(identifier_leaf(right)),
                                },
                            ),
                        },
                    ),
                ],
                diagnostics: Seq::empty(),
            },
        ),
{
    lemma_tokens_of_sum(left, right);
    let name = TokenView { token_type: TokenType::Ident, literal: left };
    let plus = TokenView { token_type: TokenType::Plus, literal: "+"@ };
    let other = TokenView { token_type: TokenType::Ident, literal: right };
    let semicolon = TokenView { token_type: TokenType::Semicolon, literal: ";"@ };
    let all = seq![name, plus, other, semicolon];
    let from_plus = seq![plus, other, semicolon];
    let from_other = seq![other, semicolon];
    let last = seq![semicolon];
    let none = Seq::<TokenView>::empty();
    assert(advance(all) =~= from_plus);
    assert(advance(from_plus) =~= from_other);
    assert(advance(from_other) =~= last);
    assert(advance(last) =~= none);
    let sum = ExpressionView::Infix(
        InfixExpressionView {
            token: plus,
            left: Box::new(identifier_leaf(left)),
            operator: "+"@,
            right: Box::new(identifier_leaf(right)),
        },
    );

    assert(infix_level(last, Precedence::Sum) is None);
    assert(infix_chain(identifier_leaf(right), last, Precedence::Sum) == (Outcome::Parsed {
        value: identifier_leaf(right),
        rest: last,
    }));
    assert(prefix_expression(other, last) == (Outcome::Parsed {
        value: identifier_leaf(right),
        rest: last,
    }));
    assert(expression(from_other, Precedence::Sum) == (Outcome::Parsed {
        value: identifier_leaf(right),
        rest: last,
    }));
    assert(infix_expression(identifier_leaf(left), plus, Precedence::Sum, from_other) == (
    Outcome::Parsed { value: sum, rest: last }));
    assert(infix_level(last, Precedence::Lowest) is None);
    assert(infix_chain(sum, last, Precedence::Lowest) == (Outcome::Parsed {
        value: sum,
        rest: last,
    }));
    assert(infix_level(from_plus, Precedence::Lowest) == Some(Precedence::Sum));
    assert(infix_chain(identifier_leaf(left), from_plus, Precedence::Lowest) == (Outcome::Parsed {
        value: sum,
        rest: last,
    }));
    assert(prefix_expression(name, from_plus) == (Outcome::Parsed {
        value: identifier_leaf(left),
        rest: from_plus,
    }));
    assert(expression(all, Precedence::Lowest) == (Outcome::Parsed { value: sum, rest: last }));
    assert(after_expression_statement(last) == last);
    assert(statement(all) == (Outcome::Parsed {
        value: StatementView::Expression(ExpressionStatementView { expression: sum }),
        rest: last,
    }));
    assert(program(none) == Some(
        ProgramOutcome { statements: Seq::empty(), diagnostics: Seq::empty() },
    ));
    assert(seq![StatementView::Expression(ExpressionStatementView { expression: sum })]
        + Seq::<StatementView>::empty() =~= seq![
        StatementView::Expression(ExpressionStatementView { expression: sum }),
    ]);
}

} // verus!
