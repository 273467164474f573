//! The syntax tree: statements and expressions, each with the token it came
//! from, and the text that prints them.
//!
//! Every node type has a view, a value of the same shape whose texts are
//! sequences of characters; contracts speak of the views.
use crate::decimal::{i64_value, parse_i64};
use crate::token::{Token, TokenView};
use vstd::pervasive::unreached;
use vstd::prelude::*;

verus! {

/// A node of the tree.
pub trait Node {
    /// The text of the token that the node came from.
    spec fn spec_token_literal(&self) -> Seq<char>;

    fn token_literal(&self) -> (literal: String)
        ensures
            literal@ == self.spec_token_literal(),
    ;
}

pub struct IdentifierView {
    pub token: TokenView,
    pub value: Seq<char>,
}

pub struct IntegerLiteralView {
    pub token: TokenView,
    pub value: i64,
}

pub struct BooleanView {
    pub token: TokenView,
    pub value: bool,
}

pub struct PrefixExpressionView {
    pub token: TokenView,
    pub operator: Seq<char>,
    pub right: Box<ExpressionView>,
}

pub struct InfixExpressionView {
    pub token: TokenView,
    pub left: Box<ExpressionView>,
    pub operator: Seq<char>,
    pub right: Box<ExpressionView>,
}

pub enum ExpressionView {
    Identifier(IdentifierView),
    Integer(IntegerLiteralView),
    Prefix(PrefixExpressionView),
    Infix(InfixExpressionView),
    Boolean(BooleanView),
}

pub struct LetStatementView {
    pub token: TokenView,
    pub name: IdentifierView,
    pub value: ExpressionView,
}

pub struct ReturnStatementView {
    pub token: TokenView,
    pub return_value: ExpressionView,
}

pub struct ExpressionStatementView {
    pub expression: ExpressionView,
}

pub enum StatementView {
    Let(LetStatementView),
    Return(ReturnStatementView),
    Expression(ExpressionStatementView),
}

impl IdentifierView {
    /// An identifier prints as its name.
    pub open spec fn render(self) -> Seq<char> {
        self.value
    }
}

impl IntegerLiteralView {
    /// An integer literal prints as the text of its token: as it was
    /// written, leading zeros and all.
    pub open spec fn render(self) -> Seq<char> {
        self.token.literal
    }
}

impl BooleanView {
    /// A boolean prints as the text of its token.
    pub open spec fn render(self) -> Seq<char> {
        self.token.literal
    }
}

impl PrefixExpressionView {
    /// `(` operator operand `)`, with nothing between them.
    pub open spec fn render(self) -> Seq<char>
        decreases self,
    {
        "("@ + self.operator + self.right.render() + ")"@
    }
}

impl InfixExpressionView {
    /// `(` left operator right `)`, with one space on each side of the
    /// operator.
    pub open spec fn render(self) -> Seq<char>
        decreases self,
    {
        "("@ + self.left.render() + " "@ + self.operator + " "@ + self.right.render() + ")"@
    }
}

impl ExpressionView {
    /// The text that prints the expression, with every operator application
    /// in parentheses.
    pub open spec fn render(self) -> Seq<char>
        decreases self,
    {
        match self {
            ExpressionView::Identifier(identifier) => identifier.render(),
            ExpressionView::Integer(integer) => integer.render(),
            ExpressionView::Prefix(prefix) => prefix.render(),
            ExpressionView::Infix(infix) => infix.render(),
            ExpressionView::Boolean(boolean) => boolean.render(),
        }
    }

    pub open spec fn token_literal(self) -> Seq<char> {
        match self {
            ExpressionView::Identifier(identifier) => identifier.token.literal,
            ExpressionView::Integer(integer) => integer.token.literal,
            ExpressionView::Prefix(prefix) => prefix.token.literal,
            ExpressionView::Infix(infix) => infix.token.literal,
            ExpressionView::Boolean(boolean) => boolean.token.literal,
        }
    }
}

impl LetStatementView {
    /// The statement's own token text, the name, ` = `, the value and `;`.
    pub open spec fn render(self) -> Seq<char> {
        self.token.literal + " "@ + self.name.render() + " = "@ + self.value.render() + ";"@
    }
}

impl ReturnStatementView {
    /// The statement's own token text, the value and `;`.
    pub open spec fn render(self) -> Seq<char> {
        self.token.literal + " "@ + self.return_value.render() + ";"@
    }
}

impl ExpressionStatementView {
    /// An expression statement prints as its expression.
    pub open spec fn render(self) -> Seq<char> {
        self.expression.render()
    }
}

impl StatementView {
    pub open spec fn render(self) -> Seq<char> {
        match self {
            StatementView::Let(statement) => statement.render(),
            StatementView::Return(statement) => statement.render(),
            StatementView::Expression(statement) => statement.render(),
        }
    }

    pub open spec fn token_literal(self) -> Seq<char> {
        match self {
            StatementView::Let(statement) => statement.token.literal,
            StatementView::Return(statement) => statement.token.literal,
            StatementView::Expression(statement) => statement.expression.token_literal(),
        }
    }
}

/// The texts of the statements, one after the other with nothing between
/// them.
pub open spec fn render_all(statements: Seq<StatementView>) -> Seq<char>
    decreases statements.len(),
{
    if statements.len() == 0 {
        Seq::empty()
    } else {
        render_all(statements.drop_last()) + statements.last().render()
    }
}

#[derive(Debug)]
pub enum Statement {
    Let(LetStatement),
    Return(ReturnStatement),
    Expression(ExpressionStatement),
}

#[derive(Debug)]
pub struct LetStatement {
    pub token: Box<Token>,
    pub name: Identifier,
    pub value: Box<Expression>,
}

#[derive(Debug)]
pub struct ReturnStatement {
    pub token: Box<Token>,
    pub return_value: Box<Expression>,
}

#[derive(Debug)]
pub struct ExpressionStatement {
    pub expression: Box<Expression>,
}

#[derive(Debug)]
pub enum Expression {
    Identifier(Identifier),
    Integer(IntegerLiteral),
    Prefix(PrefixExpression),
    Infix(InfixExpression),
    Boolean(Boolean),
}

#[derive(Debug)]
pub struct Identifier {
    pub token: Box<Token>,
    pub value: String,
}

#[derive(Debug)]
pub struct IntegerLiteral {
    pub token: Box<Token>,
    pub value: i64,
}

#[derive(Debug)]
pub struct PrefixExpression {
    pub token: Box<Token>,
    pub operator: String,
    pub right: Box<Expression>,
}

#[derive(Debug)]
pub struct InfixExpression {
    pub token: Box<Token>,
    pub left: Box<Expression>,
    pub operator: String,
    pub right: Box<Expression>,
}

#[derive(Debug)]
pub struct Boolean {
    pub token: Box<Token>,
    pub value: bool,
}

/// The statements of a program, in source order.
pub type Program = Vec<Statement>;

/// The view of an expression, node by node.
pub open spec fn expression_view(expression: Expression) -> ExpressionView
    decreases expression,
{
    match expression {
        Expression::Identifier(identifier) => ExpressionView::Identifier(identifier@),
        Expression::Integer(integer) => ExpressionView::Integer(integer@),
        Expression::Prefix(prefix) => ExpressionView::Prefix(
            PrefixExpressionView {
                token: prefix.token@,
                operator: prefix.operator@,
                right: Box::new(expression_view(*prefix.right)),
            },
        ),
        Expression::Infix(infix) => ExpressionView::Infix(
            InfixExpressionView {
                token: infix.token@,
                left: Box::new(expression_view(*infix.left)),
                operator: infix.operator@,
                right: Box::new(expression_view(*infix.right)),
            },
        ),
        Expression::Boolean(boolean) => ExpressionView::Boolean(boolean@),
    }
}

/// The views of the statements of a program.
pub open spec fn statement_views(program: Seq<Statement>) -> Seq<StatementView> {
    Seq::new(program.len(), |i: int| program[i]@)
}

impl View for Identifier {
    type V = IdentifierView;

    open spec fn view(&self) -> IdentifierView {
        IdentifierView { token: self.token@, value: self.value@ }
    }
}

impl View for IntegerLiteral {
    type V = IntegerLiteralView;

    open spec fn view(&self) -> IntegerLiteralView {
        IntegerLiteralView { token: self.token@, value: self.value }
    }
}

impl View for Boolean {
    type V = BooleanView;

    open spec fn view(&self) -> BooleanView {
        BooleanView { token: self.token@, value: self.value }
    }
}

impl View for PrefixExpression {
    type V = PrefixExpressionView;

    open spec fn view(&self) -> PrefixExpressionView {
        PrefixExpressionView {
            token: self.token@,
            operator: self.operator@,
            right: Box::new(expression_view(*self.right)),
        }
    }
}

impl View for InfixExpression {
    type V = InfixExpressionView;

    open spec fn view(&self) -> InfixExpressionView {
        InfixExpressionView {
            token: self.token@,
            left: Box::new(expression_view(*self.left)),
            operator: self.operator@,
            right: Box::new(expression_view(*self.right)),
        }
    }
}

impl View for Expression {
    type V = ExpressionView;

    open spec fn view(&self) -> ExpressionView {
        expression_view(*self)
    }
}

impl View for LetStatement {
    type V = LetStatementView;

    open spec fn view(&self) -> LetStatementView {
        LetStatementView { token: self.token@, name: self.name@, value: self.value@ }
    }
}

impl View for ReturnStatement {
    type V = ReturnStatementView;

    open spec fn view(&self) -> ReturnStatementView {
        ReturnStatementView { token: self.token@, return_value: self.return_value@ }
    }
}

impl View for ExpressionStatement {
    type V = ExpressionStatementView;

    open spec fn view(&self) -> ExpressionStatementView {
        ExpressionStatementView { expression: self.expression@ }
    }
}

impl View for Statement {
    type V = StatementView;

    open spec fn view(&self) -> StatementView {
        match self {
            Statement::Let(statement) => StatementView::Let(statement@),
            Statement::Return(statement) => StatementView::Return(statement@),
            Statement::Expression(statement) => StatementView::Expression(statement@),
        }
    }
}

impl Node for Statement {
    open spec fn spec_token_literal(&self) -> Seq<char> {
        self@.token_literal()
    }

    fn token_literal(&self) -> (literal: String) {
        match self {
            Statement::Let(statement) => statement.token_literal(),
            Statement::Return(statement) => statement.token_literal(),
            Statement::Expression(statement) => statement.token_literal(),
        }
    }
}

impl Statement {
    /// The text that prints the statement.
    pub fn to_string(&self) -> (s: String)
        ensures
            s@ == self@.render(),
    {
        match self {
            Statement::Let(statement) => statement.to_string(),
            Statement::Return(statement) => statement.to_string(),
            Statement::Expression(statement) => statement.to_string(),
        }
    }
}

impl LetStatement {
    pub fn new(token: Box<Token>, name: Identifier, value: Box<Expression>) -> (statement: Self)
        ensures
            statement.token == token,
            statement.name == name,
            statement.value == value,
    {
        Self { token, name, value }
    }

    /// `let name = value;`, with the text of the statement's own token in
    /// the place of `let`.
    pub fn to_string(&self) -> (s: String)
        ensures
            s@ == self@.render(),
    {
        let mut s = self.token_literal();
        s.append(" ");
        s.append(self.name.to_string().as_str());
        s.append(" = ");
        s.append(self.value.to_string().as_str());
        s.append(";");
        s
    }
}

impl Node for LetStatement {
    open spec fn spec_token_literal(&self) -> Seq<char> {
        self.token@.literal
    }

    fn token_literal(&self) -> (literal: String) {
        self.token.literal.clone()
    }
}

impl ReturnStatement {
    pub fn new(token: Box<Token>, return_value: Box<Expression>) -> (statement: Self)
        ensures
            statement.token == token,
            statement.return_value == return_value,
    {
        Self { token, return_value }
    }

    /// `return value;`, with the text of the statement's own token in the
    /// place of `return`.
    pub fn to_string(&self) -> (s: String)
        ensures
            s@ == self@.render(),
    {
        let mut s = self.token_literal();
        s.append(" ");
        s.append(self.return_value.to_string().as_str());
        s.append(";");
        s
    }
}

impl Node for ReturnStatement {
    open spec fn spec_token_literal(&self) -> Seq<char> {
        self.token@.literal
    }

    fn token_literal(&self) -> (literal: String) {
        self.token.literal.clone()
    }
}

impl ExpressionStatement {
    pub fn new(expression: Box<Expression>) -> (statement: Self)
        ensures
            statement.expression == expression,
    {
        Self { expression }
    }

    pub fn to_string(&self) -> (s: String)
        ensures
            s@ == self@.render(),
    {
        self.expression.to_string()
    }
}

impl Node for ExpressionStatement {
    open spec fn spec_token_literal(&self) -> Seq<char> {
        self.expression@.token_literal()
    }

    fn token_literal(&self) -> (literal: String) {
        self.expression.token_literal()
    }
}

impl Node for Expression {
    open spec fn spec_token_literal(&self) -> Seq<char> {
        self@.token_literal()
    }

    fn token_literal(&self) -> (literal: String) {
        match self {
            Expression::Identifier(identifier) => identifier.token_literal(),
            Expression::Integer(integer_literal) => integer_literal.token_literal(),
            Expression::Prefix(prefix) => prefix.token_literal(),
            Expression::Infix(infix) => infix.token_literal(),
            Expression::Boolean(boolean) => boolean.token_literal(),
        }
    }
}

impl Expression {
    /// The text that prints the expression, with every operator application
    /// in parentheses.
    pub fn to_string(&self) -> (s: String)
        ensures
            s@ == self@.render(),
        decreases self,
    {
        match self {
            Expression::Identifier(identifier) => identifier.to_string(),
            Expression::Integer(integer_literal) => integer_literal.to_string(),
            Expression::Prefix(prefix) => prefix.to_string(),
            Expression::Infix(infix) => infix.to_string(),
            Expression::Boolean(boolean) => boolean.to_string(),
        }
    }
}

impl Identifier {
    /// The identifier that `token` names: its value is the token's text.
    pub fn new(token: Box<Token>) -> (identifier: Self)
        ensures
            identifier.token == token,
            identifier.value@ == token@.literal,
    {
        let value = token.literal.clone();
        Self { token, value }
    }

    pub fn to_string(&self) -> (s: String)
        ensures
            s@ == self@.render(),
    {
        self.value.clone()
    }
}

impl Node for Identifier {
    open spec fn spec_token_literal(&self) -> Seq<char> {
        self.token@.literal
    }

    fn token_literal(&self) -> (literal: String) {
        self.token.literal.clone()
    }
}

impl IntegerLiteral {
    /// The literal that `token` writes. The token's text has to write a
    /// 64-bit signed integer in decimal: the literal's value is that
    /// integer.
    pub fn new(token: Box<Token>) -> (integer: Self)
        requires
            i64_value(token@.literal) is Some,
        ensures
            integer.token == token,
            Some(integer.value) == i64_value(token@.literal),
    {
        let value = match parse_i64(token.literal.as_str()) {
            Some(value) => value,
            None => unreached(),
        };
        Self { token, value }
    }

    /// The literal as it was written: the text of its token.
    pub fn to_string(&self) -> (s: String)
        ensures
            s@ == self@.render(),
    {
        self.token.literal.clone()
    }
}

impl Node for IntegerLiteral {
    open spec fn spec_token_literal(&self) -> Seq<char> {
        self.token@.literal
    }

    fn token_literal(&self) -> (literal: String) {
        self.token.literal.clone()
    }
}

impl PrefixExpression {
    /// The application of the operator that `token` writes to `right`.
    pub fn new(token: Box<Token>, right: Box<Expression>) -> (prefix: Self)
        ensures
            prefix.token == token,
            prefix.operator@ == token@.literal,
            prefix.right == right,
    {
        let operator = token.literal.clone();
        Self { token, operator, right }
    }

    pub fn to_string(&self) -> (s: String)
        ensures
            s@ == self@.render(),
        decreases self,
    {
        let mut s = "(".to_owned();
        s.append(self.operator.as_str());
        s.append(self.right.to_string().as_str());
        s.append(")");
        s
    }
}

impl Node for PrefixExpression {
    open spec fn spec_token_literal(&self) -> Seq<char> {
        self.token@.literal
    }

    fn token_literal(&self) -> (literal: String) {
        self.token.literal.clone()
    }
}

impl InfixExpression {
    /// The application of the operator that `token` writes to `left` and
    /// `right`.
    pub fn new(token: Box<Token>, left: Box<Expression>, right: Box<Expression>) -> (infix: Self)
        ensures
            infix.token == token,
            infix.left == left,
            infix.operator@ == token@.literal,
            infix.right == right,
    {
        let operator = token.literal.clone();
        Self { token, left, operator, right }
    }

    pub fn to_string(&self) -> (s: String)
        ensures
            s@ == self@.render(),
        decreases self,
    {
        let mut s = "(".to_owned();
        s.append(self.left.to_string().as_str());
        s.append(" ");
        s.append(self.operator.as_str());
        s.append(" ");
        s.append(self.right.to_string().as_str());
        s.append(")");
        s
    }
}

impl Node for InfixExpression {
    open spec fn spec_token_literal(&self) -> Seq<char> {
        self.token@.literal
    }

    fn token_literal(&self) -> (literal: String) {
        self.token.literal.clone()
    }
}

impl Boolean {
    pub fn new(token: Box<Token>, value: bool) -> (boolean: Self)
        ensures
            boolean.token == token,
            boolean.value == value,
    {
        Self { token, value }
    }

    /// The boolean as it was written: the text of its token.
    pub fn to_string(&self) -> (s: String)
        ensures
            s@ == self@.render(),
    {
        self.token.literal.clone()
    }
}

impl Node for Boolean {
    open spec fn spec_token_literal(&self) -> Seq<char> {
        self.token@.literal
    }

    fn token_literal(&self) -> (literal: String) {
        self.token.literal.clone()
    }
}

/// The text that prints a program: the texts of its statements, one after
/// the other with nothing between them.
pub fn string(program: &[Statement]) -> (s: String)
    ensures
        s@ == render_all(statement_views(program@)),
{
    let mut s = String::new();
    let mut i: usize = 0;
    while i < program.len()
        invariant
            i <= program@.len(),
            s@ == render_all(statement_views(program@.take(i as int))),
        decreases program@.len() - i,
    {
        proof {
            let before = statement_views(program@.take(i as int));
            let after = statement_views(program@.take(i + 1));
            assert(after.drop_last() =~= before);
            assert(after.last() == program@[i as int]@);
        }
        s.append(program[i].to_string().as_str());
        i += 1;
    }
    assert(program@.take(i as int) =~= program@);
    s
}

} // verus!
