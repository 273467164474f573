use pygmaea::ast::{string, Expression, Node, Statement};
use pygmaea::error::{ParseError, ParseExpressionError};
use pygmaea::lexer::Lexer;
use pygmaea::parser::Parser;
use pygmaea::token::Token;
use pygmaea::token_type::TokenType;

fn setup_let_statement_input() -> Vec<String> {
    vec![
        "
        let x = 5;",
        "let y = 10;",
        "let foobar = 838383;
        ",
    ]
    .into_iter()
    .map(str::to_string)
    .collect()
}

fn setup_let_statement_expects() -> Vec<String> {
    vec!["x", "y", "foobar"]
        .into_iter()
        .map(str::to_string)
        .collect()
}

fn assert_let_statement(statement: &Statement, expect_name: String, i: usize) {
    let let_statement = match statement {
        Statement::Let(ref statement) => statement,
        other_statement => panic!(
            "[{}] statement not ReturnStatement. got={}",
            i,
            other_statement.to_string()
        ),
    };
    assert_eq!(
        "let".to_string(),
        let_statement.token_literal(),
        "[{}] statement.token_literal not 'let'. got={}",
        i,
        let_statement.token_literal()
    );
    assert_eq!(
        expect_name, let_statement.name.value,
        "[{}] let_statement.name.value not '{}'. got={}",
        i, expect_name, let_statement.name.value
    );
    assert_eq!(
        expect_name,
        let_statement.name.token_literal(),
        "[{}] let_statement.name.token_literal not '{}'. got={}",
        i,
        expect_name,
        let_statement.name.token_literal()
    );
}

fn setup_return_statement_input() -> String {
    "
        return 5;
        return 10;
        return 993322;
        "
    .to_string()
}

fn setup_parsing_prefix_expression_input() -> Vec<String> {
    vec!["!5", "-15", "!true", "!false"]
        .into_iter()
        .map(str::to_string)
        .collect()
}

fn setup_parsing_prefix_expression_expect() -> Vec<(String, Concrete)> {
    vec![
        ("!", Concrete::Integer(5)),
        ("-", Concrete::Integer(15)),
        ("!", Concrete::Boolean(true)),
        ("!", Concrete::Boolean(false)),
    ]
    .into_iter()
    .map(|(prefix, value)| (prefix.to_string(), value))
    .collect()
}

fn setup_parsing_infix_expression_input() -> Vec<String> {
    vec![
        "5 + 5;",
        "5 - 5;",
        "5 * 5;",
        "5 / 5;",
        "5 > 5;",
        "5 < 5;",
        "5 == 5;",
        "5 != 5;",
        "true == true",
        "true != false",
        "false == false",
    ]
    .into_iter()
    .map(str::to_string)
    .collect()
}

fn setup_parsing_infix_expression_expect() -> Vec<(Concrete, String, Concrete)> {
    vec![
        (Concrete::Integer(5), "+", Concrete::Integer(5)),
        (Concrete::Integer(5), "-", Concrete::Integer(5)),
        (Concrete::Integer(5), "*", Concrete::Integer(5)),
        (Concrete::Integer(5), "/", Concrete::Integer(5)),
        (Concrete::Integer(5), ">", Concrete::Integer(5)),
        (Concrete::Integer(5), "<", Concrete::Integer(5)),
        (Concrete::Integer(5), "==", Concrete::Integer(5)),
        (Concrete::Integer(5), "!=", Concrete::Integer(5)),
        (Concrete::Boolean(true), "==", Concrete::Boolean(true)),
        (Concrete::Boolean(true), "!=", Concrete::Boolean(false)),
        (Concrete::Boolean(false), "==", Concrete::Boolean(false)),
    ]
    .into_iter()
    .map(|(left, op, right)| (left, op.to_string(), right))
    .collect()
}

fn assert_infix_expression(
    expression: &Expression,
    left: impl Wrapped,
    operator: String,
    right: impl Wrapped,
    i: usize,
) {
    let infix_expression = match expression {
        Expression::Infix(expression) => expression,
        _ => panic!(
            "[{}] expression is not InfixExpression. got={}",
            i,
            expression.to_string()
        ),
    };

    left.assert_literal_expression(&infix_expression.left, i);
    assert_eq!(
        infix_expression.operator, operator,
        "[{}] expression.operator is not {}. got={}",
        i, operator, infix_expression.operator
    );
    right.assert_literal_expression(&infix_expression.right, i);
}

fn setup_operator_precedence_parsing_input() -> Vec<String> {
    vec![
        "-a * b",
        "!-a",
        "a + b + c",
        "a + b - c",
        "a * b * c",
        "a * b / c",
        "a + b / c",
        "a + b * c + d / e - f",
        "3 + 4; -5 * 5",
        "5 > 4 == 3 < 4",
        "5 < 4 != 3 > 4",
        "3 + 4 * 5 == 3 * 1 + 4 * 5",
        "true",
        "false",
        "3 > 5 == false",
        "3 < 5 == true",
    ]
    .into_iter()
    .map(str::to_string)
    .collect()
}

fn setup_operator_precedence_parsing_expect() -> Vec<String> {
    vec![
        "((-a) * b)",
        "(!(-a))",
        "((a + b) + c)",
        "((a + b) - c)",
        "((a * b) * c)",
        "((a * b) / c)",
        "(a + (b / c))",
        "(((a + (b * c)) + (d / e)) - f)",
        "(3 + 4)((-5) * 5)",
        "((5 > 4) == (3 < 4))",
        "((5 < 4) != (3 > 4))",
        "((3 + (4 * 5)) == ((3 * 1) + (4 * 5)))",
        "true",
        "false",
        "((3 > 5) == false)",
        "((3 < 5) == true)",
    ]
    .into_iter()
    .map(str::to_string)
    .collect()
}

fn setup_boolean_expression_input() -> Vec<String> {
    vec![
        "true;",
        "false;",
        "let foobar = true;",
        "let barfoo = false;",
    ]
    .into_iter()
    .map(str::to_string)
    .collect()
}

fn setup_boolean_expression_expect() -> Vec<bool> {
    vec![true, false, true, false]
}

fn assert_boolean_expression(expression: &Expression, expect: bool, i: usize) {
    let boolean_expression = match expression {
        Expression::Boolean(expression) => expression,
        _ => panic!(
            "[{}] expression is not Boolean. got={}",
            i,
            expression.to_string()
        ),
    };
    assert_eq!(
        expect, boolean_expression.value,
        "[{}] boolean value not {}. got={}",
        i, expect, boolean_expression.value
    );
    assert_eq!(
        expect.to_string(),
        boolean_expression.token_literal(),
        "[{}] literal token_literal not {}. got={}",
        i,
        expect.to_string(),
        boolean_expression.token_literal()
    );
}

fn assert_integer_literal(expression: &Expression, value: i64, i: usize) {
    let integer_literal = match expression {
        Expression::Integer(literal) => literal,
        _ => panic!(
            "[{}] expression not IntegerLiteral. got={}",
            i,
            expression.to_string()
        ),
    };

    assert_eq!(
        value, integer_literal.value,
        "[{}] literal value not {}. got={}",
        i, value, integer_literal.value
    );
    assert_eq!(
        value.to_string(),
        integer_literal.token_literal(),
        "[{}] literal token_literal not {}. got={}",
        i,
        value.to_string(),
        integer_literal.token_literal()
    );
}

fn assert_identifier(expression: &Expression, value: String, i: usize) {
    let identifier = match expression {
        Expression::Identifier(identifier) => identifier,
        _ => panic!(
            "[{}] expression not Identifier. got={}",
            i,
            expression.to_string()
        ),
    };
    assert_eq!(
        identifier.value, value,
        "[{}] identifier.value not {}. got={}",
        i, value, identifier.value
    );
    assert_eq!(
        identifier.token_literal(),
        value,
        "[{}] identifier.token_literal() not {}. got={}",
        i,
        value,
        identifier.token_literal()
    );
}

fn assert_boolean_literal(expression: &Expression, value: bool, i: usize) {
    let boolean = match expression {
        Expression::Boolean(boolean) => boolean,
        _ => panic!(
            "[{}] expression not boolean. got={}",
            i,
            expression.to_string()
        ),
    };
    assert_eq!(
        value, boolean.value,
        "[{}] expression.value not {}. got={}",
        i, value, boolean.value
    );
    assert_eq!(
        value.to_string(),
        boolean.token_literal(),
        "[{}] expression.token_literal() not {}. got={}",
        i,
        value.to_string(),
        boolean.token_literal()
    );
}

fn check_parser_errors(parser: &Parser, i: usize) {
    if parser.errors.is_empty() {
        return;
    }

    println!("[{}] parser has {} errors", i, parser.errors.len());
    parser
        .errors
        .iter()
        .enumerate()
        .for_each(|(i, err)| println!("[{}] parser error: {}", i, err.to_string()));
}

trait Wrapped {
    fn assert_literal_expression(self, expression: &Expression, i: usize);
}

enum Concrete {
    Integer(i64),
    String(String),
    Boolean(bool),
}

impl Wrapped for Concrete {
    fn assert_literal_expression(self, expression: &Expression, i: usize) {
        match self {
            Concrete::Integer(v) => assert_integer_literal(expression, v, i),
            Concrete::String(v) => assert_identifier(expression, v, i),
            Concrete::Boolean(v) => assert_boolean_literal(expression, v, i),
        }
    }
}

fn parse(input: &str) -> (Vec<Statement>, Vec<ParseError>) {
    let lexer = Lexer::new(input.to_string());
    assert!(lexer.integers_fit());
    let mut parser = Parser::new(lexer);
    let program = parser.parse_program();
    (program, parser.errors)
}

fn render(input: &str) -> String {
    let (program, errors) = parse(input);
    assert!(errors.is_empty(), "{}", messages(&errors).join(" "));
    string(&program)
}

fn messages(errors: &[ParseError]) -> Vec<String> {
    errors.iter().map(|error| error.to_string()).collect()
}

fn token(token_type: TokenType, literal: &str) -> Option<Box<Token>> {
    Some(Box::new(Token::new(token_type, literal.to_string())))
}

fn is_peek_error(error: &ParseError, expect: TokenType, actual: &Option<Box<Token>>) -> bool {
    match error {
        ParseError::PeekToken(expected, found) => *expected == expect && found == actual,
        _ => false,
    }
}

fn is_no_prefix(error: &ParseError, actual: &Option<Box<Token>>) -> bool {
    match error {
        ParseError::Expression(ParseExpressionError::NoPrefix(found)) => found == actual,
        _ => false,
    }
}

#[test]
fn parser_test_test_let_statement() {
    let inputs = setup_let_statement_input();
    let expects = setup_let_statement_expects();
    inputs
        .into_iter()
        .zip(expects.into_iter())
        .enumerate()
        .for_each(|(i, (input, expect))| {
            let lexer = Lexer::new(input);
            let mut parser = Parser::new(lexer);
            let program = parser.parse_program();
            check_parser_errors(&parser, i);

            assert_eq!(
                1,
                program.len(),
                "[{}] program does not contains 1 statements. got={}",
                i,
                program.len()
            );
            assert_let_statement(program.get(0).unwrap(), expect, i);
        });
}

#[test]
fn parser_test_test_return_statement() {
    let inputs = vec![setup_return_statement_input()];
    inputs.into_iter().enumerate().for_each(|(i, input)| {
        let lexer = Lexer::new(input);
        let mut parser = Parser::new(lexer);

        let program = parser.parse_program();
        check_parser_errors(&parser, i);

        assert_eq!(
            3,
            program.len(),
            "[{}] program does not contain 3 statements. got={}",
            i,
            program.len()
        );

        program.iter().for_each(|statement| {
            let return_statement = match statement {
                Statement::Return(statement) => statement,
                other_statement => panic!(
                    "[{}] statement not ReturnStatement. got={}",
                    i,
                    other_statement.to_string()
                ),
            };
            assert_eq!(
                "return",
                return_statement.token_literal(),
                "[{}] statement.token_literal not 'return'. got={}",
                i,
                return_statement.token_literal()
            );
        });
    });
}

#[test]
fn parser_test_test_identifier_expression() {
    let inputs = vec!["foobar;".to_string()];
    inputs.into_iter().enumerate().for_each(|(i, input)| {
        let lexer = Lexer::new(input);
        let mut parser = Parser::new(lexer);
        let program = parser.parse_program();

        check_parser_errors(&parser, i);

        assert_eq!(
            1,
            program.len(),
            "[{}] program has not enough etatements. got={}",
            i,
            program.len()
        );

        let expression_statement = match program.get(0) {
            Some(Statement::Expression(statement)) => statement,
            _ => panic!(
                "[{}] program statement is not ExpressionStatement. got={}",
                i,
                program.get(0).unwrap().to_string()
            ),
        };

        let identifier = match *expression_statement.expression {
            Expression::Identifier(ref identifier) => identifier,
            _ => panic!(
                "[{}] expression not Identifier. got={}",
                i,
                expression_statement.to_string()
            ),
        };

        assert_eq!(
            "foobar", identifier.value,
            "[{}] identifier value not {}. got={}",
            i, "foobar", identifier.value
        );
        assert_eq!(
            "foobar",
            identifier.token_literal(),
            "[{}] identifier token_literal() not {}. got={}",
            i,
            "foobar",
            identifier.token_literal()
        );
    });
}

#[test]
fn parser_test_test_integer_literal_expression() {
    let inputs = vec!["5;".to_string()];
    inputs.into_iter().enumerate().for_each(|(i, input)| {
        let lexer = Lexer::new(input);
        let mut parser = Parser::new(lexer);
        let program = parser.parse_program();
        check_parser_errors(&parser, i);

        assert_eq!(
            1,
            program.len(),
            "[{}] program has not enough statements. got={}",
            i,
            program.len()
        );

        let expression_statement = match program.get(0) {
            Some(Statement::Expression(statement)) => statement,
            _ => panic!(
                "[{}] program statements is not ExpressionStatement. got={}",
                i,
                program.get(0).unwrap().to_string()
            ),
        };

        let integer_literal = match *expression_statement.expression {
            Expression::Integer(ref literal) => literal,
            _ => panic!(
                "[{}] expression not IntegerLiteral. got={}",
                i,
                expression_statement.expression.to_string()
            ),
        };
        assert_eq!(
            5, integer_literal.value,
            "[{}] literal value not 5. got={}",
            i, integer_literal.value
        );
        assert_eq!(
            "5".to_string(),
            integer_literal.token_literal(),
            "[{}] literal token_literal not '5'. got={}",
            i,
            integer_literal.token_literal()
        );
    });
}

#[test]
fn parser_test_test_parsing_prefix_expression() {
    let inputs = setup_parsing_prefix_expression_input();
    let expects = setup_parsing_prefix_expression_expect();
    inputs
        .into_iter()
        .zip(expects.into_iter())
        .enumerate()
        .for_each(|(i, (input, expect))| {
            let lexer = Lexer::new(input);
            let mut parser = Parser::new(lexer);
            let program = parser.parse_program();
            check_parser_errors(&parser, i);

            assert_eq!(
                1,
                program.len(),
                "[{}] program statements does not contain 1 statements. got={}",
                i,
                program.len()
            );

            let expression_statement = match program.get(0) {
                Some(Statement::Expression(statement)) => statement,
                _ => panic!(
                    "[{}] program statements is not ExpressionStatement. got={}",
                    i,
                    program.get(0).unwrap().to_string()
                ),
            };

            let prefix_expression = match *expression_statement.expression {
                Expression::Prefix(ref expression) => expression,
                _ => panic!(
                    "[{}] expression is not PrefixExpression. got={}",
                    i,
                    expression_statement.expression.to_string()
                ),
            };
            assert_eq!(
                expect.0, prefix_expression.operator,
                "[{}] expression operator is not {}. got={}",
                i, expect.0, prefix_expression.operator
            );
            expect
                .1
                .assert_literal_expression(&prefix_expression.right, i);
        });
}

#[test]
fn parser_test_test_parsing_infix_expression() {
    let inputs = setup_parsing_infix_expression_input();
    let expects = setup_parsing_infix_expression_expect();

    assert_eq!(
        inputs.len(),
        expects.len(),
        "inputs.len and expects.len is mismatch"
    );

    inputs
        .into_iter()
        .zip(expects.into_iter())
        .enumerate()
        .for_each(|(i, (input, expect))| {
            let mut parser = Parser::new(Lexer::new(input));
            let program = parser.parse_program();

            check_parser_errors(&parser, i);

            assert_eq!(
                1,
                program.len(),
                "[{}] program statements does not contain 1 statements. got={}",
                i,
                program.len()
            );

            let expression_statement = match program.get(0) {
                Some(Statement::Expression(statement)) => statement,
                _ => panic!("[{}] program statement is not ExpressionStatement.", i),
            };

            assert_infix_expression(
                &expression_statement.expression,
                expect.0,
                expect.1,
                expect.2,
                i,
            );
        });
}

#[test]
fn parser_test_test_operator_precedence_parsing() {
    let inputs = setup_operator_precedence_parsing_input();
    let expects = setup_operator_precedence_parsing_expect();
    assert_eq!(
        inputs.len(),
        expects.len(),
        "inputs.len and expects.len is mismatch"
    );
    inputs
        .into_iter()
        .zip(expects.into_iter())
        .enumerate()
        .for_each(|(i, (input, expect))| {
            let mut parser = Parser::new(Lexer::new(input));
            let program = parser.parse_program();
            check_parser_errors(&parser, i);
            assert!(program.first().is_some(), "[{}] first is none", i);
            assert_eq!(
                expect,
                string(&program),
                "[{}] expected={}, got={}",
                i,
                expect,
                string(&program)
            );
        })
}

#[test]
fn parser_test_test_boolean_expression() {
    let inputs = setup_boolean_expression_input();
    let expects = setup_boolean_expression_expect();

    inputs
        .into_iter()
        .zip(expects.into_iter())
        .enumerate()
        .for_each(|(i, (input, expect))| {
            let lexer = Lexer::new(input);
            let mut parser = Parser::new(lexer);
            let program = parser.parse_program();
            check_parser_errors(&parser, i);

            assert!(program.first().is_some(), "first is none");

            match program.get(0).unwrap() {
                Statement::Let(statement) => {
                    assert_boolean_expression(&statement.value, expect, i)
                }
                Statement::Expression(statement) => {
                    assert_boolean_expression(&statement.expression, expect, i)
                }
                _ => panic!(
                    "[{}] statement is not LetStatement or ExpressionStatement. got={}",
                    i,
                    program.get(0).unwrap().to_string()
                ),
            }
        });
}

#[test]
fn parser_test_let_statement() {
    let inputs = setup_let_statement_input();
    let expects = setup_let_statement_expects();
    inputs
        .into_iter()
        .zip(expects.into_iter())
        .enumerate()
        .for_each(|(i, (input, expect))| {
            let lexer = Lexer::new(input);
            let mut parser = Parser::new(lexer);
            let program = parser.parse_program();
            check_parser_errors(&parser, i);

            assert_eq!(
                1,
                program.len(),
                "[{}] program does not contains 1 statements. got={}",
                i,
                program.len()
            );
            assert_let_statement(program.get(0).unwrap(), expect, i);
        });
}

#[test]
fn parser_test_return_statement() {
    let inputs = vec![setup_return_statement_input()];
    inputs.into_iter().enumerate().for_each(|(i, input)| {
        let lexer = Lexer::new(input);
        let mut parser = Parser::new(lexer);

        let program = parser.parse_program();
        check_parser_errors(&parser, i);

        assert_eq!(
            3,
            program.len(),
            "[{}] program does not contain 3 statements. got={}",
            i,
            program.len()
        );

        program.iter().for_each(|statement| {
            let return_statement = match statement {
                Statement::Return(statement) => statement,
                other_statement => panic!(
                    "[{}] statement not ReturnStatement. got={}",
                    i,
                    other_statement.to_string()
                ),
            };
            assert_eq!(
                "return",
                return_statement.token_literal(),
                "[{}] statement.token_literal not 'return'. got={}",
                i,
                return_statement.token_literal()
            );
        });
    });
}

#[test]
fn parser_test_identifier_expression() {
    let inputs = vec!["foobar;".to_string()];
    inputs.into_iter().enumerate().for_each(|(i, input)| {
        let lexer = Lexer::new(input);
        let mut parser = Parser::new(lexer);
        let program = parser.parse_program();

        check_parser_errors(&parser, i);

        assert_eq!(
            1,
            program.len(),
            "[{}] program has not enough etatements. got={}",
            i,
            program.len()
        );

        let expression_statement = match program.get(0) {
            Some(Statement::Expression(statement)) => statement,
            _ => panic!(
                "[{}] program statement is not ExpressionStatement. got={}",
                i,
                program.get(0).unwrap().to_string()
            ),
        };

        let identifier = match *expression_statement.expression {
            Expression::Identifier(ref identifier) => identifier,
            _ => panic!(
                "[{}] expression not Identifier. got={}",
                i,
                expression_statement.to_string()
            ),
        };

        assert_eq!(
            "foobar", identifier.value,
            "[{}] identifier value not {}. got={}",
            i, "foobar", identifier.value
        );
        assert_eq!(
            "foobar",
            identifier.token_literal(),
            "[{}] identifier token_literal() not {}. got={}",
            i,
            "foobar",
            identifier.token_literal()
        );
    });
}

#[test]
fn parser_test_integer_literal_expression() {
    let inputs = vec!["5;".to_string()];
    inputs.into_iter().enumerate().for_each(|(i, input)| {
        let lexer = Lexer::new(input);
        let mut parser = Parser::new(lexer);
        let program = parser.parse_program();
        check_parser_errors(&parser, i);

        assert_eq!(
            1,
            program.len(),
            "[{}] program has not enough statements. got={}",
            i,
            program.len()
        );

        let expression_statement = match program.get(0) {
            Some(Statement::Expression(statement)) => statement,
            _ => panic!(
                "[{}] program statements is not ExpressionStatement. got={}",
                i,
                program.get(0).unwrap().to_string()
            ),
        };

        let integer_literal = match *expression_statement.expression {
            Expression::Integer(ref literal) => literal,
            _ => panic!(
                "[{}] expression not IntegerLiteral. got={}",
                i,
                expression_statement.expression.to_string()
            ),
        };
        assert_eq!(
            5, integer_literal.value,
            "[{}] literal value not 5. got={}",
            i, integer_literal.value
        );
        assert_eq!(
            "5".to_string(),
            integer_literal.token_literal(),
            "[{}] literal token_literal not '5'. got={}",
            i,
            integer_literal.token_literal()
        );
    });
}

#[test]
fn parser_test_parsing_prefix_expression() {
    let inputs = setup_parsing_prefix_expression_input();
    let expects = setup_parsing_prefix_expression_expect();
    inputs
        .into_iter()
        .zip(expects.into_iter())
        .enumerate()
        .for_each(|(i, (input, expect))| {
            let lexer = Lexer::new(input);
            let mut parser = Parser::new(lexer);
            let program = parser.parse_program();
            check_parser_errors(&parser, i);

            assert_eq!(
                1,
                program.len(),
                "[{}] program statements does not contain 1 statements. got={}",
                i,
                program.len()
            );

            let expression_statement = match program.get(0) {
                Some(Statement::Expression(statement)) => statement,
                _ => panic!(
                    "[{}] program statements is not ExpressionStatement. got={}",
                    i,
                    program.get(0).unwrap().to_string()
                ),
            };

            let prefix_expression = match *expression_statement.expression {
                Expression::Prefix(ref expression) => expression,
                _ => panic!(
                    "[{}] expression is not PrefixExpression. got={}",
                    i,
                    expression_statement.expression.to_string()
                ),
            };
            assert_eq!(
                expect.0, prefix_expression.operator,
                "[{}] expression operator is not {}. got={}",
                i, expect.0, prefix_expression.operator
            );
            expect
                .1
                .assert_literal_expression(&prefix_expression.right, i);
        });
}

#[test]
fn parser_test_parsing_infix_expression() {
    let inputs = setup_parsing_infix_expression_input();
    let expects = setup_parsing_infix_expression_expect();

    assert_eq!(
        inputs.len(),
        expects.len(),
        "inputs.len and expects.len is mismatch"
    );

    inputs
        .into_iter()
        .zip(expects.into_iter())
        .enumerate()
        .for_each(|(i, (input, expect))| {
            let mut parser = Parser::new(Lexer::new(input));
            let program = parser.parse_program();

            check_parser_errors(&parser, i);

            assert_eq!(
                1,
                program.len(),
                "[{}] program statements does not contain 1 statements. got={}",
                i,
                program.len()
            );

            let expression_statement = match program.get(0) {
                Some(Statement::Expression(statement)) => statement,
                _ => panic!("[{}] program statement is not ExpressionStatement.", i),
            };

            assert_infix_expression(
                &expression_statement.expression,
                expect.0,
                expect.1,
                expect.2,
                i,
            );
        });
}

#[test]
fn parser_test_operator_precedence_parsing() {
    let inputs = setup_operator_precedence_parsing_input();
    let expects = setup_operator_precedence_parsing_expect();
    assert_eq!(
        inputs.len(),
        expects.len(),
        "inputs.len and expects.len is mismatch"
    );
    inputs
        .into_iter()
        .zip(expects.into_iter())
        .enumerate()
        .for_each(|(i, (input, expect))| {
            let mut parser = Parser::new(Lexer::new(input));
            let program = parser.parse_program();
            check_parser_errors(&parser, i);
            assert!(program.first().is_some(), "[{}] first is none", i);
            assert_eq!(
                expect,
                string(&program),
                "[{}] expected={}, got={}",
                i,
                expect,
                string(&program)
            );
        })
}

#[test]
fn parser_test_boolean_expression() {
    let inputs = setup_boolean_expression_input();
    let expects = setup_boolean_expression_expect();

    inputs
        .into_iter()
        .zip(expects.into_iter())
        .enumerate()
        .for_each(|(i, (input, expect))| {
            let lexer = Lexer::new(input);
            let mut parser = Parser::new(lexer);
            let program = parser.parse_program();
            check_parser_errors(&parser, i);

            assert!(program.first().is_some(), "first is none");

            match program.get(0).unwrap() {
                Statement::Let(statement) => {
                    assert_boolean_expression(&statement.value, expect, i)
                }
                Statement::Expression(statement) => {
                    assert_boolean_expression(&statement.expression, expect, i)
                }
                _ => panic!(
                    "[{}] statement is not LetStatement or ExpressionStatement. got={}",
                    i,
                    program.get(0).unwrap().to_string()
                ),
            }
        });
}

#[test]
fn a_sum_of_two_identifiers_is_an_infix_node_over_two_leaves() {
    let (program, errors) = parse("foo + bar;");
    assert!(errors.is_empty());
    assert_eq!(1, program.len());
    let statement = match &program[0] {
        Statement::Expression(statement) => statement,
        other => panic!("{}", other.to_string()),
    };
    assert_infix_expression(
        &statement.expression,
        Concrete::String("foo".to_string()),
        "+".to_string(),
        Concrete::String("bar".to_string()),
        0,
    );
    match statement.expression.as_ref() {
        Expression::Infix(infix) => {
            assert_eq!(
                Token::new(TokenType::Plus, "+".to_string()),
                *infix.token
            );
        }
        other => panic!("{}", other.to_string()),
    }
}

#[test]
fn a_prefix_operator_binds_tighter_than_a_product() {
    assert_eq!("((-a) * b)", render("-a * b"));
}

#[test]
fn products_bind_tighter_than_sums_and_sums_associate_to_the_left() {
    assert_eq!(
        "(((a + (b * c)) + (d / e)) - f)",
        render("a + b * c + d / e - f")
    );
}

#[test]
fn a_semicolon_ends_a_statement() {
    let (program, errors) = parse("3 + 4; -5 * 5");
    assert!(errors.is_empty());
    assert_eq!(2, program.len());
    assert_eq!("(3 + 4)", program[0].to_string());
    assert_eq!("((-5) * 5)", program[1].to_string());
    assert_eq!("(3 + 4)((-5) * 5)", string(&program));
}

#[test]
fn comparison_binds_tighter_than_equality() {
    assert_eq!("((5 > 4) == (3 < 4))", render("5 > 4 == 3 < 4"));
}

#[test]
fn operators_of_one_level_associate_to_the_left() {
    assert_eq!("((a == b) != c)", render("a == b != c"));
    assert_eq!("((a < b) > c)", render("a < b > c"));
    assert_eq!("((a - b) + c)", render("a - b + c"));
    assert_eq!("((a / b) * c)", render("a / b * c"));
}

#[test]
fn prefix_operators_nest_to_the_right() {
    assert_eq!("(!(!(-(-a))))", render("!!--a"));
    assert_eq!("((-1) - (-2))", render("-1 - -2"));
    assert_eq!("((!a) == (!b))", render("!a == !b"));
}

#[test]
fn let_keeps_the_name_and_the_value() {
    let (program, errors) = parse("let x = 5;");
    assert!(errors.is_empty());
    assert_eq!(1, program.len());
    match &program[0] {
        Statement::Let(statement) => {
            assert_eq!("x", statement.name.token_literal());
            assert_eq!("x", statement.name.value);
            assert_eq!("5", statement.value.to_string());
            assert_eq!("let", statement.token_literal());
        }
        other => panic!("{}", other.to_string()),
    }
    assert_eq!("let x = 5;", string(&program));
}

#[test]
fn let_without_a_name_leaves_no_statement_and_a_peek_diagnostic() {
    let (program, errors) = parse("let = 5;");
    assert_eq!(0, program.len());
    assert!(errors
        .iter()
        .any(|error| matches!(error, ParseError::PeekToken(_, _))));
    assert_eq!(3, errors.len());
    assert!(is_peek_error(
        &errors[0],
        TokenType::Ident,
        &token(TokenType::Assign, "=")
    ));
    assert!(is_no_prefix(&errors[1], &token(TokenType::Assign, "=")));
    assert!(is_no_prefix(&errors[2], &token(TokenType::Semicolon, ";")));
    assert_eq!(
        vec![
            "expected next token to be Ident, got Assign instead.",
            "no prefix parse for Assign.",
            "no prefix parse for Semicolon.",
        ],
        messages(&errors)
    );
}

#[test]
fn let_without_an_equals_sign_records_the_token_after_the_current_one() {
    let (program, errors) = parse("let x 5; y");
    assert_eq!(2, errors.len());
    assert!(is_peek_error(
        &errors[0],
        TokenType::Assign,
        &token(TokenType::Semicolon, ";")
    ));
    assert!(is_no_prefix(&errors[1], &token(TokenType::Semicolon, ";")));
    assert_eq!(0, program.len());
}

#[test]
fn let_at_the_end_of_the_text_expects_an_identifier() {
    let (program, errors) = parse("let");
    assert_eq!(0, program.len());
    assert_eq!(1, errors.len());
    assert!(is_peek_error(
        &errors[0],
        TokenType::Ident,
        &token(TokenType::EOF, "")
    ));
    assert_eq!(
        vec!["expected next token to be Ident, got EOF instead."],
        messages(&errors)
    );
}

#[test]
fn a_failed_statement_does_not_stop_the_ones_after_it() {
    let (program, errors) = parse("let = 5;; let y = 7; return y;");
    assert_eq!("let y = 7;return y;", string(&program));
    assert_eq!(3, errors.len());
    let (program, errors) = parse("let = 5; let y = 7; return y;");
    assert_eq!("y7return y;", string(&program));
    assert_eq!(3, errors.len());
}

#[test]
fn a_token_that_starts_no_expression_is_a_no_prefix_diagnostic() {
    let (program, errors) = parse(")");
    assert_eq!(0, program.len());
    assert_eq!(1, errors.len());
    assert!(is_no_prefix(&errors[0], &token(TokenType::RParen, ")")));
    assert_eq!(vec!["no prefix parse for RParen."], messages(&errors));
}

#[test]
fn an_illegal_character_is_rejected_by_the_parser() {
    let (program, errors) = parse("@");
    assert_eq!(0, program.len());
    assert_eq!(1, errors.len());
    assert!(is_no_prefix(&errors[0], &token(TokenType::Illegal, "@")));
    assert_eq!(vec!["no prefix parse for Illegal."], messages(&errors));
}

#[test]
fn a_prefix_operator_without_an_operand_is_a_prefix_diagnostic() {
    let (program, errors) = parse("!");
    assert_eq!(0, program.len());
    assert_eq!(2, errors.len());
    assert!(is_no_prefix(&errors[0], &token(TokenType::EOF, "")));
    assert!(matches!(
        errors[1],
        ParseError::Expression(ParseExpressionError::Prefix)
    ));
    assert_eq!(
        vec!["no prefix parse for EOF.", "failed to parse prefix."],
        messages(&errors)
    );
}

#[test]
fn a_binary_operator_without_a_right_operand_is_an_infix_diagnostic() {
    let (program, errors) = parse("5 + ;");
    assert_eq!(0, program.len());
    assert_eq!(3, errors.len());
    assert!(is_no_prefix(&errors[0], &token(TokenType::Semicolon, ";")));
    assert!(matches!(
        errors[1],
        ParseError::Expression(ParseExpressionError::Infix)
    ));
    assert!(matches!(
        errors[2],
        ParseError::Expression(ParseExpressionError::Infix)
    ));
    assert_eq!(
        vec![
            "no prefix parse for Semicolon.",
            "failed to parse infix expression.",
            "failed to parse infix expression.",
        ],
        messages(&errors)
    );
}

#[test]
fn return_without_a_value_records_what_stood_in_its_place() {
    let (program, errors) = parse("return ;");
    assert_eq!(0, program.len());
    assert_eq!(1, errors.len());
    assert!(is_no_prefix(&errors[0], &token(TokenType::Semicolon, ";")));
}

#[test]
fn the_semicolon_after_an_expression_is_optional() {
    assert_eq!("foobar", render("foobar"));
    assert_eq!("foobar", render("foobar;"));
    assert_eq!("ab", render("a; b"));
    assert_eq!("ab", render("a;; b"));
}

#[test]
fn the_token_after_an_expression_is_passed_over() {
    assert_eq!("a", render("a b"));
    assert_eq!("ac", render("a b c"));
    assert_eq!("(a + b)", render("a + b c"));
}

#[test]
fn the_empty_text_is_the_empty_program() {
    let (program, errors) = parse("");
    assert_eq!(0, program.len());
    assert!(errors.is_empty());
    let (program, errors) = parse("  \n\t ");
    assert_eq!(0, program.len());
    assert!(errors.is_empty());
}

#[test]
fn parsing_again_after_the_end_gives_nothing_more() {
    let mut parser = Parser::new(Lexer::new("a + b;".to_string()));
    assert_eq!("(a + b)", string(&parser.parse_program()));
    assert_eq!(0, parser.parse_program().len());
    assert!(parser.errors.is_empty());
}

#[test]
fn an_integer_literal_prints_as_it_was_written() {
    let (program, errors) = parse("007 + 9223372036854775807");
    assert!(errors.is_empty());
    assert_eq!("(007 + 9223372036854775807)", string(&program));
    match &program[0] {
        Statement::Expression(statement) => match statement.expression.as_ref() {
            Expression::Infix(infix) => assert_integer_value(&infix.left, 7),
            other => panic!("{}", other.to_string()),
        },
        other => panic!("{}", other.to_string()),
    }
}

fn assert_integer_value(expression: &Expression, value: i64) {
    match expression {
        Expression::Integer(literal) => assert_eq!(value, literal.value),
        other => panic!("{}", other.to_string()),
    }
}

#[test]
fn try_parse_program_parses_what_parse_program_parses() {
    let mut parser = Parser::new(Lexer::new("let x = 5; x + ;".to_string()));
    let program = parser.try_parse_program().unwrap();
    assert_eq!("let x = 5;", string(&program));
    assert_eq!(
        vec![
            "no prefix parse for Semicolon.",
            "failed to parse infix expression.",
            "failed to parse infix expression.",
        ],
        messages(&parser.errors)
    );
    assert_eq!(0, parser.try_parse_program().unwrap().len());
}

#[test]
fn try_parse_program_gives_none_for_a_literal_that_does_not_fit() {
    for input in [
        "9223372036854775808",
        "let x = 1; 2 + 99999999999999999999; y",
        "return -9223372036854775808;",
        "!; ; 1 * 340282366920938463463374607431768211456",
    ] {
        let mut parser = Parser::new(Lexer::new(input.to_string()));
        assert!(parser.try_parse_program().is_none(), "{}", input);
    }
}

#[test]
fn try_parse_program_leaves_the_parser_as_it_was_when_it_gives_none() {
    let input = "let = 1;; a + 99999999999999999999; b";
    let mut parser = Parser::new(Lexer::new(input.to_string()));
    assert!(parser.try_parse_program().is_none());
    assert!(parser.errors.is_empty());
    assert!(parser.try_parse_program().is_none());
    assert!(parser.errors.is_empty());

    let mut parser = Parser::new(Lexer::new(") ; 99999999999999999999".to_string()));
    parser.errors.push(ParseError::NoneToken);
    assert!(parser.try_parse_program().is_none());
    assert_eq!(
        vec!["expected token to be exist. got None instead."],
        messages(&parser.errors)
    );

    let mut passed = Parser::new(Lexer::new(") 99999999999999999999".to_string()));
    assert_eq!(0, passed.try_parse_program().unwrap().len());
    assert_eq!(vec!["no prefix parse for RParen."], messages(&passed.errors));
}

#[test]
fn a_literal_that_does_not_fit_is_no_matter_where_the_parser_passes_over_it() {
    let input = "let x 99999999999999999999;";
    assert!(!Lexer::new(input.to_string()).integers_fit());
    let mut parser = Parser::new(Lexer::new(input.to_string()));
    let program = parser.try_parse_program().unwrap();
    assert_eq!(0, program.len());
    assert_eq!(2, parser.errors.len());
    assert!(is_peek_error(
        &parser.errors[0],
        TokenType::Assign,
        &token(TokenType::Semicolon, ";")
    ));
    assert!(is_no_prefix(
        &parser.errors[1],
        &token(TokenType::Semicolon, ";")
    ));
}

#[test]
fn booleans_take_their_value_from_their_keyword() {
    let (program, errors) = parse("true; false");
    assert!(errors.is_empty());
    assert_boolean_expression(
        match &program[0] {
            Statement::Expression(statement) => &statement.expression,
            other => panic!("{}", other.to_string()),
        },
        true,
        0,
    );
    assert_boolean_expression(
        match &program[1] {
            Statement::Expression(statement) => &statement.expression,
            other => panic!("{}", other.to_string()),
        },
        false,
        1,
    );
}

#[test]
fn errors_gives_the_diagnostics_recorded_so_far() {
    let mut parser = Parser::new(Lexer::new("let = 5; )".to_string()));
    assert!(parser.errors().is_empty());
    parser.parse_program();
    assert_eq!(messages(parser.errors()), messages(&parser.errors));
    assert_eq!(
        "expected next token to be Ident, got Assign instead.",
        parser.errors()[0].to_string()
    );
}

#[test]
fn diagnostics_are_kept_from_one_parse_to_the_next() {
    let mut parser = Parser::new(Lexer::new(")".to_string()));
    parser.parse_program();
    assert_eq!(1, parser.errors.len());
    parser.parse_program();
    assert_eq!(1, parser.errors.len());
}
