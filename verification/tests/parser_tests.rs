use jloc::expr::{Expr, ExprAccept, ExprVisitor};
use jloc::parser::{ParseError, Parser};
use jloc::scanner::{LiteralValue, Scanner, Token, TokenType};

fn parse(input: &str) -> Result<Expr, ParseError> {
    let mut scanner = Scanner::new(input);
    let tokens = scanner.scan_tokens().expect("scan should succeed");
    let mut parser = Parser::new(tokens);
    parser.parse_expression()
}

fn parse_ok(input: &str) -> Expr {
    parse(input).expect("parse should succeed")
}

fn num(value: i64, lexeme: &str) -> Token {
    Token::new(
        TokenType::Number,
        lexeme.to_string(),
        Some(LiteralValue::IntValue(value)),
        1,
    )
}

fn ident(name: &str) -> Token {
    Token::new(TokenType::Identifier, name.to_string(), None, 1)
}

fn keyword(kind: TokenType, lexeme: &str) -> Token {
    Token::new(kind, lexeme.to_string(), None, 1)
}

#[test]
fn multiplication_binds_tighter_than_addition() {
    let expr = parse_ok("1 + 2 * 3");
    let expected = Expr::Binary {
        left: Box::new(Expr::Literal(num(1, "1"))),
        operator: TokenType::Plus,
        right: Box::new(Expr::Binary {
            left: Box::new(Expr::Literal(num(2, "2"))),
            operator: TokenType::Star,
            right: Box::new(Expr::Literal(num(3, "3"))),
        }),
    };
    assert_eq!(expr, expected);
}

#[test]
fn subtraction_is_left_associative() {
    let expr = parse_ok("a - b - c");
    let expected = Expr::Binary {
        left: Box::new(Expr::Binary {
            left: Box::new(Expr::Variable(ident("a"))),
            operator: TokenType::Minus,
            right: Box::new(Expr::Variable(ident("b"))),
        }),
        operator: TokenType::Minus,
        right: Box::new(Expr::Variable(ident("c"))),
    };
    assert_eq!(expr, expected);
}

#[test]
fn tensor_multiply_binds_tighter_than_unary() {
    let expr = parse_ok("-a ⊗ b");
    let expected = Expr::Unary {
        operator: TokenType::Minus,
        right: Box::new(Expr::TensorOp {
            left: Box::new(Expr::Variable(ident("a"))),
            operator: TokenType::TensorMul,
            right: Box::new(Expr::Variable(ident("b"))),
        }),
    };
    assert_eq!(expr, expected);
}

#[test]
fn tensor_binds_tighter_than_term() {
    let expr = parse_ok("a + b ⊗ c");
    let expected = Expr::Binary {
        left: Box::new(Expr::Variable(ident("a"))),
        operator: TokenType::Plus,
        right: Box::new(Expr::TensorOp {
            left: Box::new(Expr::Variable(ident("b"))),
            operator: TokenType::TensorMul,
            right: Box::new(Expr::Variable(ident("c"))),
        }),
    };
    assert_eq!(expr, expected);
}

#[test]
fn unary_binds_tighter_than_equality() {
    let expr = parse_ok("!true == false");
    let expected = Expr::Binary {
        left: Box::new(Expr::Unary {
            operator: TokenType::Bang,
            right: Box::new(Expr::Literal(keyword(TokenType::True, "true"))),
        }),
        operator: TokenType::EqualEqual,
        right: Box::new(Expr::Literal(keyword(TokenType::False, "false"))),
    };
    assert_eq!(expr, expected);
}

#[test]
fn unclosed_parenthesis_fails_expecting_close() {
    let err = parse("(1 + 2").expect_err("parse should fail");
    let ParseError::UnexpectedToken { found, message } = err;
    assert_eq!(found.token_type, TokenType::Eof);
    assert_eq!(message, "Expect ')' after expression.");
}

#[test]
fn empty_input_fails_expecting_expression() {
    let err = parse("").expect_err("parse should fail");
    let ParseError::UnexpectedToken { found, message } = err;
    assert_eq!(found.token_type, TokenType::Eof);
    assert_eq!(message, "Expected expression.");
}

#[test]
fn grouping_wraps_the_inner_expression() {
    let expr = parse_ok("(1)");
    assert_eq!(expr, Expr::Grouping(Box::new(Expr::Literal(num(1, "1")))));
}

#[test]
fn logical_or_is_looser_than_logical_and() {
    let expr = parse_ok("a or b and c");
    let expected = Expr::Binary {
        left: Box::new(Expr::Variable(ident("a"))),
        operator: TokenType::Or,
        right: Box::new(Expr::Binary {
            left: Box::new(Expr::Variable(ident("b"))),
            operator: TokenType::And,
            right: Box::new(Expr::Variable(ident("c"))),
        }),
    };
    assert_eq!(expr, expected);
}

#[test]
fn comparison_is_looser_than_term_and_tighter_than_equality() {
    let expr = parse_ok("1 + 2 < 4 == true");
    let expected = Expr::Binary {
        left: Box::new(Expr::Binary {
            left: Box::new(Expr::Binary {
                left: Box::new(Expr::Literal(num(1, "1"))),
                operator: TokenType::Plus,
                right: Box::new(Expr::Literal(num(2, "2"))),
            }),
            operator: TokenType::Less,
            right: Box::new(Expr::Literal(num(4, "4"))),
        }),
        operator: TokenType::EqualEqual,
        right: Box::new(Expr::Literal(keyword(TokenType::True, "true"))),
    };
    assert_eq!(expr, expected);
}

#[test]
fn percent_is_a_factor_operator() {
    let expr = parse_ok("4 % 3 + 1");
    let expected = Expr::Binary {
        left: Box::new(Expr::Binary {
            left: Box::new(Expr::Literal(num(4, "4"))),
            operator: TokenType::Percent,
            right: Box::new(Expr::Literal(num(3, "3"))),
        }),
        operator: TokenType::Plus,
        right: Box::new(Expr::Literal(num(1, "1"))),
    };
    assert_eq!(expr, expected);
}

#[test]
fn chained_prefix_operators_are_right_associative() {
    let expr = parse_ok("--a");
    let expected = Expr::Unary {
        operator: TokenType::Minus,
        right: Box::new(Expr::Unary {
            operator: TokenType::Minus,
            right: Box::new(Expr::Variable(ident("a"))),
        }),
    };
    assert_eq!(expr, expected);
}

#[test]
fn function_call_with_arguments() {
    let expr = parse_ok("f(1, x)");
    let expected = Expr::Call {
        callee: ident("f"),
        arguments: vec![Expr::Literal(num(1, "1")), Expr::Variable(ident("x"))],
    };
    assert_eq!(expr, expected);
}

#[test]
fn function_call_without_arguments() {
    let expr = parse_ok("f()");
    let expected = Expr::Call { callee: ident("f"), arguments: vec![] };
    assert_eq!(expr, expected);
}

#[test]
fn unclosed_argument_list_fails_expecting_close() {
    let err = parse("f(1; 2)").expect_err("parse should fail");
    let ParseError::UnexpectedToken { found, message } = err;
    assert_eq!(found.token_type, TokenType::Semicolon);
    assert_eq!(message, "Expect ')' after arguments.");
}

#[test]
fn identifier_alone_is_a_variable() {
    let expr = parse_ok("x");
    assert_eq!(expr, Expr::Variable(ident("x")));
}

#[test]
fn bracketed_literal_builds_array_literal() {
    let expr = parse_ok("[1, 2]");
    let expected = Expr::ArrayLiteral {
        elements: vec![Expr::Literal(num(1, "1")), Expr::Literal(num(2, "2"))],
    };
    assert_eq!(expr, expected);
}

#[test]
fn nested_bracketed_literals_build_a_matrix() {
    let expr = parse_ok("[[1], [2]]");
    let expected = Expr::ArrayLiteral {
        elements: vec![
            Expr::ArrayLiteral { elements: vec![Expr::Literal(num(1, "1"))] },
            Expr::ArrayLiteral { elements: vec![Expr::Literal(num(2, "2"))] },
        ],
    };
    assert_eq!(expr, expected);
}

#[test]
fn unclosed_bracket_fails_expecting_close() {
    let err = parse("[1, 2").expect_err("parse should fail");
    let ParseError::UnexpectedToken { found, message } = err;
    assert_eq!(found.token_type, TokenType::Eof);
    assert_eq!(message, "Expect ']' after elements.");
}

#[test]
fn math_function_parses_as_call() {
    let expr = parse_ok("sin(1)");
    let expected = Expr::Call {
        callee: keyword(TokenType::Sin, "sin"),
        arguments: vec![Expr::Literal(num(1, "1"))],
    };
    assert_eq!(expr, expected);
}

#[test]
fn math_function_without_parenthesis_fails() {
    let err = parse("sqrt 2").expect_err("parse should fail");
    let ParseError::UnexpectedToken { found, message } = err;
    assert_eq!(found.token_type, TokenType::Number);
    assert_eq!(message, "Expect '(' after function name.");
}

#[test]
fn stray_operator_fails_expecting_expression() {
    let err = parse("*").expect_err("parse should fail");
    let ParseError::UnexpectedToken { found, message } = err;
    assert_eq!(found.token_type, TokenType::Star);
    assert_eq!(message, "Expected expression.");
}

struct Printer;

fn op_text(kind: TokenType) -> &'static str {
    match kind {
        TokenType::Plus => "+",
        TokenType::Minus => "-",
        TokenType::Star => "*",
        TokenType::Slash => "/",
        TokenType::Percent => "%",
        TokenType::Bang => "!",
        TokenType::BangEqual => "!=",
        TokenType::EqualEqual => "==",
        TokenType::Less => "<",
        TokenType::LessEqual => "<=",
        TokenType::Greater => ">",
        TokenType::GreaterEqual => ">=",
        TokenType::Or => "or",
        TokenType::And => "and",
        TokenType::TensorMul => "⊗",
        TokenType::TensorDot => "·",
        TokenType::TensorCross => "×",
        _ => "?",
    }
}

impl ExprVisitor<String> for Printer {
    fn visit_literal(&self, token: &Token) -> String {
        token.lexeme.clone()
    }

    fn visit_grouping(&self, inner: &Expr) -> String {
        format!("({})", inner.accept(self))
    }

    fn visit_unary(&self, operator: TokenType, right: &Expr) -> String {
        format!("{}{}", op_text(operator), right.accept(self))
    }

    fn visit_binary(&self, left: &Expr, operator: TokenType, right: &Expr) -> String {
        format!("{} {} {}", left.accept(self), op_text(operator), right.accept(self))
    }

    fn visit_tensor_op(&self, left: &Expr, operator: TokenType, right: &Expr) -> String {
        format!("{} {} {}", left.accept(self), op_text(operator), right.accept(self))
    }

    fn visit_variable(&self, token: &Token) -> String {
        token.lexeme.clone()
    }

    fn visit_call(&self, callee: &Token, arguments: &Vec<Expr>) -> String {
        let parts: Vec<String> = arguments.iter().map(|a| a.accept(self)).collect();
        format!("{}({})", callee.lexeme, parts.join(", "))
    }

    fn visit_array_literal(&self, elements: &Vec<Expr>) -> String {
        let parts: Vec<String> = elements.iter().map(|e| e.accept(self)).collect();
        format!("[{}]", parts.join(", "))
    }
}

#[test]
fn visitor_dispatch_reaches_every_node_shape() {
    let expr = parse_ok("-sin(1, x) + [2] * (a · b)");
    let rendered = expr.accept(&Printer);
    assert_eq!(rendered, "-sin(1, x) + [2] * (a · b)");
}

#[test]
fn reparsing_a_rendering_yields_a_structurally_equal_tree() {
    for input in ["1 + 2 * 3", "-a ⊗ b", "f(1, [2, 3]) · g()", "(a or b) and !c"] {
        let first = parse_ok(input);
        let rendered = first.accept(&Printer);
        let second = parse_ok(&rendered);
        assert_eq!(first, second, "rendering {:?} changed the tree", rendered);
    }
}
