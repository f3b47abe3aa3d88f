use jloc::errors::LexError;
use jloc::scanner::{LiteralValue, Scanner, Token, TokenType};

fn scan(input: &str) -> Vec<Token> {
    let mut scanner = Scanner::new(input);
    scanner.scan_tokens().expect("scan should succeed")
}

fn scan_err(input: &str) -> LexError {
    let mut scanner = Scanner::new(input);
    scanner.scan_tokens().expect_err("scan should fail")
}

#[test]
fn empty_input_yields_only_eof() {
    let tokens = scan("");
    assert_eq!(tokens.len(), 1);
    assert_eq!(tokens[0].token_type, TokenType::Eof);
    assert_eq!(tokens[0].lexeme, "");
}

#[test]
fn whitespace_and_comments_yield_only_eof() {
    let tokens = scan("  \t // a comment\n   // another\n\r\n");
    assert_eq!(tokens.len(), 1);
    assert_eq!(tokens[0].token_type, TokenType::Eof);
}

#[test]
fn comment_without_newline_yields_only_eof() {
    let tokens = scan("// just a comment");
    assert_eq!(tokens.len(), 1);
    assert_eq!(tokens[0].token_type, TokenType::Eof);
}

#[test]
fn single_character_tokens() {
    let tokens = scan("(){}[],.-+;*%");
    let kinds: Vec<TokenType> = tokens.iter().map(|t| t.token_type).collect();
    assert_eq!(
        kinds,
        vec![
            TokenType::LeftParen,
            TokenType::RightParen,
            TokenType::LeftBrace,
            TokenType::RightBrace,
            TokenType::LeftBracket,
            TokenType::RightBracket,
            TokenType::Comma,
            TokenType::Dot,
            TokenType::Minus,
            TokenType::Plus,
            TokenType::Semicolon,
            TokenType::Star,
            TokenType::Percent,
            TokenType::Eof,
        ]
    );
}

#[test]
fn tensor_operator_tokens() {
    let tokens = scan("⊗ · ×");
    let kinds: Vec<TokenType> = tokens.iter().map(|t| t.token_type).collect();
    assert_eq!(
        kinds,
        vec![
            TokenType::TensorMul,
            TokenType::TensorDot,
            TokenType::TensorCross,
            TokenType::Eof,
        ]
    );
    assert_eq!(tokens[0].lexeme, "⊗");
}

#[test]
fn one_and_two_character_operators() {
    let tokens = scan("! != = == < <= > >=");
    let kinds: Vec<TokenType> = tokens.iter().map(|t| t.token_type).collect();
    assert_eq!(
        kinds,
        vec![
            TokenType::Bang,
            TokenType::BangEqual,
            TokenType::Equal,
            TokenType::EqualEqual,
            TokenType::Less,
            TokenType::LessEqual,
            TokenType::Greater,
            TokenType::GreaterEqual,
            TokenType::Eof,
        ]
    );
    assert_eq!(tokens[1].lexeme, "!=");
    assert_eq!(tokens[3].lexeme, "==");
}

#[test]
fn slash_is_division_but_double_slash_is_comment() {
    let tokens = scan("1 / 2 // 3");
    let kinds: Vec<TokenType> = tokens.iter().map(|t| t.token_type).collect();
    assert_eq!(
        kinds,
        vec![TokenType::Number, TokenType::Slash, TokenType::Number, TokenType::Eof]
    );
}

#[test]
fn integer_literal_decodes_to_twelve() {
    let tokens = scan("12");
    assert_eq!(tokens[0].token_type, TokenType::Number);
    assert_eq!(tokens[0].lexeme, "12");
    assert_eq!(tokens[0].literal, Some(LiteralValue::IntValue(12)));
}

#[test]
fn float_literal_keeps_its_text() {
    let tokens = scan("12.5");
    assert_eq!(tokens[0].token_type, TokenType::Number);
    assert_eq!(tokens[0].lexeme, "12.5");
    assert_eq!(tokens[0].literal, Some(LiteralValue::FValue("12.5".to_string())));
    match &tokens[0].literal {
        Some(LiteralValue::FValue(text)) => {
            let value: f64 = text.parse().unwrap();
            assert_eq!(value, 12.5);
        }
        other => panic!("expected a float literal, got {:?}", other),
    }
}

#[test]
fn number_followed_by_lone_dot_is_integer_then_dot() {
    let tokens = scan("12.");
    let kinds: Vec<TokenType> = tokens.iter().map(|t| t.token_type).collect();
    assert_eq!(kinds, vec![TokenType::Number, TokenType::Dot, TokenType::Eof]);
    assert_eq!(tokens[0].literal, Some(LiteralValue::IntValue(12)));
}

#[test]
fn keyword_and_lexes_as_and() {
    let tokens = scan("and");
    assert_eq!(tokens[0].token_type, TokenType::And);
    assert_eq!(tokens[0].lexeme, "and");
}

#[test]
fn andy_lexes_as_identifier() {
    let tokens = scan("andy");
    assert_eq!(tokens[0].token_type, TokenType::Identifier);
    assert_eq!(tokens[0].lexeme, "andy");
}

#[test]
fn all_keywords_lex_as_keywords() {
    let input = "and class else false for fun if nil or print return super this true var while";
    let tokens = scan(input);
    let kinds: Vec<TokenType> = tokens.iter().map(|t| t.token_type).collect();
    assert_eq!(
        kinds,
        vec![
            TokenType::And,
            TokenType::Class,
            TokenType::Else,
            TokenType::False,
            TokenType::For,
            TokenType::Fun,
            TokenType::If,
            TokenType::Nil,
            TokenType::Or,
            TokenType::Print,
            TokenType::Return,
            TokenType::Super,
            TokenType::This,
            TokenType::True,
            TokenType::Var,
            TokenType::While,
            TokenType::Eof,
        ]
    );
}

#[test]
fn math_function_names_lex_as_math_tokens() {
    let input = "sin cos tan asin acos atan sinh cosh tanh log exp sqrt";
    let tokens = scan(input);
    let kinds: Vec<TokenType> = tokens.iter().map(|t| t.token_type).collect();
    assert_eq!(
        kinds,
        vec![
            TokenType::Sin,
            TokenType::Cos,
            TokenType::Tan,
            TokenType::Asin,
            TokenType::Acos,
            TokenType::Atan,
            TokenType::Sinh,
            TokenType::Cosh,
            TokenType::Tanh,
            TokenType::Log,
            TokenType::Exp,
            TokenType::Sqrt,
            TokenType::Eof,
        ]
    );
}

#[test]
fn identifier_with_underscore_and_digits() {
    let tokens = scan("my_var2");
    assert_eq!(tokens[0].token_type, TokenType::Identifier);
    assert_eq!(tokens[0].lexeme, "my_var2");
}

#[test]
fn hash_fails_with_unexpected_character_on_line_one() {
    let err = scan_err("#");
    assert_eq!(err, LexError::UnexpectedCharacter { character: '#', line: 1 });
}

#[test]
fn hash_after_newline_reports_line_two() {
    let err = scan_err("1 + 2\n#");
    assert_eq!(err, LexError::UnexpectedCharacter { character: '#', line: 2 });
}

#[test]
fn huge_integer_fails_with_number_format_error() {
    let err = scan_err("99999999999999999999");
    assert_eq!(
        err,
        LexError::NumberFormatError { lexeme: "99999999999999999999".to_string(), line: 1 }
    );
}

#[test]
fn largest_integer_still_decodes() {
    let tokens = scan("9223372036854775807");
    assert_eq!(tokens[0].literal, Some(LiteralValue::IntValue(i64::MAX)));
    let err = scan_err("9223372036854775808");
    assert!(matches!(err, LexError::NumberFormatError { .. }));
}

#[test]
fn newlines_count_into_line_numbers() {
    let tokens = scan("a\nb\n\nc");
    assert_eq!(tokens[0].line_number, 1);
    assert_eq!(tokens[1].line_number, 2);
    assert_eq!(tokens[2].line_number, 4);
}

#[test]
fn scan_stops_at_first_error() {
    let err = scan_err("1 # 2");
    assert_eq!(err, LexError::UnexpectedCharacter { character: '#', line: 1 });
}

#[test]
fn next_token_produces_tokens_one_at_a_time() {
    let mut scanner = Scanner::new("a + b");
    let first = scanner.next_token().unwrap().unwrap();
    assert_eq!(first.token_type, TokenType::Identifier);
    let second = scanner.next_token().unwrap().unwrap();
    assert_eq!(second.token_type, TokenType::Plus);
    let third = scanner.next_token().unwrap().unwrap();
    assert_eq!(third.token_type, TokenType::Identifier);
    assert!(scanner.next_token().unwrap().is_none());
}

#[test]
fn lexemes_with_whitespace_reconstruct_input_modulo_comments() {
    let input = "1 + 2 * x // trailing words";
    let tokens = scan(input);
    let lexemes: Vec<String> = tokens
        .iter()
        .take(tokens.len() - 1)
        .map(|t| t.lexeme.clone())
        .collect();
    let rebuilt = lexemes.join(" ");
    assert_eq!(rebuilt, "1 + 2 * x");
    assert!(input.starts_with(&rebuilt));
}

#[test]
fn token_new_builds_the_given_token() {
    let t = Token::new(
        TokenType::Number,
        "7".to_string(),
        Some(LiteralValue::IntValue(7)),
        3,
    );
    assert_eq!(t.token_type, TokenType::Number);
    assert_eq!(t.lexeme, "7");
    assert_eq!(t.literal, Some(LiteralValue::IntValue(7)));
    assert_eq!(t.line_number, 3);
}

#[test]
fn skip_whitespace_and_advance_move_the_cursor() {
    let mut scanner = Scanner::new("   x");
    scanner.skip_whitespace();
    let t = scanner.next_token().unwrap().unwrap();
    assert_eq!(t.lexeme, "x");
    let mut other = Scanner::new("ab");
    other.advance();
    let t2 = other.next_token().unwrap().unwrap();
    assert_eq!(t2.lexeme, "b");
}

#[test]
fn multibyte_characters_advance_by_scalar_value() {
    let tokens = scan("a ⊗ b");
    assert_eq!(tokens[0].lexeme, "a");
    assert_eq!(tokens[1].lexeme, "⊗");
    assert_eq!(tokens[2].lexeme, "b");
}
