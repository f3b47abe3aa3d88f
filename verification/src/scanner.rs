//! Lexical scanner: turns UTF-8 source text into a sequence of tokens.
//!
//! The scanner is specified against a purely mathematical model of lexing.
//! `token_start_from` skips whitespace and line comments, `spec_token_at`
//! describes the single token starting at a position, and `spec_tokens_from`
//! describes the whole token sequence (terminated by an end-of-input token)
//! or the first lexical error. Every executable method is proved to follow
//! that model exactly.

use vstd::prelude::*;

use crate::errors::{LexError, LexErrorModel};

verus! {

use vstd::string::StrSliceExecFns;

/// The closed set of token kinds: single-character punctuation, one- or
/// two-character operators, literal kinds, reserved keywords, tensor
/// operators, math function names, and the end-of-input marker.
#[derive(Debug, Clone, Copy, PartialEq, Eq, Structural)]
#[allow(missing_docs)]
pub enum TokenType {
    LeftParen,
    RightParen,
    LeftBrace,
    RightBrace,
    LeftBracket,
    RightBracket,
    Comma,
    Dot,
    Minus,
    Plus,
    Semicolon,
    Slash,
    Star,
    Percent,
    TensorMul,
    TensorDot,
    TensorCross,
    Bang,
    BangEqual,
    Equal,
    EqualEqual,
    Greater,
    GreaterEqual,
    Less,
    LessEqual,
    Identifier,
    StringLit,
    Number,
    And,
    Class,
    Else,
    False,
    For,
    Fun,
    If,
    Nil,
    Or,
    Print,
    Return,
    Super,
    This,
    True,
    Var,
    While,
    Sin,
    Cos,
    Tan,
    Asin,
    Acos,
    Atan,
    Sinh,
    Cosh,
    Tanh,
    Log,
    Exp,
    Sqrt,
    Eof,
}

/// The decoded value carried by a literal token: an integer, the text of a
/// floating-point literal (kept as its digits so that no inexact value enters
/// the library), a string, or an identifier name.
#[derive(Debug, PartialEq)]
pub enum LiteralValue {
    IntValue(i64),
    FValue(String),
    StringValue(String),
    IdentifierValue(String),
}

/// Mathematical model of a [`LiteralValue`].
pub ghost enum LiteralModel {
    IntValue(i64),
    FValue(Seq<char>),
    StringValue(Seq<char>),
    IdentifierValue(Seq<char>),
}

impl View for LiteralValue {
    type V = LiteralModel;

    open spec fn view(&self) -> LiteralModel {
        match *self {
            LiteralValue::IntValue(v) => LiteralModel::IntValue(v),
            LiteralValue::FValue(s) => LiteralModel::FValue(s@),
            LiteralValue::StringValue(s) => LiteralModel::StringValue(s@),
            LiteralValue::IdentifierValue(s) => LiteralModel::IdentifierValue(s@),
        }
    }
}

impl Clone for LiteralValue {
    fn clone(&self) -> (r: LiteralValue)
        ensures
            r@ == self@,
    {
        match self {
            LiteralValue::IntValue(v) => LiteralValue::IntValue(*v),
            LiteralValue::FValue(s) => LiteralValue::FValue(s.clone()),
            LiteralValue::StringValue(s) => LiteralValue::StringValue(s.clone()),
            LiteralValue::IdentifierValue(s) => LiteralValue::IdentifierValue(s.clone()),
        }
    }
}

/// Mathematical model of a [`Token`]: kind, lexeme as a character sequence,
/// optional decoded literal, and 1-based source line.
pub ghost struct TokenModel {
    pub kind: TokenType,
    pub lexeme: Seq<char>,
    pub literal: Option<LiteralModel>,
    pub line: int,
}

/// One token: its kind, the exact source substring it was derived from, an
/// optional decoded literal value, and the 1-based source line it starts on.
#[derive(Debug, PartialEq)]
pub struct Token {
    pub token_type: TokenType,
    pub lexeme: String,
    pub literal: Option<LiteralValue>,
    pub line_number: u64,
}

impl View for Token {
    type V = TokenModel;

    open spec fn view(&self) -> TokenModel {
        TokenModel {
            kind: self.token_type,
            lexeme: self.lexeme@,
            literal: match self.literal {
                Option::None => Option::None,
                Option::Some(l) => Option::Some(l@),
            },
            line: self.line_number as int,
        }
    }
}

impl Clone for Token {
    fn clone(&self) -> (r: Token)
        ensures
            r@ == self@,
    {
        Token {
            token_type: self.token_type,
            lexeme: self.lexeme.clone(),
            literal: match &self.literal {
                Option::None => Option::None,
                Option::Some(l) => Option::Some(l.clone()),
            },
            line_number: self.line_number,
        }
    }
}

impl Token {
    /// Builds a token from its parts.
    pub fn new(token_type: TokenType, lexeme: String, literal: Option<LiteralValue>, line_number: u64) -> (t: Token)
        ensures
            t.token_type == token_type,
            t.lexeme@ == lexeme@,
            t.literal == literal,
            t.line_number == line_number,
    {
        Token { token_type, lexeme, literal, line_number }
    }
}

// ---------------------------------------------------------------------------
// Character classes
// ---------------------------------------------------------------------------

/// Whitespace: space, tab, carriage return, or newline.
pub open spec fn is_space_char(c: char) -> bool {
    c == ' ' || c == '\t' || c == '\r' || c == '\n'
}

/// An ASCII decimal digit.
pub open spec fn is_digit_char(c: char) -> bool {
    48 <= c as u32 && c as u32 <= 57
}

/// An ASCII letter.
pub open spec fn is_alpha_char(c: char) -> bool {
    (97 <= c as u32 && c as u32 <= 122) || (65 <= c as u32 && c as u32 <= 90)
}

/// A character that may continue an identifier: letter, digit or underscore.
pub open spec fn is_ident_char(c: char) -> bool {
    is_alpha_char(c) || is_digit_char(c) || c == '_'
}

fn is_space(c: char) -> (b: bool)
    ensures
        b == is_space_char(c),
{
    c == ' ' || c == '\t' || c == '\r' || c == '\n'
}

fn is_digit(c: char) -> (b: bool)
    ensures
        b == is_digit_char(c),
{
    let u: u32 = c as u32;
    48 <= u && u <= 57
}

fn is_alpha(c: char) -> (b: bool)
    ensures
        b == is_alpha_char(c),
{
    let u: u32 = c as u32;
    (97 <= u && u <= 122) || (65 <= u && u <= 90)
}

fn is_ident(c: char) -> (b: bool)
    ensures
        b == is_ident_char(c),
{
    is_alpha(c) || is_digit(c) || c == '_'
}

// ---------------------------------------------------------------------------
// Line numbers
// ---------------------------------------------------------------------------

/// The 1-based line number of position `pos` in `s`: one more than the number
/// of newlines strictly before `pos`.
pub open spec fn line_at(s: Seq<char>, pos: int) -> int
    decreases pos,
{
    if pos <= 0 {
        1
    } else {
        line_at(s, pos - 1) + if 0 <= pos - 1 < s.len() && s[pos - 1] == '\n' {
            1int
        } else {
            0int
        }
    }
}

/// A line number never exceeds one more than the position.
pub proof fn lemma_line_at_le(s: Seq<char>, pos: int)
    requires
        0 <= pos,
    ensures
        1 <= line_at(s, pos) <= 1 + pos,
    decreases pos,
{
    if pos > 0 {
        lemma_line_at_le(s, pos - 1);
    }
}

// ---------------------------------------------------------------------------
// Skipping whitespace and comments
// ---------------------------------------------------------------------------

/// The first position at or after `pos` holding a non-whitespace character.
pub open spec fn ws_end(s: Seq<char>, pos: int) -> int
    decreases s.len() - pos,
{
    if 0 <= pos < s.len() && is_space_char(s[pos]) {
        ws_end(s, pos + 1)
    } else {
        pos
    }
}

/// The position of the first character of the next token at or after `pos`:
/// whitespace is skipped, and `//` starts a comment that runs to the end of
/// the line.
pub open spec fn token_start_from(s: Seq<char>, pos: int) -> int
    decreases s.len() - pos, 0int,
{
    if !(0 <= pos < s.len()) {
        s.len() as int
    } else if is_space_char(s[pos]) {
        token_start_from(s, pos + 1)
    } else if s[pos] == '/' && pos + 1 < s.len() && s[pos + 1] == '/' {
        comment_rest_from(s, pos + 2)
    } else {
        pos
    }
}

/// Skips the remainder of a line comment, then continues looking for a token.
pub open spec fn comment_rest_from(s: Seq<char>, pos: int) -> int
    decreases s.len() - pos, 1int,
{
    if !(0 <= pos < s.len()) {
        s.len() as int
    } else if s[pos] == '\n' {
        token_start_from(s, pos)
    } else {
        comment_rest_from(s, pos + 1)
    }
}

pub proof fn lemma_token_start_from_bounds(s: Seq<char>, pos: int)
    requires
        0 <= pos <= s.len(),
    ensures
        pos <= token_start_from(s, pos) <= s.len(),
    decreases s.len() - pos, 0int,
{
    if pos < s.len() {
        if is_space_char(s[pos]) {
            lemma_token_start_from_bounds(s, pos + 1);
        } else if s[pos] == '/' && pos + 1 < s.len() && s[pos + 1] == '/' {
            lemma_comment_rest_from_bounds(s, pos + 2);
        }
    }
}

pub proof fn lemma_comment_rest_from_bounds(s: Seq<char>, pos: int)
    requires
        0 <= pos <= s.len(),
    ensures
        pos <= comment_rest_from(s, pos) <= s.len(),
    decreases s.len() - pos, 1int,
{
    if pos < s.len() {
        if s[pos] == '\n' {
            lemma_token_start_from_bounds(s, pos);
        } else {
            lemma_comment_rest_from_bounds(s, pos + 1);
        }
    }
}

/// Skipping whitespace first does not change where the next token starts.
pub proof fn lemma_ws_token_start(s: Seq<char>, pos: int)
    requires
        0 <= pos <= s.len(),
    ensures
        pos <= ws_end(s, pos) <= s.len(),
        token_start_from(s, ws_end(s, pos)) == token_start_from(s, pos),
    decreases s.len() - pos,
{
    if 0 <= pos < s.len() && is_space_char(s[pos]) {
        lemma_ws_token_start(s, pos + 1);
    }
}

// ---------------------------------------------------------------------------
// Runs of digits and identifier characters
// ---------------------------------------------------------------------------

/// The end of the maximal run of decimal digits starting at `pos`.
pub open spec fn digits_end(s: Seq<char>, pos: int) -> int
    decreases s.len() - pos,
{
    if 0 <= pos < s.len() && is_digit_char(s[pos]) {
        digits_end(s, pos + 1)
    } else {
        pos
    }
}

/// The end of the maximal run of identifier characters starting at `pos`.
pub open spec fn ident_end(s: Seq<char>, pos: int) -> int
    decreases s.len() - pos,
{
    if 0 <= pos < s.len() && is_ident_char(s[pos]) {
        ident_end(s, pos + 1)
    } else {
        pos
    }
}

pub proof fn lemma_digits_end_bounds(s: Seq<char>, pos: int)
    requires
        0 <= pos <= s.len(),
    ensures
        pos <= digits_end(s, pos) <= s.len(),
        forall|i: int| pos <= i < digits_end(s, pos) ==> is_digit_char(s[i]),
    decreases s.len() - pos,
{
    if 0 <= pos < s.len() && is_digit_char(s[pos]) {
        lemma_digits_end_bounds(s, pos + 1);
    }
}

pub proof fn lemma_ident_end_bounds(s: Seq<char>, pos: int)
    requires
        0 <= pos <= s.len(),
    ensures
        pos <= ident_end(s, pos) <= s.len(),
        forall|i: int| pos <= i < ident_end(s, pos) ==> is_ident_char(s[i]),
    decreases s.len() - pos,
{
    if 0 <= pos < s.len() && is_ident_char(s[pos]) {
        lemma_ident_end_bounds(s, pos + 1);
    }
}

// ---------------------------------------------------------------------------
// Integer values of digit runs
// ---------------------------------------------------------------------------

/// The integer denoted by a sequence of decimal digits, most significant
/// first. (On sequences holding non-digits the value is unconstrained junk.)
pub open spec fn digits_val(s: Seq<char>) -> int
    decreases s.len(),
{
    if s.len() == 0 {
        0
    } else {
        digits_val(s.drop_last()) * 10 + (s.last() as u32 - 48)
    }
}

pub proof fn lemma_digits_val_nonneg(s: Seq<char>)
    requires
        forall|i: int| 0 <= i < s.len() ==> is_digit_char(s[i]),
    ensures
        digits_val(s) >= 0,
    decreases s.len(),
{
    if s.len() > 0 {
        lemma_digits_val_nonneg(s.drop_last());
    }
}

/// Extending a digit run only increases its value.
pub proof fn lemma_digits_val_mono(s: Seq<char>, from: int, i: int, j: int)
    requires
        0 <= from <= i <= j <= s.len(),
        forall|k: int| from <= k < j ==> is_digit_char(s[k]),
    ensures
        digits_val(s.subrange(from, j)) >= digits_val(s.subrange(from, i)),
    decreases j - i,
{
    if i < j {
        lemma_digits_val_mono(s, from, i, j - 1);
        let prefix = s.subrange(from, j - 1);
        assert(s.subrange(from, j).drop_last() =~= prefix);
        lemma_digits_val_nonneg(prefix);
        assert(digits_val(s.subrange(from, j)) == digits_val(prefix) * 10 + (s[j - 1] as u32
            - 48));
    }
}

// ---------------------------------------------------------------------------
// The token at a position
// ---------------------------------------------------------------------------

/// The kind of a token consisting of the single character `c`, if any.
pub open spec fn single_char_kind(c: char) -> Option<TokenType> {
    if c == '(' {
        Some(TokenType::LeftParen)
    } else if c == ')' {
        Some(TokenType::RightParen)
    } else if c == '{' {
        Some(TokenType::LeftBrace)
    } else if c == '}' {
        Some(TokenType::RightBrace)
    } else if c == '[' {
        Some(TokenType::LeftBracket)
    } else if c == ']' {
        Some(TokenType::RightBracket)
    } else if c == ',' {
        Some(TokenType::Comma)
    } else if c == '.' {
        Some(TokenType::Dot)
    } else if c == '-' {
        Some(TokenType::Minus)
    } else if c == '+' {
        Some(TokenType::Plus)
    } else if c == ';' {
        Some(TokenType::Semicolon)
    } else if c == '/' {
        Some(TokenType::Slash)
    } else if c == '*' {
        Some(TokenType::Star)
    } else if c == '%' {
        Some(TokenType::Percent)
    } else if c == '⊗' {
        Some(TokenType::TensorMul)
    } else if c == '·' {
        Some(TokenType::TensorDot)
    } else if c == '×' {
        Some(TokenType::TensorCross)
    } else {
        None
    }
}

/// The kind emitted when `c` (one of `!`, `=`, `<`, `>`) is followed by `=`.
pub open spec fn two_char_kind(c: char) -> TokenType {
    if c == '!' {
        TokenType::BangEqual
    } else if c == '=' {
        TokenType::EqualEqual
    } else if c == '<' {
        TokenType::LessEqual
    } else {
        TokenType::GreaterEqual
    }
}

/// The kind emitted when `c` (one of `!`, `=`, `<`, `>`) stands alone.
pub open spec fn one_char_op_kind(c: char) -> TokenType {
    if c == '!' {
        TokenType::Bang
    } else if c == '=' {
        TokenType::Equal
    } else if c == '<' {
        TokenType::Less
    } else {
        TokenType::Greater
    }
}

/// The kind of an identifier-shaped lexeme: a reserved keyword, a math
/// function name, or a plain identifier.
pub open spec fn keyword_kind(lex: Seq<char>) -> TokenType {
    if lex == "and"@ {
        TokenType::And
    } else if lex == "class"@ {
        TokenType::Class
    } else if lex == "else"@ {
        TokenType::Else
    } else if lex == "false"@ {
        TokenType::False
    } else if lex == "for"@ {
        TokenType::For
    } else if lex == "fun"@ {
        TokenType::Fun
    } else if lex == "if"@ {
        TokenType::If
    } else if lex == "nil"@ {
        TokenType::Nil
    } else if lex == "or"@ {
        TokenType::Or
    } else if lex == "print"@ {
        TokenType::Print
    } else if lex == "return"@ {
        TokenType::Return
    } else if lex == "super"@ {
        TokenType::Super
    } else if lex == "this"@ {
        TokenType::This
    } else if lex == "true"@ {
        TokenType::True
    } else if lex == "var"@ {
        TokenType::Var
    } else if lex == "while"@ {
        TokenType::While
    } else if lex == "sin"@ {
        TokenType::Sin
    } else if lex == "cos"@ {
        TokenType::Cos
    } else if lex == "tan"@ {
        TokenType::Tan
    } else if lex == "asin"@ {
        TokenType::Asin
    } else if lex == "acos"@ {
        TokenType::Acos
    } else if lex == "atan"@ {
        TokenType::Atan
    } else if lex == "sinh"@ {
        TokenType::Sinh
    } else if lex == "cosh"@ {
        TokenType::Cosh
    } else if lex == "tanh"@ {
        TokenType::Tanh
    } else if lex == "log"@ {
        TokenType::Log
    } else if lex == "exp"@ {
        TokenType::Exp
    } else if lex == "sqrt"@ {
        TokenType::Sqrt
    } else {
        TokenType::Identifier
    }
}

/// The outcome of scanning one token: end of input, a token together with the
/// position just past it, or a lexical error.
pub ghost enum LexStep {
    Eof,
    Tok { token: TokenModel, next: int },
    Fail { err: LexErrorModel },
}

/// The token starting exactly at position `p` (which must not point into
/// whitespace or a comment; `token_start_from` establishes that).
pub open spec fn spec_token_at(s: Seq<char>, p: int) -> LexStep {
    if !(0 <= p < s.len()) {
        LexStep::Eof
    } else {
        let c = s[p];
        let line = line_at(s, p);
        if single_char_kind(c) is Some {
            LexStep::Tok {
                token: TokenModel {
                    kind: single_char_kind(c)->Some_0,
                    lexeme: s.subrange(p, p + 1),
                    literal: None,
                    line: line,
                },
                next: p + 1,
            }
        } else if c == '!' || c == '=' || c == '<' || c == '>' {
            if p + 1 < s.len() && s[p + 1] == '=' {
                LexStep::Tok {
                    token: TokenModel {
                        kind: two_char_kind(c),
                        lexeme: s.subrange(p, p + 2),
                        literal: None,
                        line: line,
                    },
                    next: p + 2,
                }
            } else {
                LexStep::Tok {
                    token: TokenModel {
                        kind: one_char_op_kind(c),
                        lexeme: s.subrange(p, p + 1),
                        literal: None,
                        line: line,
                    },
                    next: p + 1,
                }
            }
        } else if is_digit_char(c) {
            let de = digits_end(s, p);
            if de < s.len() && s[de] == '.' && de + 1 < s.len() && is_digit_char(s[de + 1]) {
                let fe = digits_end(s, de + 1);
                let lex = s.subrange(p, fe);
                LexStep::Tok {
                    token: TokenModel {
                        kind: TokenType::Number,
                        lexeme: lex,
                        literal: Some(LiteralModel::FValue(lex)),
                        line: line,
                    },
                    next: fe,
                }
            } else {
                let lex = s.subrange(p, de);
                if digits_val(lex) <= i64::MAX as int {
                    LexStep::Tok {
                        token: TokenModel {
                            kind: TokenType::Number,
                            lexeme: lex,
                            literal: Some(LiteralModel::IntValue(digits_val(lex) as i64)),
                            line: line,
                        },
                        next: de,
                    }
                } else {
                    LexStep::Fail { err: LexErrorModel::NumberFormatError { lexeme: lex, line: line } }
                }
            }
        } else if is_alpha_char(c) {
            let ie = ident_end(s, p);
            let lex = s.subrange(p, ie);
            LexStep::Tok {
                token: TokenModel { kind: keyword_kind(lex), lexeme: lex, literal: None, line: line },
                next: ie,
            }
        } else {
            LexStep::Fail { err: LexErrorModel::UnexpectedCharacter { character: c, line: line } }
        }
    }
}

/// The next token at or after `pos`, after skipping whitespace and comments.
pub open spec fn spec_next_token(s: Seq<char>, pos: int) -> LexStep {
    let p = token_start_from(s, pos);
    if p >= s.len() {
        LexStep::Eof
    } else {
        spec_token_at(s, p)
    }
}

/// A successfully scanned token always makes progress.
pub proof fn lemma_token_at_progress(s: Seq<char>, p: int)
    requires
        0 <= p < s.len(),
    ensures
        spec_token_at(s, p) matches LexStep::Tok { token, next } ==> p < next <= s.len(),
{
    let de = digits_end(s, p);
    if is_digit_char(s[p]) {
        lemma_digits_end_bounds(s, p + 1);
        assert(de == digits_end(s, p + 1));
        if de < s.len() && s[de] == '.' && de + 1 < s.len() && is_digit_char(s[de + 1]) {
            lemma_digits_end_bounds(s, de + 1);
            assert(digits_end(s, de + 1) == digits_end(s, de + 2));
        }
    }
    if is_alpha_char(s[p]) {
        lemma_ident_end_bounds(s, p + 1);
        assert(ident_end(s, p) == ident_end(s, p + 1));
    }
}

/// The end-of-input marker token of a text.
pub open spec fn eof_token(s: Seq<char>) -> TokenModel {
    TokenModel {
        kind: TokenType::Eof,
        lexeme: Seq::empty(),
        literal: None,
        line: line_at(s, s.len() as int),
    }
}

/// The whole token sequence of `s` from position `pos` on, ending with the
/// end-of-input marker, or the first lexical error.
pub open spec fn spec_tokens_from(s: Seq<char>, pos: int) -> Result<Seq<TokenModel>, LexErrorModel>
    decreases s.len() - pos,
    via spec_tokens_from_decreases
{
    match spec_next_token(s, pos) {
        LexStep::Eof => Ok(seq![eof_token(s)]),
        LexStep::Tok { token, next } => match spec_tokens_from(s, next) {
            Ok(rest) => Ok(seq![token] + rest),
            Err(e) => Err(e),
        },
        LexStep::Fail { err } => Err(err),
    }
}

#[via_fn]
proof fn spec_tokens_from_decreases(s: Seq<char>, pos: int) {
    if 0 <= pos <= s.len() {
        lemma_token_start_from_bounds(s, pos);
        let p = token_start_from(s, pos);
        if p < s.len() {
            lemma_token_at_progress(s, p);
        }
    }
}

/// The models of a sequence of tokens.
pub open spec fn tokens_view(ts: Seq<Token>) -> Seq<TokenModel> {
    ts.map_values(|t: Token| t@)
}

// ---------------------------------------------------------------------------
// The token round trip
// ---------------------------------------------------------------------------

/// Whether a line comment starts at position `i`.
pub open spec fn comment_starts_at(s: Seq<char>, i: int) -> bool {
    0 <= i < s.len() && s[i] == '/' && i + 1 < s.len() && s[i + 1] == '/'
}

/// The text from `pos` on with every line comment removed: `//` starts a
/// comment whose characters, up to but not including the next newline, are
/// dropped; every other character is kept.
pub open spec fn strip_comments(s: Seq<char>, pos: int) -> Seq<char>
    decreases s.len() - pos, 0int,
{
    if !(0 <= pos < s.len()) {
        Seq::empty()
    } else if comment_starts_at(s, pos) {
        strip_comment_rest(s, pos + 2)
    } else {
        seq![s[pos]] + strip_comments(s, pos + 1)
    }
}

/// Drops the remainder of a line comment, then strips on.
pub open spec fn strip_comment_rest(s: Seq<char>, pos: int) -> Seq<char>
    decreases s.len() - pos, 1int,
{
    if !(0 <= pos < s.len()) {
        Seq::empty()
    } else if s[pos] == '\n' {
        strip_comments(s, pos)
    } else {
        strip_comment_rest(s, pos + 1)
    }
}

/// The token lexemes of `s` from `pos` on, concatenated with the whitespace
/// characters that separate them in the source; comments contribute nothing.
pub open spec fn rendered_from(s: Seq<char>, pos: int) -> Seq<char>
    decreases s.len() - pos, 0int,
    via rendered_from_decreases
{
    if !(0 <= pos < s.len()) {
        Seq::empty()
    } else if is_space_char(s[pos]) {
        seq![s[pos]] + rendered_from(s, pos + 1)
    } else if comment_starts_at(s, pos) {
        rendered_comment(s, pos + 2)
    } else {
        match spec_token_at(s, pos) {
            LexStep::Tok { token, next } => token.lexeme + rendered_from(s, next),
            _ => Seq::empty(),
        }
    }
}

/// Skips the remainder of a line comment while rendering.
pub open spec fn rendered_comment(s: Seq<char>, pos: int) -> Seq<char>
    decreases s.len() - pos, 1int,
{
    if !(0 <= pos < s.len()) {
        Seq::empty()
    } else if s[pos] == '\n' {
        rendered_from(s, pos)
    } else {
        rendered_comment(s, pos + 1)
    }
}

#[via_fn]
proof fn rendered_from_decreases(s: Seq<char>, pos: int) {
    if 0 <= pos < s.len() {
        lemma_token_at_progress(s, pos);
    }
}

/// Looking for a token start is idempotent.
proof fn lemma_token_start_idem(s: Seq<char>, pos: int)
    requires
        0 <= pos <= s.len(),
    ensures
        token_start_from(s, token_start_from(s, pos)) == token_start_from(s, pos),
    decreases s.len() - pos, 0int,
{
    if pos < s.len() {
        if is_space_char(s[pos]) {
            lemma_token_start_idem(s, pos + 1);
        } else if s[pos] == '/' && pos + 1 < s.len() && s[pos + 1] == '/' {
            lemma_comment_rest_idem(s, pos + 2);
        }
    }
}

proof fn lemma_comment_rest_idem(s: Seq<char>, pos: int)
    requires
        0 <= pos <= s.len(),
    ensures
        token_start_from(s, comment_rest_from(s, pos)) == comment_rest_from(s, pos),
    decreases s.len() - pos, 1int,
{
    if pos < s.len() {
        if s[pos] == '\n' {
            lemma_token_start_idem(s, pos);
        } else {
            lemma_comment_rest_idem(s, pos + 1);
        }
    }
}

/// A token's lexeme never contains a comment start, and is exactly the span
/// of text the token was scanned from.
proof fn lemma_token_span(s: Seq<char>, p: int)
    requires
        0 <= p < s.len(),
        !comment_starts_at(s, p),
    ensures
        spec_token_at(s, p) matches LexStep::Tok { token, next } ==> token.lexeme == s.subrange(
            p,
            next,
        ) && (forall|i: int| p <= i < next ==> !comment_starts_at(s, i)),
{
    let c = s[p];
    if is_digit_char(c) {
        lemma_digits_end_bounds(s, p);
        let de = digits_end(s, p);
        if de < s.len() && s[de] == '.' && de + 1 < s.len() && is_digit_char(s[de + 1]) {
            lemma_digits_end_bounds(s, de + 1);
            let fe = digits_end(s, de + 1);
            assert forall|i: int| p <= i < fe implies !comment_starts_at(s, i) by {
                assert(i < de ==> is_digit_char(s[i]));
                assert(de + 1 <= i < fe ==> is_digit_char(s[i]));
            }
        } else {
            assert forall|i: int| p <= i < de implies !comment_starts_at(s, i) by {
                assert(is_digit_char(s[i]));
            }
        }
    } else if is_alpha_char(c) {
        lemma_ident_end_bounds(s, p);
        let ie = ident_end(s, p);
        assert forall|i: int| p <= i < ie implies !comment_starts_at(s, i) by {
            assert(is_ident_char(s[i]));
        }
    }
}

/// Stripping comments walks over a comment-free span verbatim.
proof fn lemma_strip_plain_segment(s: Seq<char>, a: int, b: int)
    requires
        0 <= a <= b <= s.len(),
        forall|i: int| a <= i < b ==> !comment_starts_at(s, i),
    ensures
        strip_comments(s, a) == s.subrange(a, b) + strip_comments(s, b),
    decreases b - a,
{
    if a < b {
        lemma_strip_plain_segment(s, a + 1, b);
        assert(s.subrange(a, b) =~= seq![s[a]] + s.subrange(a + 1, b));
        assert((seq![s[a]] + s.subrange(a + 1, b)) + strip_comments(s, b) =~= seq![s[a]] + (
        s.subrange(a + 1, b) + strip_comments(s, b)));
    } else {
        assert(s.subrange(a, a) =~= Seq::<char>::empty());
        assert(Seq::<char>::empty() + strip_comments(s, a) =~= strip_comments(s, a));
    }
}

/// The round trip from a general position: wherever scanning succeeds from
/// `pos`, the lexemes interleaved with the source's whitespace equal the
/// source with its comments removed.
proof fn lemma_render_strip_from(s: Seq<char>, pos: int)
    requires
        0 <= pos <= s.len(),
        spec_tokens_from(s, pos) is Ok,
    ensures
        rendered_from(s, pos) == strip_comments(s, pos),
    decreases s.len() - pos, 0int,
{
    if pos < s.len() {
        if is_space_char(s[pos]) {
            assert(token_start_from(s, pos) == token_start_from(s, pos + 1));
            lemma_render_strip_from(s, pos + 1);
        } else if comment_starts_at(s, pos) {
            lemma_token_start_idem(s, pos);
            lemma_render_strip_comment(s, pos + 2);
        } else {
            assert(token_start_from(s, pos) == pos);
            let step = spec_token_at(s, pos);
            match step {
                LexStep::Tok { token, next } => {
                    lemma_token_at_progress(s, pos);
                    lemma_token_span(s, pos);
                    lemma_strip_plain_segment(s, pos, next);
                    lemma_render_strip_from(s, next);
                },
                _ => {
                },
            }
        }
    }
}

proof fn lemma_render_strip_comment(s: Seq<char>, pos: int)
    requires
        0 <= pos <= s.len(),
        spec_tokens_from(s, comment_rest_from(s, pos)) is Ok,
    ensures
        rendered_comment(s, pos) == strip_comment_rest(s, pos),
    decreases s.len() - pos, 1int,
{
    if pos < s.len() {
        if s[pos] == '\n' {
            lemma_token_start_idem(s, pos);
            lemma_render_strip_from(s, pos);
        } else {
            lemma_render_strip_comment(s, pos + 1);
        }
    }
}

/// Token round trip: when scanning succeeds, concatenating the token lexemes
/// with the original inter-token whitespace reconstructs the input text
/// modulo comment removal.
pub proof fn lemma_token_round_trip(s: Seq<char>)
    requires
        spec_tokens_from(s, 0) is Ok,
    ensures
        rendered_from(s, 0) == strip_comments(s, 0),
{
    lemma_render_strip_from(s, 0);
}

/// An input consisting only of whitespace and comments — one that the
/// skipping function consumes entirely — scans to a sequence holding only
/// the end-of-input marker.
pub proof fn lemma_blank_input_scans_to_eof_only(s: Seq<char>)
    requires
        token_start_from(s, 0) == s.len(),
    ensures
        spec_tokens_from(s, 0) == Ok::<Seq<TokenModel>, LexErrorModel>(seq![eof_token(s)]),
{
}

// ---------------------------------------------------------------------------
// The executable scanner
// ---------------------------------------------------------------------------

/// A cursor over a source text, producing tokens one at a time
/// ([`Scanner::next_token`]) or all at once ([`Scanner::scan_tokens`]).
pub struct Scanner {
    input: String,
    length: usize,
    position: usize,
    line_number: u64,
}

impl Scanner {
    /// The source text as a character sequence.
    pub closed spec fn text(self) -> Seq<char> {
        self.input@
    }

    /// The position of the next unconsumed character.
    pub closed spec fn pos(self) -> int {
        self.position as int
    }

    /// The current 1-based line number.
    pub closed spec fn line(self) -> int {
        self.line_number as int
    }

    /// Well-formedness: the cursor is inside the text and the stored line
    /// number is the line of the cursor position.
    pub closed spec fn wf(self) -> bool {
        &&& self.position as int <= self.input@.len()
        &&& self.length as int == self.input@.len()
        &&& self.line_number as int == line_at(self.input@, self.position as int)
        &&& self.input@.len() < u64::MAX as int
    }

    /// Builds a scanner over `input`, positioned at its first character.
    pub fn new(input: &str) -> (s: Scanner)
        requires
            input@.len() < u64::MAX as int,
        ensures
            s.wf(),
            s.text() == input@,
            s.pos() == 0,
    {
        let length: usize = input.unicode_len();
        Scanner { input: input.to_owned(), length, position: 0, line_number: 1 }
    }

    fn char_at(&self, i: usize) -> (c: char)
        requires
            self.wf(),
            i < self.text().len(),
        ensures
            c == self.text()[i as int],
    {
        self.input.as_str().get_char(i)
    }

    fn lexeme_of(&self, from: usize, to: usize) -> (r: String)
        requires
            self.wf(),
            from <= to <= self.text().len(),
        ensures
            r@ == self.text().subrange(from as int, to as int),
    {
        self.input.as_str().substring_char(from, to).to_owned()
    }

    /// Consumes one character, counting a newline into the line number.
    pub fn advance(&mut self)
        requires
            old(self).wf(),
        ensures
            final(self).wf(),
            final(self).text() == old(self).text(),
            old(self).pos() < old(self).text().len() ==> final(self).pos() == old(self).pos() + 1,
            old(self).pos() == old(self).text().len() ==> final(self).pos() == old(self).pos(),
    {
        if self.position < self.length {
            let c = self.char_at(self.position);
            proof {
                lemma_line_at_le(self.input@, self.position as int);
            }
            self.position = self.position + 1;
            if c == '\n' {
                self.line_number = self.line_number + 1;
            }
        }
    }

    /// Skips the maximal run of whitespace at the cursor.
    pub fn skip_whitespace(&mut self)
        requires
            old(self).wf(),
        ensures
            final(self).wf(),
            final(self).text() == old(self).text(),
            final(self).pos() == ws_end(old(self).text(), old(self).pos()),
            old(self).pos() <= final(self).pos(),
            final(self).pos() < final(self).text().len() ==> !is_space_char(
                final(self).text()[final(self).pos()],
            ),
    {
        while self.position < self.length && is_space(self.char_at(self.position))
            invariant
                self.wf(),
                self.text() == old(self).text(),
                old(self).pos() <= self.pos(),
                ws_end(self.text(), self.pos()) == ws_end(old(self).text(), old(self).pos()),
            decreases self.text().len() - self.pos(),
        {
            self.advance();
        }
    }

    /// Skips the remainder of a line comment: everything up to, but not
    /// including, the next newline or the end of the text.
    fn skip_comment(&mut self)
        requires
            old(self).wf(),
        ensures
            final(self).wf(),
            final(self).text() == old(self).text(),
            old(self).pos() <= final(self).pos(),
            token_start_from(final(self).text(), final(self).pos()) == comment_rest_from(
                old(self).text(),
                old(self).pos(),
            ),
    {
        while self.position < self.length && !(self.char_at(self.position) == '\n')
            invariant
                self.wf(),
                self.text() == old(self).text(),
                old(self).pos() <= self.pos(),
                comment_rest_from(self.text(), self.pos()) == comment_rest_from(
                    old(self).text(),
                    old(self).pos(),
                ),
            decreases self.text().len() - self.pos(),
        {
            self.advance();
        }
    }

    /// Skips the maximal run of decimal digits at the cursor.
    fn scan_digits(&mut self)
        requires
            old(self).wf(),
        ensures
            final(self).wf(),
            final(self).text() == old(self).text(),
            old(self).pos() <= final(self).pos(),
            final(self).pos() == digits_end(old(self).text(), old(self).pos()),
            forall|i: int|
                old(self).pos() <= i < final(self).pos() ==> is_digit_char(final(self).text()[i]),
    {
        while self.position < self.length && is_digit(self.char_at(self.position))
            invariant
                self.wf(),
                self.text() == old(self).text(),
                old(self).pos() <= self.pos(),
                digits_end(self.text(), self.pos()) == digits_end(old(self).text(), old(self).pos()),
                forall|i: int| old(self).pos() <= i < self.pos() ==> is_digit_char(self.text()[i]),
            decreases self.text().len() - self.pos(),
        {
            self.advance();
        }
    }

    /// Skips the maximal run of identifier characters at the cursor.
    fn scan_ident(&mut self)
        requires
            old(self).wf(),
        ensures
            final(self).wf(),
            final(self).text() == old(self).text(),
            old(self).pos() <= final(self).pos(),
            final(self).pos() == ident_end(old(self).text(), old(self).pos()),
    {
        while self.position < self.length && is_ident(self.char_at(self.position))
            invariant
                self.wf(),
                self.text() == old(self).text(),
                old(self).pos() <= self.pos(),
                ident_end(self.text(), self.pos()) == ident_end(old(self).text(), old(self).pos()),
            decreases self.text().len() - self.pos(),
        {
            self.advance();
        }
    }

    /// Decodes the digit run `from..to` of the text as an `i64`, or reports
    /// that its value does not fit.
    fn int_value(&self, from: usize, to: usize) -> (r: Option<i64>)
        requires
            self.wf(),
            from <= to <= self.text().len(),
            forall|i: int| from <= i < to ==> is_digit_char(self.text()[i]),
        ensures
            (match r {
                Some(v) => digits_val(self.text().subrange(from as int, to as int)) == v as int,
                None => digits_val(self.text().subrange(from as int, to as int)) > i64::MAX as int,
            }),
    {
        let ghost s = self.text();
        let mut acc: i64 = 0;
        let mut i: usize = from;
        proof {
            assert(s.subrange(from as int, from as int) =~= Seq::<char>::empty());
        }
        while i < to
            invariant
                self.wf(),
                s == self.text(),
                from <= i <= to <= s.len(),
                forall|k: int| from <= k < to ==> is_digit_char(s[k]),
                0 <= acc,
                acc as int == digits_val(s.subrange(from as int, i as int)),
            decreases to - i,
        {
            let c = self.char_at(i);
            let d: i64 = (c as u32 - 48) as i64;
            proof {
                assert(s.subrange(from as int, i + 1).drop_last() =~= s.subrange(
                    from as int,
                    i as int,
                ));
            }
            let shifted: i64 = match acc.checked_mul(10) {
                Some(x) => x,
                None => {
                    proof {
                        lemma_digits_val_mono(s, from as int, i + 1, to as int);
                    }
                    return None;
                },
            };
            acc = match shifted.checked_add(d) {
                Some(x) => x,
                None => {
                    proof {
                        lemma_digits_val_mono(s, from as int, i + 1, to as int);
                    }
                    return None;
                },
            };
            i = i + 1;
        }
        Some(acc)
    }

    /// Looks the lexeme up in the keyword and math-function tables.
    fn keyword_or_identifier(lexeme: &String) -> (k: TokenType)
        ensures
            k == keyword_kind(lexeme@),
    {
        if *lexeme == "and".to_owned() {
            TokenType::And
        } else if *lexeme == "class".to_owned() {
            TokenType::Class
        } else if *lexeme == "else".to_owned() {
            TokenType::Else
        } else if *lexeme == "false".to_owned() {
            TokenType::False
        } else if *lexeme == "for".to_owned() {
            TokenType::For
        } else if *lexeme == "fun".to_owned() {
            TokenType::Fun
        } else if *lexeme == "if".to_owned() {
            TokenType::If
        } else if *lexeme == "nil".to_owned() {
            TokenType::Nil
        } else if *lexeme == "or".to_owned() {
            TokenType::Or
        } else if *lexeme == "print".to_owned() {
            TokenType::Print
        } else if *lexeme == "return".to_owned() {
            TokenType::Return
        } else if *lexeme == "super".to_owned() {
            TokenType::Super
        } else if *lexeme == "this".to_owned() {
            TokenType::This
        } else if *lexeme == "true".to_owned() {
            TokenType::True
        } else if *lexeme == "var".to_owned() {
            TokenType::Var
        } else if *lexeme == "while".to_owned() {
            TokenType::While
        } else if *lexeme == "sin".to_owned() {
            TokenType::Sin
        } else if *lexeme == "cos".to_owned() {
            TokenType::Cos
        } else if *lexeme == "tan".to_owned() {
            TokenType::Tan
        } else if *lexeme == "asin".to_owned() {
            TokenType::Asin
        } else if *lexeme == "acos".to_owned() {
            TokenType::Acos
        } else if *lexeme == "atan".to_owned() {
            TokenType::Atan
        } else if *lexeme == "sinh".to_owned() {
            TokenType::Sinh
        } else if *lexeme == "cosh".to_owned() {
            TokenType::Cosh
        } else if *lexeme == "tanh".to_owned() {
            TokenType::Tanh
        } else if *lexeme == "log".to_owned() {
            TokenType::Log
        } else if *lexeme == "exp".to_owned() {
            TokenType::Exp
        } else if *lexeme == "sqrt".to_owned() {
            TokenType::Sqrt
        } else {
            TokenType::Identifier
        }
    }

    /// Produces the next token, `None` at the end of the input, or the first
    /// lexical error, exactly as the model `spec_next_token` says.
    pub fn next_token(&mut self) -> (r: Result<Option<Token>, LexError>)
        requires
            old(self).wf(),
        ensures
            final(self).wf(),
            final(self).text() == old(self).text(),
            old(self).pos() <= final(self).pos(),
            (match spec_next_token(old(self).text(), old(self).pos()) {
                LexStep::Eof => r matches Ok(o) && o is None && final(self).pos() == old(
                    self,
                ).text().len(),
                LexStep::Tok { token, next } => (r matches Ok(o) && o matches Some(t) && t@
                    == token) && final(self).pos() == next,
                LexStep::Fail { err } => r matches Err(e) && e@ == err,
            }),
    {
        let ghost s = self.input@;
        let ghost pos0 = self.position as int;
        loop
            invariant
                self.wf(),
                self.text() == s,
                pos0 <= self.pos(),
                token_start_from(s, self.pos()) == token_start_from(s, pos0),
            ensures
                self.wf(),
                self.text() == s,
                pos0 <= self.pos(),
                self.pos() == token_start_from(s, pos0),
            decreases s.len() - self.pos(),
        {
            proof {
                lemma_ws_token_start(s, self.pos());
            }
            self.skip_whitespace();
            if self.position == self.length {
                break;
            }
            let c = self.char_at(self.position);
            if !(c == '/' && self.position + 1 < self.length && self.char_at(self.position + 1)
                == '/') {
                break;
            }
            self.advance();
            self.advance();
            self.skip_comment();
        }
        if self.position == self.length {
            return Ok(None);
        }
        let start = self.position;
        let line_num = self.line_number;
        let c = self.char_at(start);
        if let Some(kind) = single_kind(c) {
            self.advance();
            let lexeme = self.lexeme_of(start, start + 1);
            return Ok(Some(Token::new(kind, lexeme, None, line_num)));
        }
        if c == '!' || c == '=' || c == '<' || c == '>' {
            self.advance();
            if self.position < self.length && self.char_at(self.position) == '=' {
                self.advance();
                let kind = if c == '!' {
                    TokenType::BangEqual
                } else if c == '=' {
                    TokenType::EqualEqual
                } else if c == '<' {
                    TokenType::LessEqual
                } else {
                    TokenType::GreaterEqual
                };
                let lexeme = self.lexeme_of(start, start + 2);
                return Ok(Some(Token::new(kind, lexeme, None, line_num)));
            }
            let kind = if c == '!' {
                TokenType::Bang
            } else if c == '=' {
                TokenType::Equal
            } else if c == '<' {
                TokenType::Less
            } else {
                TokenType::Greater
            };
            let lexeme = self.lexeme_of(start, start + 1);
            return Ok(Some(Token::new(kind, lexeme, None, line_num)));
        }
        if is_digit(c) {
            self.scan_digits();
            let de = self.position;
            if de < self.length && self.char_at(de) == '.' && de + 1 < self.length && is_digit(
                self.char_at(de + 1),
            ) {
                self.advance();
                self.scan_digits();
                let fe = self.position;
                proof {
                    assert(digits_end(s, de + 1) == digits_end(s, de + 2));
                }
                let lexeme = self.lexeme_of(start, fe);
                let text = lexeme.clone();
                return Ok(Some(Token::new(
                    TokenType::Number,
                    lexeme,
                    Some(LiteralValue::FValue(text)),
                    line_num,
                )));
            }
            let lexeme = self.lexeme_of(start, de);
            return match self.int_value(start, de) {
                Some(v) => Ok(Some(Token::new(
                    TokenType::Number,
                    lexeme,
                    Some(LiteralValue::IntValue(v)),
                    line_num,
                ))),
                None => Err(LexError::NumberFormatError { lexeme, line: line_num }),
            };
        }
        if is_alpha(c) {
            self.scan_ident();
            let ie = self.position;
            let lexeme = self.lexeme_of(start, ie);
            let kind = Scanner::keyword_or_identifier(&lexeme);
            return Ok(Some(Token::new(kind, lexeme, None, line_num)));
        }
        self.advance();
        Err(LexError::UnexpectedCharacter { character: c, line: line_num })
    }

    /// Scans the whole input into tokens, ending with the end-of-input
    /// marker, or stops at and returns the first lexical error, exactly as
    /// the model `spec_tokens_from` says.
    pub fn scan_tokens(&mut self) -> (r: Result<Vec<Token>, LexError>)
        requires
            old(self).wf(),
        ensures
            final(self).wf(),
            final(self).text() == old(self).text(),
            (match spec_tokens_from(old(self).text(), old(self).pos()) {
                Ok(models) => r matches Ok(v) && tokens_view(v@) == models,
                Err(e) => r matches Err(err) && err@ == e,
            }),
    {
        let ghost s = self.input@;
        let ghost pos0 = self.position as int;
        let mut tokens: Vec<Token> = Vec::new();
        loop
            invariant
                self.wf(),
                self.text() == s,
                s == old(self).text(),
                pos0 == old(self).pos(),
                0 <= self.pos() <= s.len(),
                (spec_tokens_from(s, pos0) is Ok <==> spec_tokens_from(s, self.pos()) is Ok),
                spec_tokens_from(s, pos0) is Ok ==> spec_tokens_from(s, pos0)->Ok_0 == tokens_view(
                    tokens@,
                ) + spec_tokens_from(s, self.pos())->Ok_0,
                spec_tokens_from(s, pos0) is Err ==> spec_tokens_from(s, pos0)->Err_0
                    == spec_tokens_from(s, self.pos())->Err_0,
            decreases s.len() - self.pos(),
        {
            let ghost cur = self.pos();
            proof {
                lemma_token_start_from_bounds(s, cur);
                let p = token_start_from(s, cur);
                if p < s.len() {
                    lemma_token_at_progress(s, p);
                }
            }
            match self.next_token() {
                Ok(Some(tok)) => {
                    proof {
                        assert(tokens_view(tokens@.push(tok)) =~= tokens_view(tokens@) + seq![
                            tok@,
                        ]);
                        if spec_tokens_from(s, pos0) is Ok {
                            assert((tokens_view(tokens@) + seq![tok@]) + spec_tokens_from(
                                s,
                                self.pos(),
                            )->Ok_0 =~= tokens_view(tokens@) + (seq![tok@] + spec_tokens_from(
                                s,
                                self.pos(),
                            )->Ok_0));
                        }
                    }
                    tokens.push(tok);
                },
                Ok(None) => {
                    let eof = Token::new(TokenType::Eof, String::new(), None, self.line_number);
                    proof {
                        assert(eof@ == eof_token(s));
                        assert(tokens_view(tokens@.push(eof)) =~= tokens_view(tokens@) + seq![
                            eof@,
                        ]);
                    }
                    tokens.push(eof);
                    return Ok(tokens);
                },
                Err(e) => {
                    return Err(e);
                },
            }
        }
    }
}

fn single_kind(c: char) -> (k: Option<TokenType>)
    ensures
        k == single_char_kind(c),
{
    if c == '(' {
        Some(TokenType::LeftParen)
    } else if c == ')' {
        Some(TokenType::RightParen)
    } else if c == '{' {
        Some(TokenType::LeftBrace)
    } else if c == '}' {
        Some(TokenType::RightBrace)
    } else if c == '[' {
        Some(TokenType::LeftBracket)
    } else if c == ']' {
        Some(TokenType::RightBracket)
    } else if c == ',' {
        Some(TokenType::Comma)
    } else if c == '.' {
        Some(TokenType::Dot)
    } else if c == '-' {
        Some(TokenType::Minus)
    } else if c == '+' {
        Some(TokenType::Plus)
    } else if c == ';' {
        Some(TokenType::Semicolon)
    } else if c == '/' {
        Some(TokenType::Slash)
    } else if c == '*' {
        Some(TokenType::Star)
    } else if c == '%' {
        Some(TokenType::Percent)
    } else if c == '⊗' {
        Some(TokenType::TensorMul)
    } else if c == '·' {
        Some(TokenType::TensorDot)
    } else if c == '×' {
        Some(TokenType::TensorCross)
    } else {
        None
    }
}

} // verus!


