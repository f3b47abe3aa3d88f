//! Recursive-descent parser: turns the token sequence into one expression
//! tree over a fixed precedence ladder, or reports the first structural
//! error.
//!
//! The grammar is written down once, as the mathematical functions
//! `spec_binary` (one function for the six left-associative infix levels),
//! `spec_unary`, `spec_tensor`, `spec_primary` and `spec_elems`, and every
//! executable method is proved to return exactly what those functions say.
//! The ladder, loosest to tightest: `or`, `and`, equality, comparison, term,
//! factor, unary (right-associative), tensor operators, primary.

use vstd::prelude::*;

use crate::expr::{Expr, ExprModel};
use crate::scanner::{tokens_view, Token, TokenModel, TokenType};

verus! {


/// Mathematical model of a [`ParseError`].
pub ghost struct ParseErrorModel {
    pub found: TokenModel,
    pub message: Seq<char>,
}

/// An error produced while parsing: a production required a specific token
/// (or class of tokens) and the current token does not satisfy it. When the
/// parser ran out of tokens, `found` is the end-of-input marker.
#[derive(Debug, PartialEq)]
pub enum ParseError {
    UnexpectedToken { found: Token, message: String },
}

impl View for ParseError {
    type V = ParseErrorModel;

    open spec fn view(&self) -> ParseErrorModel {
        match self {
            ParseError::UnexpectedToken { found, message } => (ParseErrorModel {
                found: found@,
                message: message@,
            }),
        }
    }
}

/// The token model reported when the parser looks past the end of its input.
pub open spec fn default_token() -> TokenModel {
    TokenModel { kind: TokenType::Eof, lexeme: Seq::empty(), literal: None, line: 0 }
}

/// The token at position `i`, or the end-of-input marker past the end.
pub open spec fn peek_tok(toks: Seq<TokenModel>, i: int) -> TokenModel {
    if 0 <= i < toks.len() {
        toks[i]
    } else {
        default_token()
    }
}

/// The kind of the token at position `i`.
pub open spec fn peek_kind(toks: Seq<TokenModel>, i: int) -> TokenType {
    peek_tok(toks, i).kind
}

/// The remaining length, clamped so that it is usable as a decreases measure.
pub open spec fn rem(toks: Seq<TokenModel>, i: int) -> int {
    if i <= toks.len() {
        toks.len() - i
    } else {
        0
    }
}

/// Positions a recursive call may resume from. A successful parse always
/// consumes at least one token, so `bump(i, j) == j` whenever `j` came out of
/// a successful parse that started at `i`; the clamp only serves the
/// termination checker, and the executable parser is proved to match the
/// unclamped reading.
pub open spec fn bump(i: int, j: int) -> int {
    if j <= i {
        i + 1
    } else {
        j
    }
}

/// The infix operators of left-associative level `lvl` (0 = `or`, 1 = `and`,
/// 2 = equality, 3 = comparison, 4 = term, 5 = factor).
pub open spec fn level_op(lvl: int, k: TokenType) -> bool {
    if lvl == 0 {
        k == TokenType::Or
    } else if lvl == 1 {
        k == TokenType::And
    } else if lvl == 2 {
        k == TokenType::EqualEqual || k == TokenType::BangEqual
    } else if lvl == 3 {
        k == TokenType::Less || k == TokenType::LessEqual || k == TokenType::Greater || k
            == TokenType::GreaterEqual
    } else if lvl == 4 {
        k == TokenType::Plus || k == TokenType::Minus
    } else {
        k == TokenType::Star || k == TokenType::Slash || k == TokenType::Percent
    }
}

/// The prefix operators.
pub open spec fn is_unary_op(k: TokenType) -> bool {
    k == TokenType::Bang || k == TokenType::Minus || k == TokenType::Plus
}

/// The tensor infix operators.
pub open spec fn is_tensor_op(k: TokenType) -> bool {
    k == TokenType::TensorMul || k == TokenType::TensorDot || k == TokenType::TensorCross
}

/// The token kinds that begin a literal.
pub open spec fn is_literal_kind(k: TokenType) -> bool {
    k == TokenType::Number || k == TokenType::StringLit || k == TokenType::True || k
        == TokenType::False || k == TokenType::Nil
}

/// The built-in math function names.
pub open spec fn is_math_fn_kind(k: TokenType) -> bool {
    k == TokenType::Sin || k == TokenType::Cos || k == TokenType::Tan || k == TokenType::Asin || k
        == TokenType::Acos || k == TokenType::Atan || k == TokenType::Sinh || k == TokenType::Cosh
        || k == TokenType::Tanh || k == TokenType::Log || k == TokenType::Exp || k
        == TokenType::Sqrt
}

/// The message reported when an element list is not closed properly.
pub open spec fn closer_message(closer: TokenType) -> Seq<char> {
    if closer == TokenType::RightParen {
        "Expect ')' after arguments."@
    } else {
        "Expect ']' after elements."@
    }
}

/// The outcome of parsing one production: an expression model together with
/// the position just past it, or a parse error.
pub ghost enum ParseStep {
    Done { e: ExprModel, next: int },
    Fail { err: ParseErrorModel },
}

/// The outcome of parsing a comma-separated element list.
pub ghost enum ElemsStep {
    Done { es: Seq<ExprModel>, next: int },
    Fail { err: ParseErrorModel },
}

/// A full expression: the loosest level of the ladder.
pub open spec fn spec_expression(toks: Seq<TokenModel>, i: int) -> ParseStep
    decreases rem(toks, i), 11int,
{
    spec_binary(toks, i, 0)
}

/// One left-associative infix level: one level tighter on each side, looping
/// while the current token is an operator of this level.
pub open spec fn spec_binary(toks: Seq<TokenModel>, i: int, lvl: int) -> ParseStep
    decreases rem(toks, i), 10int - lvl,
{
    if !(0 <= lvl <= 5) {
        ParseStep::Fail {
            err: ParseErrorModel { found: default_token(), message: "Expected expression."@ },
        }
    } else if !(0 <= i < toks.len()) {
        ParseStep::Fail {
            err: ParseErrorModel { found: default_token(), message: "Expected expression."@ },
        }
    } else {
        let sub = if lvl == 5 {
            spec_unary(toks, i)
        } else {
            spec_binary(toks, i, lvl + 1)
        };
        match sub {
            ParseStep::Done { e, next } => spec_binary_rest(toks, bump(i, next), lvl, e),
            ParseStep::Fail { err } => ParseStep::Fail { err },
        }
    }
}

/// The loop of a left-associative level, folding operands onto `acc`.
pub open spec fn spec_binary_rest(toks: Seq<TokenModel>, i: int, lvl: int, acc: ExprModel) -> ParseStep
    decreases rem(toks, i), 10int - lvl,
{
    if !(0 <= lvl <= 5) {
        ParseStep::Fail {
            err: ParseErrorModel { found: default_token(), message: "Expected expression."@ },
        }
    } else if level_op(lvl, peek_kind(toks, i)) {
        let op = peek_kind(toks, i);
        let sub = if lvl == 5 {
            spec_unary(toks, i + 1)
        } else {
            spec_binary(toks, i + 1, lvl + 1)
        };
        match sub {
            ParseStep::Done { e, next } => spec_binary_rest(
                toks,
                bump(i + 1, next),
                lvl,
                ExprModel::Binary { left: Box::new(acc), operator: op, right: Box::new(e) },
            ),
            ParseStep::Fail { err } => ParseStep::Fail { err },
        }
    } else {
        ParseStep::Done { e: acc, next: i }
    }
}

/// Prefix operators: right-associative, by direct recursion.
pub open spec fn spec_unary(toks: Seq<TokenModel>, i: int) -> ParseStep
    decreases rem(toks, i), 4int,
{
    if is_unary_op(peek_kind(toks, i)) {
        match spec_unary(toks, i + 1) {
            ParseStep::Done { e, next } => ParseStep::Done {
                e: ExprModel::Unary { operator: peek_kind(toks, i), right: Box::new(e) },
                next: next,
            },
            ParseStep::Fail { err } => ParseStep::Fail { err },
        }
    } else {
        spec_tensor(toks, i)
    }
}

/// Tensor operators: a left-associative loop over primaries, binding tighter
/// than unary and all arithmetic levels.
pub open spec fn spec_tensor(toks: Seq<TokenModel>, i: int) -> ParseStep
    decreases rem(toks, i), 3int,
{
    if !(0 <= i < toks.len()) {
        ParseStep::Fail {
            err: ParseErrorModel { found: default_token(), message: "Expected expression."@ },
        }
    } else {
        match spec_primary(toks, i) {
            ParseStep::Done { e, next } => spec_tensor_rest(toks, bump(i, next), e),
            ParseStep::Fail { err } => ParseStep::Fail { err },
        }
    }
}

/// The loop of the tensor level.
pub open spec fn spec_tensor_rest(toks: Seq<TokenModel>, i: int, acc: ExprModel) -> ParseStep
    decreases rem(toks, i), 3int,
{
    if is_tensor_op(peek_kind(toks, i)) {
        let op = peek_kind(toks, i);
        match spec_primary(toks, i + 1) {
            ParseStep::Done { e, next } => spec_tensor_rest(
                toks,
                bump(i + 1, next),
                ExprModel::TensorOp { left: Box::new(acc), operator: op, right: Box::new(e) },
            ),
            ParseStep::Fail { err } => ParseStep::Fail { err },
        }
    } else {
        ParseStep::Done { e: acc, next: i }
    }
}

/// Primary expressions: literals, grouping, identifiers and calls, bracketed
/// literals, and math function calls.
pub open spec fn spec_primary(toks: Seq<TokenModel>, i: int) -> ParseStep
    decreases rem(toks, i), 2int,
{
    if !(0 <= i < toks.len()) {
        ParseStep::Fail {
            err: ParseErrorModel { found: default_token(), message: "Expected expression."@ },
        }
    } else {
        let t = toks[i];
        let k = t.kind;
        if is_literal_kind(k) {
            ParseStep::Done { e: ExprModel::Literal(t), next: i + 1 }
        } else if k == TokenType::LeftParen {
            match spec_expression(toks, i + 1) {
                ParseStep::Done { e, next } => if peek_kind(toks, next) == TokenType::RightParen {
                    ParseStep::Done { e: ExprModel::Grouping(Box::new(e)), next: next + 1 }
                } else {
                    ParseStep::Fail {
                        err: ParseErrorModel {
                            found: peek_tok(toks, next),
                            message: "Expect ')' after expression."@,
                        },
                    }
                },
                ParseStep::Fail { err } => ParseStep::Fail { err },
            }
        } else if k == TokenType::Identifier {
            if peek_kind(toks, i + 1) == TokenType::LeftParen {
                match spec_elems(toks, i + 2, TokenType::RightParen) {
                    ElemsStep::Done { es, next } => ParseStep::Done {
                        e: ExprModel::Call { callee: t, arguments: es },
                        next: next,
                    },
                    ElemsStep::Fail { err } => ParseStep::Fail { err },
                }
            } else {
                ParseStep::Done { e: ExprModel::Variable(t), next: i + 1 }
            }
        } else if k == TokenType::LeftBracket {
            match spec_elems(toks, i + 1, TokenType::RightBracket) {
                ElemsStep::Done { es, next } => ParseStep::Done {
                    e: ExprModel::ArrayLiteral { elements: es },
                    next: next,
                },
                ElemsStep::Fail { err } => ParseStep::Fail { err },
            }
        } else if is_math_fn_kind(k) {
            if peek_kind(toks, i + 1) == TokenType::LeftParen {
                match spec_elems(toks, i + 2, TokenType::RightParen) {
                    ElemsStep::Done { es, next } => ParseStep::Done {
                        e: ExprModel::Call { callee: t, arguments: es },
                        next: next,
                    },
                    ElemsStep::Fail { err } => ParseStep::Fail { err },
                }
            } else {
                ParseStep::Fail {
                    err: ParseErrorModel {
                        found: peek_tok(toks, i + 1),
                        message: "Expect '(' after function name."@,
                    },
                }
            }
        } else {
            ParseStep::Fail { err: ParseErrorModel { found: t, message: "Expected expression."@ } }
        }
    }
}

/// A comma-separated expression list terminated by `closer` (which is
/// consumed). The list may be empty.
pub open spec fn spec_elems(toks: Seq<TokenModel>, i: int, closer: TokenType) -> ElemsStep
    decreases rem(toks, i), 12int,
{
    if !(0 <= i < toks.len()) {
        ElemsStep::Fail {
            err: ParseErrorModel { found: default_token(), message: "Expected expression."@ },
        }
    } else if peek_kind(toks, i) == closer {
        ElemsStep::Done { es: Seq::empty(), next: i + 1 }
    } else {
        match spec_expression(toks, i) {
            ParseStep::Done { e, next } => spec_elems_rest(toks, bump(i, next), seq![e], closer),
            ParseStep::Fail { err } => ElemsStep::Fail { err },
        }
    }
}

/// The models of a sequence of expressions.
pub open spec fn exprs_view(es: Seq<Expr>) -> Seq<ExprModel> {
    es.map_values(|e: Expr| e.model())
}

/// The loop of an element list: after each element, a comma continues the
/// list and the closer ends it.
pub open spec fn spec_elems_rest(
    toks: Seq<TokenModel>,
    i: int,
    acc: Seq<ExprModel>,
    closer: TokenType,
) -> ElemsStep
    decreases rem(toks, i), 12int,
{
    if peek_kind(toks, i) == TokenType::Comma {
        match spec_expression(toks, i + 1) {
            ParseStep::Done { e, next } => spec_elems_rest(toks, bump(i + 1, next), acc.push(e), closer),
            ParseStep::Fail { err } => ElemsStep::Fail { err },
        }
    } else if peek_kind(toks, i) == closer {
        ElemsStep::Done { es: acc, next: i + 1 }
    } else {
        ElemsStep::Fail {
            err: ParseErrorModel { found: peek_tok(toks, i), message: closer_message(closer) },
        }
    }
}

// ---------------------------------------------------------------------------
// The executable parser
// ---------------------------------------------------------------------------

fn level_op_holds(lvl: u8, k: TokenType) -> (b: bool)
    requires
        lvl <= 5,
    ensures
        b == level_op(lvl as int, k),
{
    if lvl == 0 {
        k == TokenType::Or
    } else if lvl == 1 {
        k == TokenType::And
    } else if lvl == 2 {
        k == TokenType::EqualEqual || k == TokenType::BangEqual
    } else if lvl == 3 {
        k == TokenType::Less || k == TokenType::LessEqual || k == TokenType::Greater || k
            == TokenType::GreaterEqual
    } else if lvl == 4 {
        k == TokenType::Plus || k == TokenType::Minus
    } else {
        k == TokenType::Star || k == TokenType::Slash || k == TokenType::Percent
    }
}

fn is_math_fn(k: TokenType) -> (b: bool)
    ensures
        b == is_math_fn_kind(k),
{
    k == TokenType::Sin || k == TokenType::Cos || k == TokenType::Tan || k == TokenType::Asin || k
        == TokenType::Acos || k == TokenType::Atan || k == TokenType::Sinh || k == TokenType::Cosh
        || k == TokenType::Tanh || k == TokenType::Log || k == TokenType::Exp || k
        == TokenType::Sqrt
}

fn eof_found() -> (t: Token)
    ensures
        t@ == default_token(),
{
    Token::new(TokenType::Eof, String::new(), None, 0)
}

/// A cursor over a token sequence, building one expression tree by recursive
/// descent over the precedence ladder.
pub struct Parser {
    tokens: Vec<Token>,
    current: usize,
}

impl Parser {
    /// The models of the tokens being parsed.
    pub closed spec fn toks(self) -> Seq<TokenModel> {
        tokens_view(self.tokens@)
    }

    /// The position of the next unconsumed token.
    pub closed spec fn cur(self) -> int {
        self.current as int
    }

    /// Well-formedness: the cursor is inside the token sequence.
    pub closed spec fn wf(self) -> bool {
        self.current as int <= self.tokens@.len()
    }

    /// Builds a parser over `tokens`, positioned at the first token.
    pub fn new(tokens: Vec<Token>) -> (p: Parser)
        ensures
            p.wf(),
            p.toks() == tokens_view(tokens@),
            p.cur() == 0,
    {
        Parser { tokens, current: 0 }
    }

    fn peek_type(&self) -> (k: TokenType)
        requires
            self.wf(),
        ensures
            k == peek_kind(self.toks(), self.cur()),
    {
        if self.current < self.tokens.len() {
            self.tokens[self.current].token_type
        } else {
            TokenType::Eof
        }
    }

    fn peek_token(&self) -> (t: Token)
        requires
            self.wf(),
        ensures
            t@ == peek_tok(self.toks(), self.cur()),
    {
        if self.current < self.tokens.len() {
            self.tokens[self.current].clone()
        } else {
            eof_found()
        }
    }

    fn advance(&mut self)
        requires
            old(self).wf(),
        ensures
            final(self).wf(),
            final(self).toks() == old(self).toks(),
            old(self).cur() < old(self).toks().len() ==> final(self).cur() == old(self).cur() + 1,
            old(self).cur() == old(self).toks().len() ==> final(self).cur() == old(self).cur(),
    {
        if self.current < self.tokens.len() {
            self.current = self.current + 1;
        }
    }

    fn check(&self, expected: TokenType) -> (b: bool)
        requires
            self.wf(),
            expected != TokenType::Eof,
        ensures
            b == (peek_kind(self.toks(), self.cur()) == expected),
    {
        if self.current < self.tokens.len() {
            self.tokens[self.current].token_type == expected
        } else {
            false
        }
    }

    /// Advances past the expected token, or fails with `UnexpectedToken`.
    fn consume(&mut self, expected: TokenType, message: &str) -> (r: Result<(), ParseError>)
        requires
            old(self).wf(),
            expected != TokenType::Eof,
        ensures
            final(self).wf(),
            final(self).toks() == old(self).toks(),
            old(self).cur() <= final(self).cur(),
            peek_kind(old(self).toks(), old(self).cur()) == expected ==> r is Ok
                && final(self).cur() == old(self).cur() + 1,
            peek_kind(old(self).toks(), old(self).cur()) != expected ==> (r matches Err(e) && e@
                == (ParseErrorModel {
                found: peek_tok(old(self).toks(), old(self).cur()),
                message: message@,
            })),
    {
        if self.check(expected) {
            self.advance();
            Ok(())
        } else {
            Err(ParseError::UnexpectedToken { found: self.peek_token(), message: message.to_owned() })
        }
    }

    /// Parses one full expression, exactly as the model `spec_expression`
    /// says: on success the returned tree is the model's tree and the cursor
    /// stands just past it; on failure the error is the model's error.
    pub fn parse_expression(&mut self) -> (r: Result<Expr, ParseError>)
        requires
            old(self).wf(),
        ensures
            final(self).wf(),
            final(self).toks() == old(self).toks(),
            old(self).cur() <= final(self).cur(),
            r is Ok ==> old(self).cur() < final(self).cur(),
            (match spec_expression(old(self).toks(), old(self).cur()) {
                ParseStep::Done { e, next } => (r matches Ok(x) && x@ == e)
                    && final(self).cur() == next,
                ParseStep::Fail { err } => r matches Err(x) && x@ == err,
            }),
        decreases rem(self.toks(), self.cur()), 11int,
    {
        self.parse_binary(0)
    }

    /// One left-associative infix level of the ladder (0 = `or` … 5 =
    /// factor); level 5 descends into unary.
    fn parse_binary(&mut self, lvl: u8) -> (r: Result<Expr, ParseError>)
        requires
            old(self).wf(),
            lvl <= 5,
        ensures
            final(self).wf(),
            final(self).toks() == old(self).toks(),
            old(self).cur() <= final(self).cur(),
            r is Ok ==> old(self).cur() < final(self).cur(),
            (match spec_binary(old(self).toks(), old(self).cur(), lvl as int) {
                ParseStep::Done { e, next } => (r matches Ok(x) && x@ == e)
                    && final(self).cur() == next,
                ParseStep::Fail { err } => r matches Err(x) && x@ == err,
            }),
        decreases rem(self.toks(), self.cur()), 10int - lvl,
    {
        if self.current >= self.tokens.len() {
            return Err(ParseError::UnexpectedToken {
                found: eof_found(),
                message: "Expected expression.".to_owned(),
            });
        }
        let sub = if lvl == 5 {
            self.parse_unary()
        } else {
            self.parse_binary(lvl + 1)
        };
        match sub {
            Ok(e) => self.parse_binary_rest(lvl, e),
            Err(err) => Err(err),
        }
    }

    /// The loop of a left-associative level, folding operands onto `acc`.
    fn parse_binary_rest(&mut self, lvl: u8, acc: Expr) -> (r: Result<Expr, ParseError>)
        requires
            old(self).wf(),
            lvl <= 5,
        ensures
            final(self).wf(),
            final(self).toks() == old(self).toks(),
            old(self).cur() <= final(self).cur(),
            (match spec_binary_rest(old(self).toks(), old(self).cur(), lvl as int, acc@) {
                ParseStep::Done { e, next } => (r matches Ok(x) && x@ == e)
                    && final(self).cur() == next,
                ParseStep::Fail { err } => r matches Err(x) && x@ == err,
            }),
        decreases rem(self.toks(), self.cur()), 10int - lvl,
    {
        let k = self.peek_type();
        if level_op_holds(lvl, k) {
            self.advance();
            let sub = if lvl == 5 {
                self.parse_unary()
            } else {
                self.parse_binary(lvl + 1)
            };
            match sub {
                Ok(e) => self.parse_binary_rest(
                    lvl,
                    Expr::Binary { left: Box::new(acc), operator: k, right: Box::new(e) },
                ),
                Err(err) => Err(err),
            }
        } else {
            Ok(acc)
        }
    }

    /// Prefix operators (`!`, `-`, `+`): right-associative by recursion.
    fn parse_unary(&mut self) -> (r: Result<Expr, ParseError>)
        requires
            old(self).wf(),
        ensures
            final(self).wf(),
            final(self).toks() == old(self).toks(),
            old(self).cur() <= final(self).cur(),
            r is Ok ==> old(self).cur() < final(self).cur(),
            (match spec_unary(old(self).toks(), old(self).cur()) {
                ParseStep::Done { e, next } => (r matches Ok(x) && x@ == e)
                    && final(self).cur() == next,
                ParseStep::Fail { err } => r matches Err(x) && x@ == err,
            }),
        decreases rem(self.toks(), self.cur()), 4int,
    {
        let k = self.peek_type();
        if k == TokenType::Bang || k == TokenType::Minus || k == TokenType::Plus {
            self.advance();
            match self.parse_unary() {
                Ok(e) => Ok(Expr::Unary { operator: k, right: Box::new(e) }),
                Err(err) => Err(err),
            }
        } else {
            self.parse_tensor_op()
        }
    }

    /// Tensor operators: a left-associative loop over primaries, binding
    /// tighter than unary and all arithmetic levels.
    fn parse_tensor_op(&mut self) -> (r: Result<Expr, ParseError>)
        requires
            old(self).wf(),
        ensures
            final(self).wf(),
            final(self).toks() == old(self).toks(),
            old(self).cur() <= final(self).cur(),
            r is Ok ==> old(self).cur() < final(self).cur(),
            (match spec_tensor(old(self).toks(), old(self).cur()) {
                ParseStep::Done { e, next } => (r matches Ok(x) && x@ == e)
                    && final(self).cur() == next,
                ParseStep::Fail { err } => r matches Err(x) && x@ == err,
            }),
        decreases rem(self.toks(), self.cur()), 3int,
    {
        if self.current >= self.tokens.len() {
            return Err(ParseError::UnexpectedToken {
                found: eof_found(),
                message: "Expected expression.".to_owned(),
            });
        }
        match self.parse_primary() {
            Ok(e) => self.parse_tensor_rest(e),
            Err(err) => Err(err),
        }
    }

    /// The loop of the tensor level.
    fn parse_tensor_rest(&mut self, acc: Expr) -> (r: Result<Expr, ParseError>)
        requires
            old(self).wf(),
        ensures
            final(self).wf(),
            final(self).toks() == old(self).toks(),
            old(self).cur() <= final(self).cur(),
            (match spec_tensor_rest(old(self).toks(), old(self).cur(), acc@) {
                ParseStep::Done { e, next } => (r matches Ok(x) && x@ == e)
                    && final(self).cur() == next,
                ParseStep::Fail { err } => r matches Err(x) && x@ == err,
            }),
        decreases rem(self.toks(), self.cur()), 3int,
    {
        let k = self.peek_type();
        if k == TokenType::TensorMul || k == TokenType::TensorDot || k == TokenType::TensorCross {
            self.advance();
            match self.parse_primary() {
                Ok(e) => self.parse_tensor_rest(
                    Expr::TensorOp { left: Box::new(acc), operator: k, right: Box::new(e) },
                ),
                Err(err) => Err(err),
            }
        } else {
            Ok(acc)
        }
    }

    /// Primary expressions: literals, grouping, identifiers and calls,
    /// bracketed literals, and math function calls.
    #[verifier::rlimit(100)]
    fn parse_primary(&mut self) -> (r: Result<Expr, ParseError>)
        requires
            old(self).wf(),
        ensures
            final(self).wf(),
            final(self).toks() == old(self).toks(),
            old(self).cur() <= final(self).cur(),
            r is Ok ==> old(self).cur() < final(self).cur(),
            (match spec_primary(old(self).toks(), old(self).cur()) {
                ParseStep::Done { e, next } => (r matches Ok(x) && x@ == e)
                    && final(self).cur() == next,
                ParseStep::Fail { err } => r matches Err(x) && x@ == err,
            }),
        decreases rem(self.toks(), self.cur()), 2int,
    {
        if self.current >= self.tokens.len() {
            return Err(ParseError::UnexpectedToken {
                found: eof_found(),
                message: "Expected expression.".to_owned(),
            });
        }
        let k = self.peek_type();
        if k == TokenType::Number || k == TokenType::StringLit || k == TokenType::True || k
            == TokenType::False || k == TokenType::Nil {
            let t = self.peek_token();
            self.advance();
            Ok(Expr::Literal(t))
        } else if k == TokenType::LeftParen {
            self.advance();
            match self.parse_expression() {
                Ok(e) => match self.consume(TokenType::RightParen, "Expect ')' after expression.") {
                    Ok(u) => Ok(Expr::Grouping(Box::new(e))),
                    Err(err) => Err(err),
                },
                Err(err) => Err(err),
            }
        } else if k == TokenType::Identifier {
            let t = self.peek_token();
            self.advance();
            if self.check(TokenType::LeftParen) {
                self.advance();
                match self.parse_elements(TokenType::RightParen) {
                    Ok(es) => {
                        let e = Expr::Call { callee: t, arguments: es };
                        proof {
                            assert(e@->Call_arguments =~= spec_primary(
                                old(self).toks(),
                                old(self).cur(),
                            )->Done_e->Call_arguments);
                        }
                        Ok(e)
                    },
                    Err(err) => Err(err),
                }
            } else {
                Ok(Expr::Variable(t))
            }
        } else if k == TokenType::LeftBracket {
            self.advance();
            match self.parse_elements(TokenType::RightBracket) {
                Ok(es) => {
                    let e = Expr::ArrayLiteral { elements: es };
                    proof {
                        assert(e@->ArrayLiteral_elements =~= spec_primary(
                            old(self).toks(),
                            old(self).cur(),
                        )->Done_e->ArrayLiteral_elements);
                    }
                    Ok(e)
                },
                Err(err) => Err(err),
            }
        } else if is_math_fn(k) {
            let t = self.peek_token();
            self.advance();
            if self.check(TokenType::LeftParen) {
                self.advance();
                match self.parse_elements(TokenType::RightParen) {
                    Ok(es) => {
                        let e = Expr::Call { callee: t, arguments: es };
                        proof {
                            assert(e@->Call_arguments =~= spec_primary(
                                old(self).toks(),
                                old(self).cur(),
                            )->Done_e->Call_arguments);
                        }
                        Ok(e)
                    },
                    Err(err) => Err(err),
                }
            } else {
                Err(ParseError::UnexpectedToken {
                    found: self.peek_token(),
                    message: "Expect '(' after function name.".to_owned(),
                })
            }
        } else {
            let t = self.peek_token();
            Err(ParseError::UnexpectedToken { found: t, message: "Expected expression.".to_owned() })
        }
    }

    /// A comma-separated expression list terminated by `closer` (consumed).
    fn parse_elements(&mut self, closer: TokenType) -> (r: Result<Vec<Expr>, ParseError>)
        requires
            old(self).wf(),
            closer == TokenType::RightParen || closer == TokenType::RightBracket,
        ensures
            final(self).wf(),
            final(self).toks() == old(self).toks(),
            old(self).cur() <= final(self).cur(),
            (match spec_elems(old(self).toks(), old(self).cur(), closer) {
                ElemsStep::Done { es, next } => (r matches Ok(v) && exprs_view(v@) == es)
                    && final(self).cur() == next,
                ElemsStep::Fail { err } => r matches Err(x) && x@ == err,
            }),
        decreases rem(self.toks(), self.cur()), 12int,
    {
        if self.current >= self.tokens.len() {
            return Err(ParseError::UnexpectedToken {
                found: eof_found(),
                message: "Expected expression.".to_owned(),
            });
        }
        if self.check(closer) {
            self.advance();
            let empty: Vec<Expr> = Vec::new();
            proof {
                assert(exprs_view(empty@) =~= Seq::<ExprModel>::empty());
            }
            return Ok(empty);
        }
        match self.parse_expression() {
            Ok(e) => {
                let mut elems: Vec<Expr> = Vec::new();
                let ghost e_model = e@;
                elems.push(e);
                proof {
                    assert(exprs_view(elems@) =~= seq![e_model]);
                }
                self.parse_elements_rest(elems, closer)
            },
            Err(err) => Err(err),
        }
    }

    /// The loop of an element list: a comma continues it, the closer ends it.
    fn parse_elements_rest(&mut self, acc: Vec<Expr>, closer: TokenType) -> (r: Result<
        Vec<Expr>,
        ParseError,
    >)
        requires
            old(self).wf(),
            closer == TokenType::RightParen || closer == TokenType::RightBracket,
        ensures
            final(self).wf(),
            final(self).toks() == old(self).toks(),
            old(self).cur() <= final(self).cur(),
            (match spec_elems_rest(old(self).toks(), old(self).cur(), exprs_view(acc@), closer) {
                ElemsStep::Done { es, next } => (r matches Ok(v) && exprs_view(v@) == es)
                    && final(self).cur() == next,
                ElemsStep::Fail { err } => r matches Err(x) && x@ == err,
            }),
        decreases rem(self.toks(), self.cur()), 12int,
    {
        let k = self.peek_type();
        if k == TokenType::Comma {
            self.advance();
            match self.parse_expression() {
                Ok(e) => {
                    let mut elems = acc;
                    let ghost e_model = e@;
                    let ghost old_models = exprs_view(elems@);
                    elems.push(e);
                    proof {
                        assert(exprs_view(elems@) =~= old_models.push(e_model));
                    }
                    self.parse_elements_rest(elems, closer)
                },
                Err(err) => Err(err),
            }
        } else if self.check(closer) {
            self.advance();
            Ok(acc)
        } else {
            let msg = if closer == TokenType::RightParen {
                "Expect ')' after arguments."
            } else {
                "Expect ']' after elements."
            };
            Err(ParseError::UnexpectedToken { found: self.peek_token(), message: msg.to_owned() })
        }
    }
}

} // verus!
