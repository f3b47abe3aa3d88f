//! The abstract syntax tree produced by the parser, its mathematical model,
//! and the visitor protocol through which consumers process it.

use vstd::prelude::*;

use crate::scanner::{Token, TokenModel, TokenType};

verus! {

/// Mathematical model of an [`Expr`]: the same tree over token models and
/// sequences.
pub ghost enum ExprModel {
    Literal(TokenModel),
    Grouping(Box<ExprModel>),
    Unary { operator: TokenType, right: Box<ExprModel> },
    Binary { left: Box<ExprModel>, operator: TokenType, right: Box<ExprModel> },
    TensorOp { left: Box<ExprModel>, operator: TokenType, right: Box<ExprModel> },
    Variable(TokenModel),
    Call { callee: TokenModel, arguments: Seq<ExprModel> },
    ArrayLiteral { elements: Seq<ExprModel> },
}

/// One expression node. Every child is owned by exactly one parent, so a
/// value of this type is always a finite tree.
#[derive(Debug, PartialEq)]
pub enum Expr {
    /// A scalar literal (number, string, `true`, `false`, `nil`).
    Literal(Token),
    /// A parenthesized sub-expression, kept for faithful re-rendering.
    Grouping(Box<Expr>),
    /// A prefix operator applied to an operand.
    Unary { operator: TokenType, right: Box<Expr> },
    /// A logical, equality, comparison or arithmetic infix operation.
    Binary { left: Box<Expr>, operator: TokenType, right: Box<Expr> },
    /// A tensor infix operation, distinct from `Binary` because downstream
    /// evaluation must type-check its operands as tensor-shaped values.
    TensorOp { left: Box<Expr>, operator: TokenType, right: Box<Expr> },
    /// An identifier reference.
    Variable(Token),
    /// A function invocation, including the built-in math functions.
    Call { callee: Token, arguments: Vec<Expr> },
    /// A bracketed literal used for vector/matrix/tensor construction.
    ArrayLiteral { elements: Vec<Expr> },
}

broadcast use vstd::std_specs::vec::group_vec_axioms;

impl Expr {
    /// The mathematical model of this tree.
    pub open spec fn model(self) -> ExprModel
        decreases self,
        via Expr::model_decreases
    {
        match self {
            Expr::Literal(t) => ExprModel::Literal(t@),
            Expr::Grouping(e) => ExprModel::Grouping(Box::new((*e).model())),
            Expr::Unary { operator, right } => (ExprModel::Unary {
                operator,
                right: Box::new((*right).model()),
            }),
            Expr::Binary { left, operator, right } => (ExprModel::Binary {
                left: Box::new((*left).model()),
                operator,
                right: Box::new((*right).model()),
            }),
            Expr::TensorOp { left, operator, right } => (ExprModel::TensorOp {
                left: Box::new((*left).model()),
                operator,
                right: Box::new((*right).model()),
            }),
            Expr::Variable(t) => ExprModel::Variable(t@),
            Expr::Call { callee, arguments } => (ExprModel::Call {
                callee: callee@,
                arguments: Seq::new(
                    arguments.len() as nat,
                    |i: int|
                        if 0 <= i < arguments.len() {
                            arguments[i].model()
                        } else {
                            ExprModel::ArrayLiteral { elements: Seq::empty() }
                        },
                ),
            }),
            Expr::ArrayLiteral { elements } => (ExprModel::ArrayLiteral {
                elements: Seq::new(
                    elements.len() as nat,
                    |i: int|
                        if 0 <= i < elements.len() {
                            elements[i].model()
                        } else {
                            ExprModel::ArrayLiteral { elements: Seq::empty() }
                        },
                ),
            }),
        }
    }

    #[via_fn]
    proof fn model_decreases(self) {
        match self {
            Expr::Call { callee, arguments } => {
                assert forall|i: int| 0 <= i < arguments.len() implies decreases_to!(self
                    => arguments[i]) by {
                    assert(decreases_to!(self => arguments));
                    assert(decreases_to!(arguments => arguments[i]));
                }
            },
            Expr::ArrayLiteral { elements } => {
                assert forall|i: int| 0 <= i < elements.len() implies decreases_to!(self
                    => elements[i]) by {
                    assert(decreases_to!(self => elements));
                    assert(decreases_to!(elements => elements[i]));
                }
            },
            _ => {},
        }
    }
}

impl View for Expr {
    type V = ExprModel;

    open spec fn view(&self) -> ExprModel {
        self.model()
    }
}

/// A processor of the AST: one handler per node shape. Dispatch over a tree
/// is total because [`ExprAccept::accept`] matches every variant exactly
/// once, and visitors take the tree by shared reference, so no visitor can
/// mutate the tree it is visiting.
pub trait ExprVisitor<T> {
    fn visit_literal(&self, token: &Token) -> T;

    fn visit_grouping(&self, inner: &Expr) -> T;

    fn visit_unary(&self, operator: TokenType, right: &Expr) -> T;

    fn visit_binary(&self, left: &Expr, operator: TokenType, right: &Expr) -> T;

    fn visit_tensor_op(&self, left: &Expr, operator: TokenType, right: &Expr) -> T;

    fn visit_variable(&self, token: &Token) -> T;

    fn visit_call(&self, callee: &Token, arguments: &Vec<Expr>) -> T;

    fn visit_array_literal(&self, elements: &Vec<Expr>) -> T;
}

/// Double dispatch: a node hands itself to the matching handler of a visitor.
pub trait ExprAccept<T> {
    fn accept<V: ExprVisitor<T>>(&self, visitor: &V) -> T;
}

impl<T> ExprAccept<T> for Expr {
    /// Invokes exactly one handler, chosen by this node's own kind.
    fn accept<V: ExprVisitor<T>>(&self, visitor: &V) -> T {
        match self {
            Expr::Literal(t) => visitor.visit_literal(t),
            Expr::Grouping(e) => visitor.visit_grouping(e),
            Expr::Unary { operator, right } => visitor.visit_unary(*operator, right),
            Expr::Binary { left, operator, right } => visitor.visit_binary(left, *operator, right),
            Expr::TensorOp { left, operator, right } => visitor.visit_tensor_op(
                left,
                *operator,
                right,
            ),
            Expr::Variable(t) => visitor.visit_variable(t),
            Expr::Call { callee, arguments } => visitor.visit_call(callee, arguments),
            Expr::ArrayLiteral { elements } => visitor.visit_array_literal(elements),
        }
    }
}

} // verus!
