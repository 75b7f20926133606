//! The shape of a C expression tree.
use vstd::prelude::*;

verus! {

/// An operator with two operands.
#[derive(Debug)]
pub enum BinaryOperator {
    Plus,
    Minus,
    Multiply,
    Divide,
    Modulo,
    BitwiseAnd,
    BitwiseOr,
    BitwiseXor,
    LeftShift,
    RightShift,
    Equal,
    NotEqual,
    GreaterThan,
    LessThan,
    GreaterThanOrEqual,
    LessThanOrEqual,
    LogicalAnd,
    LogicalOr,
}

/// An operator with one operand.
#[derive(Debug)]
pub enum UnaryOperator {
    Minus,
    BitwiseNot,
    LogicalNot,
    PreIncrement,
    PreDecrement,
    PostIncrement,
    PostDecrement,
}

/// An expression: an operator applied to subexpressions, or a literal.
#[derive(Debug)]
pub enum ExpressionTree {
    BinaryOp { operator: BinaryOperator, left: Box<ExpressionTree>, right: Box<ExpressionTree> },
    UnaryOp { operator: UnaryOperator, right: Box<ExpressionTree> },
    Literal { value: String },
}

} // verus!
