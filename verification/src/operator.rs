//! The operators of value expressions.
use vstd::prelude::*;

verus! {

/// A binary or unary operator.
#[derive(Clone, Copy, Debug, PartialEq, Eq, Structural)]
pub enum Operator {
    And,
    Or,
    Equal,
    NotEqual,
    Greater,
    GreaterEqual,
    Lesser,
    LesserEqual,
    Plus,
    Minus,
    Multiply,
    Divide,
    Modulo,
    Not,
}

/// The operator as it is written in source text.
pub open spec fn operator_token(op: Operator) -> &'static str {
    match op {
        Operator::And => "and",
        Operator::Or => "or",
        Operator::Equal => "==",
        Operator::NotEqual => "!=",
        Operator::Greater => ">",
        Operator::GreaterEqual => ">=",
        Operator::Lesser => "<",
        Operator::LesserEqual => "<=",
        Operator::Plus => "+",
        Operator::Minus => "-",
        Operator::Multiply => "*",
        Operator::Divide => "/",
        Operator::Modulo => "%",
        Operator::Not => "not",
    }
}

impl Operator {
    /// The operator as it is written in source text.
    pub fn token(&self) -> (s: &'static str)
        ensures
            s == operator_token(*self),
    {
        match self {
            Operator::And => "and",
            Operator::Or => "or",
            Operator::Equal => "==",
            Operator::NotEqual => "!=",
            Operator::Greater => ">",
            Operator::GreaterEqual => ">=",
            Operator::Lesser => "<",
            Operator::LesserEqual => "<=",
            Operator::Plus => "+",
            Operator::Minus => "-",
            Operator::Multiply => "*",
            Operator::Divide => "/",
            Operator::Modulo => "%",
            Operator::Not => "not",
        }
    }

    /// Whether the operator is written as a word, which needs a space after
    /// it.
    pub fn is_word(&self) -> (b: bool)
        ensures
            b == (*self == Operator::And || *self == Operator::Or || *self == Operator::Not),
    {
        match self {
            Operator::And | Operator::Or | Operator::Not => true,
            _ => false,
        }
    }
}

} // verus!
