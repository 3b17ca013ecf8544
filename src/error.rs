use vstd::prelude::*;

verus! {

/// What can go wrong while reading, reordering or evaluating an expression.
#[derive(Clone, Copy, Debug, PartialEq, Eq, Structural)]
pub enum Error {
    /// A symbol that no rule knows.
    UnknownToken,
    /// A name that is no constant, function or variable, or a token where
    /// an operator or function was expected.
    InvalidToken,
    /// A `)` without its `(`, or a `(` without its `)`.
    UnbalancedParens,
    /// The expression does not come down to exactly one value.
    UnfinishedExpr,
    /// A numeral that cannot be read.
    NumberParseError,
    /// An operator or function without enough operands.
    NotEnoughArgs,
    /// A token that has no place in postfix order.
    UnexpectedToken,
    /// Division by zero.
    DivisionByZero,
    /// A result outside the range of the decimal type.
    Overflow,
}

/// The human-readable text of each error.
pub open spec fn message_of(e: Error) -> Seq<char> {
    match e {
        Error::UnknownToken => "Unknown token"@,
        Error::InvalidToken => "Invalid token"@,
        Error::UnbalancedParens => "Unbalanced parentheses"@,
        Error::UnfinishedExpr => "Unfinished expression"@,
        Error::NumberParseError => "Number parse error"@,
        Error::NotEnoughArgs => "Not enough arguments"@,
        Error::UnexpectedToken => "Unexpected token"@,
        Error::DivisionByZero => "Division by zero"@,
        Error::Overflow => "Overflow"@,
    }
}

impl Error {
    /// The text shown for this error.
    pub fn message(&self) -> (r: &'static str)
        ensures
            r@ == message_of(*self),
    {
        match self {
            Error::UnknownToken => "Unknown token",
            Error::InvalidToken => "Invalid token",
            Error::UnbalancedParens => "Unbalanced parentheses",
            Error::UnfinishedExpr => "Unfinished expression",
            Error::NumberParseError => "Number parse error",
            Error::NotEnoughArgs => "Not enough arguments",
            Error::UnexpectedToken => "Unexpected token",
            Error::DivisionByZero => "Division by zero",
            Error::Overflow => "Overflow",
        }
    }
}

} // verus!
