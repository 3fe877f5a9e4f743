use vstd::prelude::*;
use crate::kind::{Kind, Tag};
use crate::value::{Datum, Value};

verus! {

/// A runtime failure raised while evaluating a function.
#[derive(Clone, Copy, Debug, PartialEq, Eq, Structural)]
pub enum ExpressionError {
    /// The argument had a shape the function does not accept.
    UnexpectedType { got: Kind, expected: Kind },
}

/// A failure to bind a call's arguments to the function's parameters.
#[derive(Debug)]
pub enum CompileError {
    /// A required parameter was given no argument.
    MissingArgument { function: String, keyword: String },
    /// An argument names no parameter of the function.
    UnknownKeyword { function: String, keyword: String },
    /// An argument's static kind shares no shape with its parameter's kind.
    KindMismatch { function: String, keyword: String, got: Kind, expected: Kind },
}

/// What an evaluation yields, in mathematical terms.
pub enum Outcome {
    Value(Datum),
    UnexpectedType { got: Set<Tag>, expected: Set<Tag> },
}

/// The outcome that an executable result stands for.
pub open spec fn outcome(r: Result<Value, ExpressionError>) -> Outcome {
    match r {
        Ok(v) => Outcome::Value(v@),
        Err(ExpressionError::UnexpectedType { got, expected }) => Outcome::UnexpectedType {
            got: got@,
            expected: expected@,
        },
    }
}

} // verus!
