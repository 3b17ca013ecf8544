pub mod decimal;
pub mod error;
pub mod execute;
pub mod grammar;
pub mod op;
pub mod parse;
pub mod rpn;
pub mod text;
pub mod token;
pub mod vars;

pub use decimal::Dec;
pub use error::Error;
pub use execute::evaluate_rpn;
pub use parse::parse_str;
pub use rpn::shunting_yard;
pub use vars::Variables;

use execute::{result_value, value_of_postfix, Value};
use parse::tokens_of;
use rpn::postfix_of;
use vstd::prelude::*;

verus! {

/// The value of an expression: its tokens, in postfix order, evaluated; or
/// the first error on the way.
pub open spec fn value_of_expression(s: Seq<char>, variables: Option<&Variables>) -> Result<
    Value,
    Error,
> {
    match tokens_of(s, variables) {
        Err(e) => Err(e),
        Ok(infix) => match postfix_of(infix) {
            Err(e) => Err(e),
            Ok(postfix) => value_of_postfix(postfix),
        },
    }
}

/// Evaluates an expression: tokenizes it, converts it to postfix order and
/// evaluates that, stopping at the first error.
pub fn compute(s: &str, variables: Option<&Variables>) -> (r: Result<Dec, Error>)
    ensures
        result_value(r) == value_of_expression(s@, variables),
{
    let tokens = parse_str(s, variables)?;
    let postfix = shunting_yard(tokens)?;
    evaluate_rpn(postfix)
}

} // verus!
