use crate::decimal::{
    decimal_cosine, decimal_difference, decimal_power, decimal_product, decimal_quotient,
    decimal_sine, decimal_sum, decimal_tangent, less_value, Dec,
};
use crate::error::Error;
use crate::op::BinOp;
use crate::token::{BinaryFn, Function, Token, UnaryFn};
use vstd::prelude::*;

verus! {

/// A value of the stack machine: a decimal's (mantissa, scale).
pub type Value = (int, nat);

/// An arithmetic result that the decimal type could not hold is an overflow.
pub open spec fn checked(o: Option<Value>) -> Result<Value, Error> {
    match o {
        Some(v) => Ok(v),
        None => Err(Error::Overflow),
    }
}

/// `left op right`, where `right` is the operand pushed last.
pub open spec fn operate(op: BinOp, left: Value, right: Value) -> Result<Value, Error> {
    match op {
        BinOp::Add => checked(decimal_sum(left, right)),
        BinOp::Sub => checked(decimal_difference(left, right)),
        BinOp::Mul => checked(decimal_product(right, left)),
        BinOp::Div => if right.0 == 0 {
            Err(Error::DivisionByZero)
        } else {
            checked(decimal_quotient(left, right))
        },
        BinOp::Pow => checked(decimal_power(left, right)),
    }
}

/// A one-argument function on `x`.
pub open spec fn apply_unary(f: UnaryFn, x: Value) -> Result<Value, Error> {
    match f {
        UnaryFn::Sin => checked(decimal_sine(x)),
        UnaryFn::Cos => checked(decimal_cosine(x)),
        UnaryFn::Tan => checked(decimal_tangent(x)),
        UnaryFn::Ctan => match (decimal_cosine(x), decimal_sine(x)) {
            (Some(c), Some(s)) => if s.0 == 0 {
                Err(Error::DivisionByZero)
            } else {
                checked(decimal_quotient(c, s))
            },
            _ => Err(Error::Overflow),
        },
    }
}

/// A two-argument function on the last-pushed operand `first` and the one below, `second`.
pub open spec fn apply_binary(f: BinaryFn, first: Value, second: Value) -> Value {
    match f {
        BinaryFn::Max => if less_value(first, second) {
            second
        } else {
            first
        },
        BinaryFn::Min => if less_value(second, first) {
            second
        } else {
            first
        },
    }
}

/// Replaces the top `k` entries of `stack` by `v`, or passes the error on.
pub open spec fn replace_top(stack: Seq<Value>, k: int, v: Result<Value, Error>) -> Result<
    Seq<Value>,
    Error,
> {
    match v {
        Ok(x) => Ok(stack.subrange(0, stack.len() - k).push(x)),
        Err(e) => Err(e),
    }
}

/// One token of postfix evaluation on the value stack.
pub open spec fn eval_step(tok: Token, stack: Seq<Value>) -> Result<Seq<Value>, Error> {
    let n = stack.len();
    match tok {
        Token::Number(d) => Ok(stack.push(d@)),
        Token::Operator(o) => if n < 2 {
            Err(Error::NotEnoughArgs)
        } else {
            replace_top(stack, 2, operate(o.op, stack[n - 2], stack[n - 1]))
        },
        Token::Function(Function::OneParam(f)) => if n < 1 {
            Err(Error::NotEnoughArgs)
        } else {
            replace_top(stack, 1, apply_unary(f, stack[n - 1]))
        },
        Token::Function(Function::TwoParam(f)) => if n < 2 {
            Err(Error::NotEnoughArgs)
        } else {
            replace_top(stack, 2, Ok(apply_binary(f, stack[n - 1], stack[n - 2])))
        },
        _ => Err(Error::UnexpectedToken),
    }
}

/// The value stack after the rest of the tokens, from a given stack.
pub open spec fn eval_from(tokens: Seq<Token>, stack: Seq<Value>) -> Result<Seq<Value>, Error>
    decreases tokens.len(),
{
    if tokens.len() == 0 {
        Ok(stack)
    } else {
        match eval_step(tokens[0], stack) {
            Ok(s) => eval_from(tokens.drop_first(), s),
            Err(e) => Err(e),
        }
    }
}

/// The value of a postfix expression: the one value left on the stack.
pub open spec fn value_of_postfix(tokens: Seq<Token>) -> Result<Value, Error> {
    match eval_from(tokens, seq![]) {
        Ok(s) => if s.len() == 1 {
            Ok(s[0])
        } else {
            Err(Error::UnfinishedExpr)
        },
        Err(e) => Err(e),
    }
}

/// The values of a stack of decimals.
pub open spec fn values(s: Seq<Dec>) -> Seq<Value> {
    s.map_values(|d: Dec| d@)
}

/// A decimal result by its value.
pub open spec fn result_value(r: Result<Dec, Error>) -> Result<Value, Error> {
    match r {
        Ok(d) => Ok(d@),
        Err(e) => Err(e),
    }
}

fn lift(o: Option<Dec>) -> (r: Result<Dec, Error>)
    ensures
        match o {
            Some(d) => r == Ok::<Dec, Error>(d),
            None => r == Err::<Dec, Error>(Error::Overflow),
        },
{
    match o {
        Some(d) => Ok(d),
        None => Err(Error::Overflow),
    }
}

/// `left op right` on decimals.
pub fn operate_on(op: BinOp, left: &Dec, right: &Dec) -> (r: Result<Dec, Error>)
    ensures
        result_value(r) == operate(op, left@, right@),
{
    match op {
        BinOp::Add => lift(left.checked_add(right)),
        BinOp::Sub => lift(left.checked_sub(right)),
        BinOp::Mul => lift(right.checked_mul(left)),
        BinOp::Div => if right.is_zero() {
            Err(Error::DivisionByZero)
        } else {
            lift(left.checked_div(right))
        },
        BinOp::Pow => lift(left.checked_powd(right)),
    }
}

/// A one-argument function on a decimal.
pub fn apply_unary_on(f: UnaryFn, x: &Dec) -> (r: Result<Dec, Error>)
    ensures
        result_value(r) == apply_unary(f, x@),
{
    match f {
        UnaryFn::Sin => lift(x.checked_sin()),
        UnaryFn::Cos => lift(x.checked_cos()),
        UnaryFn::Tan => lift(x.checked_tan()),
        UnaryFn::Ctan => {
            let c = x.checked_cos();
            let s = x.checked_sin();
            match (c, s) {
                (Some(c), Some(s)) => if s.is_zero() {
                    Err(Error::DivisionByZero)
                } else {
                    lift(c.checked_div(&s))
                },
                _ => Err(Error::Overflow),
            }
        },
    }
}

/// A two-argument function on the last-pushed operand `first` and the one below, `second`.
pub fn apply_binary_on(f: BinaryFn, first: &Dec, second: &Dec) -> (r: Dec)
    ensures
        r@ == apply_binary(f, first@, second@),
{
    match f {
        BinaryFn::Max => first.max(second),
        BinaryFn::Min => first.min(second),
    }
}

/// Evaluates a postfix token sequence on a value stack: numbers are pushed;
/// an operator or function pops its operands and pushes its result. Exactly
/// one value must be left at the end.
pub fn evaluate_rpn(queue: Vec<Token>) -> (r: Result<Dec, Error>)
    ensures
        result_value(r) == value_of_postfix(queue@),
{
    let mut stack: Vec<Dec> = Vec::new();
    let n = queue.len();
    let mut i: usize = 0;
    assert(queue@.subrange(0, n as int) == queue@);
    assert(values(stack@) == Seq::<Value>::empty());
    while i < n
        invariant
            n == queue@.len(),
            0 <= i <= n,
            eval_from(queue@, seq![]) == eval_from(queue@.subrange(i as int, n as int), values(stack@)),
        decreases n - i,
    {
        let token = queue[i];
        let ghost before = values(stack@);
        proof {
            let rest = queue@.subrange(i as int, n as int);
            assert(rest[0] == token);
            assert(rest.drop_first() == queue@.subrange(i + 1, n as int));
        }
        let len = stack.len();
        match token {
            Token::Number(d) => {
                stack.push(d);
                assert(values(stack@) == before.push(d@));
            },
            Token::Operator(o) => {
                if len < 2 {
                    return Err(Error::NotEnoughArgs);
                }
                let first = stack.pop().unwrap();
                let second = stack.pop().unwrap();
                assert(values(stack@) == before.subrange(0, len - 2));
                match operate_on(o.op, &second, &first) {
                    Ok(v) => {
                        stack.push(v);
                        assert(values(stack@) == before.subrange(0, len - 2).push(v@));
                    },
                    Err(e) => {
                        return Err(e);
                    },
                }
            },
            Token::Function(Function::OneParam(f)) => {
                if len < 1 {
                    return Err(Error::NotEnoughArgs);
                }
                let arg = stack.pop().unwrap();
                assert(values(stack@) == before.subrange(0, len - 1));
                match apply_unary_on(f, &arg) {
                    Ok(v) => {
                        stack.push(v);
                        assert(values(stack@) == before.subrange(0, len - 1).push(v@));
                    },
                    Err(e) => {
                        return Err(e);
                    },
                }
            },
            Token::Function(Function::TwoParam(f)) => {
                if len < 2 {
                    return Err(Error::NotEnoughArgs);
                }
                let first = stack.pop().unwrap();
                let second = stack.pop().unwrap();
                assert(values(stack@) == before.subrange(0, len - 2));
                let v = apply_binary_on(f, &first, &second);
                stack.push(v);
                assert(values(stack@) == before.subrange(0, len - 2).push(v@));
            },
            _ => {
                return Err(Error::UnexpectedToken);
            },
        }
        i += 1;
    }
    assert(queue@.subrange(n as int, n as int).len() == 0);
    if stack.len() != 1 {
        return Err(Error::UnfinishedExpr);
    }
    Ok(stack.pop().unwrap())
}

} // verus!
