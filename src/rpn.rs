use crate::error::Error;
use crate::op::{BinOp, Operator};
use crate::token::Token;
use vstd::prelude::*;

verus! {

/// Whether `op2`, on top of the stack, leaves before `op1` is pushed: it binds
/// tighter, or as tight and `op1` groups to the left.
pub open spec fn yields_to(op1: Operator, op2: Operator) -> bool {
    op1.precedence < op2.precedence || (op1.precedence == op2.precedence && op1.op != BinOp::Pow)
}

/// Moves to the output what must be applied before operator `op1`: operators
/// that bind tighter (see `yields_to`) and functions, up to the nearest `(`.
pub open spec fn unwind_for(op1: Operator, out: Seq<Token>, stack: Seq<Token>) -> Result<
    (Seq<Token>, Seq<Token>),
    Error,
>
    decreases stack.len(),
{
    if stack.len() == 0 {
        Ok((out, stack))
    } else {
        let top = stack.last();
        match top {
            Token::ParLeft => Ok((out, stack)),
            Token::Operator(op2) => if yields_to(op1, op2) {
                unwind_for(op1, out.push(top), stack.drop_last())
            } else {
                Ok((out, stack))
            },
            Token::Function(_) => unwind_for(op1, out.push(top), stack.drop_last()),
            _ => Err(Error::InvalidToken),
        }
    }
}

/// Moves to the output everything above the nearest `(`, and drops the `(`.
pub open spec fn unwind_to_paren(out: Seq<Token>, stack: Seq<Token>) -> Result<
    (Seq<Token>, Seq<Token>),
    Error,
>
    decreases stack.len(),
{
    if stack.len() == 0 {
        Err(Error::UnbalancedParens)
    } else if stack.last() is ParLeft {
        Ok((out, stack.drop_last()))
    } else {
        unwind_to_paren(out.push(stack.last()), stack.drop_last())
    }
}

/// Moves the whole stack to the output, top first; a `(` left on it is unbalanced.
pub open spec fn unwind_all(out: Seq<Token>, stack: Seq<Token>) -> Result<Seq<Token>, Error>
    decreases stack.len(),
{
    if stack.len() == 0 {
        Ok(out)
    } else if stack.last() is ParLeft {
        Err(Error::UnbalancedParens)
    } else {
        unwind_all(out.push(stack.last()), stack.drop_last())
    }
}

/// One token of the shunting-yard algorithm, on the output and the stack.
pub open spec fn shunt_step(tok: Token, out: Seq<Token>, stack: Seq<Token>) -> Result<
    (Seq<Token>, Seq<Token>),
    Error,
> {
    match tok {
        Token::Number(_) => Ok((out.push(tok), stack)),
        Token::Function(_) => Ok((out, stack.push(tok))),
        Token::ParLeft => Ok((out, stack.push(tok))),
        Token::Operator(op1) => match unwind_for(op1, out, stack) {
            Ok((o, s)) => Ok((o, s.push(tok))),
            Err(e) => Err(e),
        },
        Token::ParRight => unwind_to_paren(out, stack),
        Token::Comma => Ok((out, stack)),
    }
}

/// The shunting-yard algorithm on the rest of the input, from a given output and stack.
pub open spec fn shunt(tokens: Seq<Token>, out: Seq<Token>, stack: Seq<Token>) -> Result<
    Seq<Token>,
    Error,
>
    decreases tokens.len(),
{
    if tokens.len() == 0 {
        unwind_all(out, stack)
    } else {
        match shunt_step(tokens[0], out, stack) {
            Ok((o, s)) => shunt(tokens.drop_first(), o, s),
            Err(e) => Err(e),
        }
    }
}

/// The postfix order of an infix token sequence, or why there is none.
pub open spec fn postfix_of(tokens: Seq<Token>) -> Result<Seq<Token>, Error> {
    shunt(tokens, seq![], seq![])
}

/// Converts infix tokens to postfix (reverse Polish) order with the
/// shunting-yard algorithm. Numbers keep their order; each operator comes
/// after its operands, `^` grouping to the right and the others to the left;
/// a function comes after its parenthesised arguments; parentheses and
/// commas are dropped.
pub fn shunting_yard(tokens: Vec<Token>) -> (r: Result<Vec<Token>, Error>)
    ensures
        match r {
            Ok(v) => postfix_of(tokens@) == Ok::<Seq<Token>, Error>(v@),
            Err(e) => postfix_of(tokens@) == Err::<Seq<Token>, Error>(e),
        },
{
    let mut output: Vec<Token> = Vec::new();
    let mut stack: Vec<Token> = Vec::new();
    let n = tokens.len();
    let mut i: usize = 0;
    assert(tokens@.subrange(0, n as int) == tokens@);
    assert(output@ == Seq::<Token>::empty() && stack@ == Seq::<Token>::empty());
    while i < n
        invariant
            n == tokens@.len(),
            0 <= i <= n,
            postfix_of(tokens@) == shunt(tokens@.subrange(i as int, n as int), output@, stack@),
        decreases n - i,
    {
        let token = tokens[i];
        proof {
            let rest = tokens@.subrange(i as int, n as int);
            assert(rest[0] == token);
            assert(rest.drop_first() == tokens@.subrange(i + 1, n as int));
        }
        match token {
            Token::Number(_) => {
                output.push(token);
            },
            Token::Function(_) => {
                stack.push(token);
            },
            Token::ParLeft => {
                stack.push(token);
            },
            Token::Operator(op1) => {
                match unwind_operators(op1, &mut output, &mut stack) {
                    Ok(()) => {},
                    Err(e) => {
                        return Err(e);
                    },
                }
                stack.push(token);
            },
            Token::ParRight => {
                match unwind_parenthesis(&mut output, &mut stack) {
                    Ok(()) => {},
                    Err(e) => {
                        return Err(e);
                    },
                }
            },
            Token::Comma => {},
        }
        i += 1;
    }
    while stack.len() > 0
        invariant
            postfix_of(tokens@) == unwind_all(output@, stack@),
        decreases stack.len(),
    {
        let top = stack.pop().unwrap();
        if let Token::ParLeft = top {
            return Err(Error::UnbalancedParens);
        }
        output.push(top);
    }
    Ok(output)
}

/// Pops to `output` what has to be applied before `op1` (see `unwind_for`).
fn unwind_operators(op1: Operator, output: &mut Vec<Token>, stack: &mut Vec<Token>) -> (r: Result<
    (),
    Error,
>)
    ensures
        match unwind_for(op1, old(output)@, old(stack)@) {
            Ok((o, s)) => r is Ok && final(output)@ == o && final(stack)@ == s,
            Err(e) => r == Err::<(), Error>(e),
        },
{
    while stack.len() > 0
        invariant
            unwind_for(op1, old(output)@, old(stack)@) == unwind_for(op1, output@, stack@),
        decreases stack.len(),
    {
        let top = stack[stack.len() - 1];
        match top {
            Token::ParLeft => {
                return Ok(());
            },
            Token::Operator(op2) => {
                if op1.precedence < op2.precedence || (op1.precedence == op2.precedence
                    && op1.op != BinOp::Pow) {
                    stack.pop();
                    output.push(top);
                } else {
                    return Ok(());
                }
            },
            Token::Function(_) => {
                stack.pop();
                output.push(top);
            },
            _ => {
                return Err(Error::InvalidToken);
            },
        }
    }
    Ok(())
}

/// Pops to `output` everything above the nearest `(`, which it drops.
fn unwind_parenthesis(output: &mut Vec<Token>, stack: &mut Vec<Token>) -> (r: Result<(), Error>)
    ensures
        match unwind_to_paren(old(output)@, old(stack)@) {
            Ok((o, s)) => r is Ok && final(output)@ == o && final(stack)@ == s,
            Err(e) => r == Err::<(), Error>(e),
        },
{
    while stack.len() > 0
        invariant
            unwind_to_paren(old(output)@, old(stack)@) == unwind_to_paren(output@, stack@),
        decreases stack.len(),
    {
        let top = stack.pop().unwrap();
        if let Token::ParLeft = top {
            return Ok(());
        }
        output.push(top);
    }
    Err(Error::UnbalancedParens)
}

} // verus!
