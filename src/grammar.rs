use crate::decimal::Dec;
use crate::error::Error;
use crate::execute::{eval_from, operate, value_of_postfix, Value};
use crate::op::{precedence_of, BinOp, Operator};
use crate::rpn::{postfix_of, shunt, unwind_all, unwind_for, unwind_to_paren, yields_to};
use crate::parse::tokens_of;
use crate::token::Token;
use crate::value_of_expression;
use crate::vars::Variables;
use vstd::prelude::*;

verus! {

/// An arithmetic expression as a tree: a number, a parenthesised group, or a
/// binary operation on two subexpressions.
pub enum Expr {
    Num(Dec),
    Group(Box<Expr>),
    Bin(BinOp, Box<Expr>, Box<Expr>),
}

/// The operator of an operation, with its usual precedence.
pub open spec fn operator_of(op: BinOp) -> Operator {
    Operator { op, precedence: precedence_of(op) }
}

pub open spec fn op_token(op: BinOp) -> Token {
    Token::Operator(operator_of(op))
}

/// The tokens of an expression, written in infix order.
pub open spec fn infix(e: Expr) -> Seq<Token>
    decreases e,
{
    match e {
        Expr::Num(d) => seq![Token::Number(d)],
        Expr::Group(x) => seq![Token::ParLeft] + infix(*x) + seq![Token::ParRight],
        Expr::Bin(op, l, r) => infix(*l) + seq![op_token(op)] + infix(*r),
    }
}

/// The tokens of an expression in postfix order: operands, then the operator.
pub open spec fn postfix(e: Expr) -> Seq<Token>
    decreases e,
{
    match e {
        Expr::Num(d) => seq![Token::Number(d)],
        Expr::Group(x) => postfix(*x),
        Expr::Bin(op, l, r) => postfix(*l) + postfix(*r) + seq![op_token(op)],
    }
}

/// The value of an expression: each operation applied to the values of its
/// operands, left operand first; the first error on the way otherwise.
pub open spec fn eval(e: Expr) -> Result<Value, Error>
    decreases e,
{
    match e {
        Expr::Num(d) => Ok(d@),
        Expr::Group(x) => eval(*x),
        Expr::Bin(op, l, r) => match eval(*l) {
            Err(x) => Err(x),
            Ok(a) => match eval(*r) {
                Err(x) => Err(x),
                Ok(b) => operate(op, a, b),
            },
        },
    }
}

/// Whether every operation of `e` outside parentheses binds tighter than
/// `op`, so that `e` can stand unparenthesised as its left operand.
pub open spec fn fits_left_of(op: BinOp, e: Expr) -> bool
    decreases e,
{
    match e {
        Expr::Bin(o, l, r) => yields_to(operator_of(op), operator_of(o)) && fits_left_of(op, *l)
            && fits_left_of(op, *r),
        _ => true,
    }
}

/// Whether every operation of `e` outside parentheses binds tighter than
/// `op` when to its right, so that `e` can stand unparenthesised as its right operand.
pub open spec fn fits_right_of(op: BinOp, e: Expr) -> bool
    decreases e,
{
    match e {
        Expr::Bin(o, l, r) => !yields_to(operator_of(o), operator_of(op)) && fits_right_of(op, *l)
            && fits_right_of(op, *r),
        _ => true,
    }
}

/// Whether the tree is the one that precedence and associativity read from
/// its infix form: no operand needs parentheses that it lacks.
pub open spec fn well_formed(e: Expr) -> bool
    decreases e,
{
    match e {
        Expr::Num(_) => true,
        Expr::Group(x) => well_formed(*x),
        Expr::Bin(op, l, r) => well_formed(*l) && well_formed(*r) && fits_left_of(op, *l)
            && fits_right_of(op, *r),
    }
}

/// Whether the stack's top keeps operator `o` from popping below it.
pub open spec fn holds_back(stack: Seq<Token>, o: Operator) -> bool {
    stack.len() == 0 || stack.last() is ParLeft || (stack.last() matches Token::Operator(o2)
        && !yields_to(o, o2))
}

pub open spec fn holds_back_all(stack: Seq<Token>, e: Expr) -> bool
    decreases e,
{
    match e {
        Expr::Bin(o, l, r) => holds_back(stack, operator_of(o)) && holds_back_all(stack, *l)
            && holds_back_all(stack, *r),
        _ => true,
    }
}

/// The operators of `e` still on the stack once its last token is read, bottom first.
pub open spec fn pending(e: Expr) -> Seq<Token>
    decreases e,
{
    match e {
        Expr::Bin(op, _, r) => seq![op_token(op)] + pending(*r),
        _ => seq![],
    }
}

/// What `e` has put on the output once its last token is read.
pub open spec fn emitted(e: Expr) -> Seq<Token>
    decreases e,
{
    match e {
        Expr::Num(d) => seq![Token::Number(d)],
        Expr::Group(x) => postfix(*x),
        Expr::Bin(_, l, r) => postfix(*l) + emitted(*r),
    }
}

/// A sequence from its last element to its first.
pub open spec fn reversed(p: Seq<Token>) -> Seq<Token>
    decreases p.len(),
{
    if p.len() == 0 {
        seq![]
    } else {
        seq![p.last()] + reversed(p.drop_last())
    }
}

/// Whether `t` is an operator that `op1` pops.
pub open spec fn pops(op1: Operator, t: Token) -> bool {
    t matches Token::Operator(o2) && yields_to(op1, o2)
}

pub open spec fn all_yield(op1: Operator, p: Seq<Token>) -> bool {
    forall|i: int| 0 <= i < p.len() ==> pops(op1, #[trigger] p[i])
}

pub open spec fn all_operators(p: Seq<Token>) -> bool {
    forall|i: int| 0 <= i < p.len() ==> p[i] is Operator
}

proof fn lemma_reversed_prepend(x: Token, q: Seq<Token>)
    ensures
        reversed(seq![x] + q) == reversed(q) + seq![x],
    decreases q.len(),
{
    let p = seq![x] + q;
    if q.len() == 0 {
        assert(p.drop_last() == Seq::<Token>::empty());
        assert(reversed(Seq::<Token>::empty()) == Seq::<Token>::empty());
        assert(p.last() == x);
    } else {
        assert(p.last() == q.last());
        assert(p.drop_last() == seq![x] + q.drop_last());
        lemma_reversed_prepend(x, q.drop_last());
        assert(reversed(p) == seq![q.last()] + (reversed(q.drop_last()) + seq![x]));
        assert(reversed(q) == seq![q.last()] + reversed(q.drop_last()));
        assert(reversed(p) == reversed(q) + seq![x]);
    }
}

proof fn lemma_pending(op: BinOp, e: Expr)
    ensures
        all_operators(pending(e)),
        fits_left_of(op, e) ==> all_yield(operator_of(op), pending(e)),
    decreases e,
{
    if let Expr::Bin(o, _, r) = e {
        lemma_pending(op, *r);
        let p = pending(e);
        assert(p == seq![op_token(o)] + pending(*r));
        assert forall|i: int| 0 <= i < p.len() implies p[i] is Operator by {
            if i > 0 {
                assert(p[i] == pending(*r)[i - 1]);
            }
        }
        if fits_left_of(op, e) {
            assert forall|i: int| 0 <= i < p.len() implies pops(operator_of(op), p[i]) by {
                if i > 0 {
                    assert(p[i] == pending(*r)[i - 1]);
                }
            }
        }
    }
}

proof fn lemma_postfix_split(e: Expr)
    ensures
        emitted(e) + reversed(pending(e)) == postfix(e),
    decreases e,
{
    match e {
        Expr::Num(d) => {
            assert(reversed(pending(e)) == Seq::<Token>::empty());
            assert(emitted(e) + reversed(pending(e)) == emitted(e));
        },
        Expr::Group(x) => {
            assert(reversed(pending(e)) == Seq::<Token>::empty());
            assert(emitted(e) + reversed(pending(e)) == emitted(e));
        },
        Expr::Bin(op, l, r) => {
            lemma_postfix_split(*r);
            lemma_reversed_prepend(op_token(op), pending(*r));
            assert(emitted(e) + reversed(pending(e)) == postfix(*l) + (emitted(*r) + reversed(
                pending(*r),
            )) + seq![op_token(op)]);
        },
    }
}

proof fn lemma_unwind_for(op1: Operator, out: Seq<Token>, s: Seq<Token>, p: Seq<Token>)
    requires
        all_yield(op1, p),
        holds_back(s, op1),
    ensures
        unwind_for(op1, out, s + p) == Ok::<(Seq<Token>, Seq<Token>), Error>(
            (out + reversed(p), s),
        ),
    decreases p.len(),
{
    if p.len() == 0 {
        assert(s + p == s);
        assert(out + reversed(p) == out);
    } else {
        let sp = s + p;
        assert(sp.last() == p.last());
        assert(p[p.len() - 1] == p.last());
        assert(sp.drop_last() == s + p.drop_last());
        assert forall|i: int| 0 <= i < p.drop_last().len() implies pops(op1, p.drop_last()[i]) by {
            assert(p.drop_last()[i] == p[i]);
        }
        lemma_unwind_for(op1, out.push(p.last()), s, p.drop_last());
        assert(out.push(p.last()) + reversed(p.drop_last()) == out + reversed(p));
    }
}

proof fn lemma_unwind_to_paren(out: Seq<Token>, s: Seq<Token>, p: Seq<Token>)
    requires
        all_operators(p),
    ensures
        unwind_to_paren(out, s.push(Token::ParLeft) + p) == Ok::<
            (Seq<Token>, Seq<Token>),
            Error,
        >((out + reversed(p), s)),
    decreases p.len(),
{
    let sp = s.push(Token::ParLeft) + p;
    if p.len() == 0 {
        assert(sp == s.push(Token::ParLeft));
        assert(sp.drop_last() == s);
        assert(out + reversed(p) == out);
    } else {
        assert(sp.last() == p.last());
        assert(p[p.len() - 1] == p.last());
        assert(sp.drop_last() == s.push(Token::ParLeft) + p.drop_last());
        assert forall|i: int| 0 <= i < p.drop_last().len() implies p.drop_last()[i] is Operator by {
            assert(p.drop_last()[i] == p[i]);
        }
        lemma_unwind_to_paren(out.push(p.last()), s, p.drop_last());
        assert(out.push(p.last()) + reversed(p.drop_last()) == out + reversed(p));
    }
}

proof fn lemma_unwind_all(out: Seq<Token>, p: Seq<Token>)
    requires
        all_operators(p),
    ensures
        unwind_all(out, p) == Ok::<Seq<Token>, Error>(out + reversed(p)),
    decreases p.len(),
{
    if p.len() == 0 {
        assert(out + reversed(p) == out);
    } else {
        assert(p[p.len() - 1] == p.last());
        assert forall|i: int| 0 <= i < p.drop_last().len() implies p.drop_last()[i] is Operator by {
            assert(p.drop_last()[i] == p[i]);
        }
        lemma_unwind_all(out.push(p.last()), p.drop_last());
        assert(out.push(p.last()) + reversed(p.drop_last()) == out + reversed(p));
    }
}

proof fn lemma_holds_back_all(stack: Seq<Token>, op: BinOp, e: Expr)
    ensures
        holds_back_all(stack.push(Token::ParLeft), e),
        holds_back_all(Seq::<Token>::empty(), e),
        fits_right_of(op, e) ==> holds_back_all(stack.push(op_token(op)), e),
    decreases e,
{
    if let Expr::Bin(_, l, r) = e {
        lemma_holds_back_all(stack, op, *l);
        lemma_holds_back_all(stack, op, *r);
    }
}

/// Reading the tokens of `e` moves its operands and the operations that are
/// complete to the output, and leaves the rest of its operators on the stack.
proof fn lemma_shunt_expr(e: Expr, rest: Seq<Token>, out: Seq<Token>, stack: Seq<Token>)
    requires
        well_formed(e),
        holds_back_all(stack, e),
    ensures
        shunt(infix(e) + rest, out, stack) == shunt(rest, out + emitted(e), stack + pending(e)),
    decreases e,
{
    match e {
        Expr::Num(d) => {
            let ts = infix(e) + rest;
            assert(ts[0] == Token::Number(d));
            assert(ts.drop_first() == rest);
            assert(out.push(Token::Number(d)) == out + emitted(e));
            assert(stack + pending(e) == stack);
        },
        Expr::Group(x) => {
            let ts = infix(e) + rest;
            let inner = infix(*x) + (seq![Token::ParRight] + rest);
            assert(ts[0] == Token::ParLeft);
            assert(ts.drop_first() == inner);
            lemma_holds_back_all(stack, BinOp::Add, *x);
            lemma_shunt_expr(*x, seq![Token::ParRight] + rest, out, stack.push(Token::ParLeft));
            let ts2 = seq![Token::ParRight] + rest;
            assert(ts2[0] == Token::ParRight);
            assert(ts2.drop_first() == rest);
            lemma_pending(BinOp::Add, *x);
            lemma_unwind_to_paren(out + emitted(*x), stack, pending(*x));
            lemma_postfix_split(*x);
            assert(out + emitted(*x) + reversed(pending(*x)) == out + emitted(e));
            assert(stack + pending(e) == stack);
        },
        Expr::Bin(op, l, r) => {
            let ts = infix(e) + rest;
            let after_l = seq![op_token(op)] + (infix(*r) + rest);
            assert(ts == infix(*l) + after_l);
            lemma_shunt_expr(*l, after_l, out, stack);
            assert(after_l[0] == op_token(op));
            assert(after_l.drop_first() == infix(*r) + rest);
            lemma_pending(op, *l);
            lemma_unwind_for(operator_of(op), out + emitted(*l), stack, pending(*l));
            lemma_postfix_split(*l);
            assert(out + emitted(*l) + reversed(pending(*l)) == out + postfix(*l));
            lemma_holds_back_all(stack, op, *r);
            lemma_shunt_expr(*r, rest, out + postfix(*l), stack.push(op_token(op)));
            assert(out + postfix(*l) + emitted(*r) == out + emitted(e));
            assert(stack.push(op_token(op)) + pending(*r) == stack + pending(e));
        },
    }
}

proof fn lemma_eval_expr(e: Expr, rest: Seq<Token>, stack: Seq<Value>)
    ensures
        eval_from(postfix(e) + rest, stack) == match eval(e) {
            Ok(v) => eval_from(rest, stack.push(v)),
            Err(x) => Err(x),
        },
    decreases e,
{
    match e {
        Expr::Num(d) => {
            let ts = postfix(e) + rest;
            assert(ts[0] == Token::Number(d));
            assert(ts.drop_first() == rest);
        },
        Expr::Group(x) => {
            lemma_eval_expr(*x, rest, stack);
        },
        Expr::Bin(op, l, r) => {
            let tail = seq![op_token(op)] + rest;
            assert(postfix(e) + rest == postfix(*l) + (postfix(*r) + tail));
            lemma_eval_expr(*l, postfix(*r) + tail, stack);
            if let Ok(a) = eval(*l) {
                lemma_eval_expr(*r, tail, stack.push(a));
                if let Ok(b) = eval(*r) {
                    let s2 = stack.push(a).push(b);
                    assert(tail[0] == op_token(op));
                    assert(tail.drop_first() == rest);
                    assert(s2[s2.len() - 2] == a && s2[s2.len() - 1] == b);
                    assert(s2.subrange(0, s2.len() - 2) == stack);
                }
            }
        },
    }
}

/// Converting the infix tokens of a well-formed expression to postfix order
/// gives its postfix form, and evaluating that gives the expression's value:
/// the pipeline honours precedence, associativity and parentheses.
pub proof fn lemma_infix_evaluates(e: Expr)
    requires
        well_formed(e),
    ensures
        postfix_of(infix(e)) == Ok::<Seq<Token>, Error>(postfix(e)),
        value_of_postfix(postfix(e)) == eval(e),
{
    let empty = Seq::<Token>::empty();
    lemma_holds_back_all(empty, BinOp::Add, e);
    lemma_shunt_expr(e, empty, empty, empty);
    assert(infix(e) + empty == infix(e));
    assert(empty + emitted(e) == emitted(e));
    assert(empty + pending(e) == pending(e));
    lemma_pending(BinOp::Add, e);
    lemma_unwind_all(emitted(e), pending(e));
    lemma_postfix_split(e);
    lemma_eval_expr(e, empty, Seq::<Value>::empty());
    assert(postfix(e) + empty == postfix(e));
    if let Ok(v) = eval(e) {
        assert(Seq::<Value>::empty().push(v)[0] == v);
    }
}

/// Where a string reads as the infix tokens of a well-formed expression,
/// `compute` gives that expression's value, operation by operation in the
/// decimal type.
pub proof fn lemma_compute_evaluates(s: Seq<char>, variables: Option<&Variables>, e: Expr)
    requires
        well_formed(e),
        tokens_of(s, variables) == Ok::<Seq<Token>, Error>(infix(e)),
    ensures
        value_of_expression(s, variables) == eval(e),
{
    lemma_infix_evaluates(e);
}

} // verus!
