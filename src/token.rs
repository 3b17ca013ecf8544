use crate::decimal::{yields, Dec};
use crate::op::Operator;
use vstd::prelude::*;

verus! {

/// The built-in functions of one argument.
#[derive(Clone, Copy, Debug, PartialEq, Eq, Structural)]
pub enum UnaryFn {
    Sin,
    Cos,
    Tan,
    /// The cotangent, `cos / sin`.
    Ctan,
}

/// The built-in functions of two arguments.
#[derive(Clone, Copy, Debug, PartialEq, Eq, Structural)]
pub enum BinaryFn {
    Max,
    Min,
}

/// A built-in function, by the number of arguments it takes.
#[derive(Clone, Copy, Debug, PartialEq, Eq, Structural)]
pub enum Function {
    OneParam(UnaryFn),
    TwoParam(BinaryFn),
}

/// One lexical unit of an expression.
#[derive(Clone, Copy, Debug, PartialEq)]
pub enum Token {
    Number(Dec),
    ParLeft,
    ParRight,
    Operator(Operator),
    Function(Function),
    /// Separates function arguments; only the tokenizer reads it.
    Comma,
}

/// The value of a built-in constant: `e`, and `pi` (also written `π`).
pub open spec fn constant_named(name: Seq<char>) -> Option<(int, nat)> {
    if name == seq!['e'] {
        Some((27182818284590452353602874714int, 28nat))
    } else if name == seq!['p', 'i'] || name == seq!['\u{3c0}'] {
        Some((31415926535897932384626433833int, 28nat))
    } else {
        None
    }
}

/// The built-in function of a name.
pub open spec fn function_named(name: Seq<char>) -> Option<Function> {
    if name == seq!['s', 'i', 'n'] {
        Some(Function::OneParam(UnaryFn::Sin))
    } else if name == seq!['c', 'o', 's'] {
        Some(Function::OneParam(UnaryFn::Cos))
    } else if name == seq!['t', 'a', 'n'] {
        Some(Function::OneParam(UnaryFn::Tan))
    } else if name == seq!['c', 't', 'a', 'n'] {
        Some(Function::OneParam(UnaryFn::Ctan))
    } else if name == seq!['m', 'a', 'x'] {
        Some(Function::TwoParam(BinaryFn::Max))
    } else if name == seq!['m', 'i', 'n'] {
        Some(Function::TwoParam(BinaryFn::Min))
    } else {
        None
    }
}

/// Whether `name` spells exactly `word`.
pub fn spells(name: &[char], word: &[char]) -> (r: bool)
    ensures
        r == (name@ == word@),
{
    if name.len() != word.len() {
        return false;
    }
    let mut i: usize = 0;
    while i < name.len()
        invariant
            name@.len() == word@.len(),
            0 <= i <= name@.len(),
            name@.subrange(0, i as int) == word@.subrange(0, i as int),
        decreases name@.len() - i,
    {
        if name[i] != word[i] {
            assert(name@[i as int] != word@[i as int]);
            return false;
        }
        assert(name@.subrange(0, i + 1) == name@.subrange(0, i as int).push(name@[i as int]));
        assert(word@.subrange(0, i + 1) == word@.subrange(0, i as int).push(word@[i as int]));
        i += 1;
    }
    assert(name@ == name@.subrange(0, name@.len() as int));
    assert(word@ == word@.subrange(0, word@.len() as int));
    true
}

/// The built-in constant of a name.
pub fn constant(name: &[char]) -> (r: Option<Dec>)
    ensures
        yields(r, constant_named(name@)),
{
    let e: [char; 1] = ['e'];
    let pi: [char; 2] = ['p', 'i'];
    let pi_sign: [char; 1] = ['\u{3c0}'];
    assert(e@ == seq!['e']);
    assert(pi@ == seq!['p', 'i']);
    assert(pi_sign@ == seq!['\u{3c0}']);
    if spells(name, &e) {
        Some(Dec::e())
    } else if spells(name, &pi) || spells(name, &pi_sign) {
        Some(Dec::pi())
    } else {
        None
    }
}

impl Function {
    /// The built-in function of a name: `sin`, `cos`, `tan`, `ctan`, `max`, `min`.
    pub fn from_name(name: &[char]) -> (r: Option<Function>)
        ensures
            r == function_named(name@),
    {
        if spells(name, &['s', 'i', 'n']) {
            Some(Function::OneParam(UnaryFn::Sin))
        } else if spells(name, &['c', 'o', 's']) {
            Some(Function::OneParam(UnaryFn::Cos))
        } else if spells(name, &['t', 'a', 'n']) {
            Some(Function::OneParam(UnaryFn::Tan))
        } else if spells(name, &['c', 't', 'a', 'n']) {
            Some(Function::OneParam(UnaryFn::Ctan))
        } else if spells(name, &['m', 'a', 'x']) {
            Some(Function::TwoParam(BinaryFn::Max))
        } else if spells(name, &['m', 'i', 'n']) {
            Some(Function::TwoParam(BinaryFn::Min))
        } else {
            None
        }
    }
}

} // verus!
