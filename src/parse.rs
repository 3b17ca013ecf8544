use crate::decimal::{dec_of, decimal_from_text, lemma_dec_of_view, Dec};
use crate::error::Error;
use crate::op::{operator_symbol, precedence_of, Operator};
use crate::text::{chars_of, is_numeric, is_whitespace, numeric_char, whitespace_char};
use crate::token::{constant, constant_named, function_named, Function, Token};
use crate::vars::Variables;
use vstd::prelude::*;

verus! {

pub open spec fn is_sign(c: char) -> bool {
    c == '+' || c == '-'
}

pub open spec fn is_digit(c: char) -> bool {
    '0' <= c && c <= '9'
}

/// Where a numeral whose first character has been taken ends, scanning from
/// `j`: digits and `.` continue it, and `e` continues it when a sign or a
/// digit follows. `None` where an `e` has no such follower.
pub open spec fn numeral_end(cs: Seq<char>, j: int) -> Option<int>
    decreases cs.len() - j,
{
    if j >= cs.len() {
        Some(j)
    } else if numeric_char(cs[j]) || cs[j] == '.' {
        numeral_end(cs, j + 1)
    } else if cs[j] == 'e' {
        if j + 1 < cs.len() && (is_sign(cs[j + 1]) || is_digit(cs[j + 1])) {
            numeral_end(cs, j + 2)
        } else {
            None
        }
    } else {
        Some(j)
    }
}

/// The characters that end a name besides whitespace, digits, `e` and `.`.
pub open spec fn restricted(c: char) -> bool {
    c == '(' || c == ')' || c == ',' || operator_symbol(c) is Some
}

pub open spec fn ends_name(c: char) -> bool {
    numeric_char(c) || c == 'e' || c == '.' || restricted(c) || whitespace_char(c)
}

/// Where a name whose first character has been taken ends, scanning from `j`.
pub open spec fn name_end(cs: Seq<char>, j: int) -> int
    decreases cs.len() - j,
{
    if j >= cs.len() || ends_name(cs[j]) {
        j
    } else {
        name_end(cs, j + 1)
    }
}

/// Whether `c` begins a numeral after the tokens `acc`: a digit, or a sign
/// at the start, after a comma, an operator or a `(`.
pub open spec fn starts_numeral(c: char, acc: Seq<Token>) -> bool {
    numeric_char(c) || (is_sign(c) && (acc.len() == 0 || acc.last() is Comma
        || acc.last() is Operator || acc.last() is ParLeft))
}

/// What a name stands for: a constant, else a function, else a variable.
pub open spec fn resolve(name: Seq<char>, vars: Option<&Variables>) -> Result<Token, Error> {
    if let Some(v) = constant_named(name) {
        Ok(Token::Number(dec_of(v)))
    } else if let Some(f) = function_named(name) {
        Ok(Token::Function(f))
    } else {
        match vars {
            Some(m) => match m.lookup(name) {
                Some(d) => Ok(Token::Number(d)),
                None => Err(Error::InvalidToken),
            },
            None => Err(Error::InvalidToken),
        }
    }
}

/// The tokens of `cs` from position `i` on, after the tokens `acc`.
pub open spec fn lex(cs: Seq<char>, i: int, acc: Seq<Token>, vars: Option<&Variables>) -> Result<
    Seq<Token>,
    Error,
>
    decreases cs.len() - i,
    via lex_decreases
{
    if i < 0 || i >= cs.len() {
        Ok(acc)
    } else {
        let c = cs[i];
        if whitespace_char(c) {
            lex(cs, i + 1, acc, vars)
        } else if c == ',' {
            lex(cs, i + 1, acc.push(Token::Comma), vars)
        } else if starts_numeral(c, acc) {
            match numeral_end(cs, i + 1) {
                None => Err(Error::NumberParseError),
                Some(j) => match decimal_from_text(cs.subrange(i, j)) {
                    None => Err(Error::NumberParseError),
                    Some(v) => lex(cs, j, acc.push(Token::Number(dec_of(v))), vars),
                },
            }
        } else if c == '(' {
            lex(cs, i + 1, acc.push(Token::ParLeft), vars)
        } else if c == ')' {
            lex(cs, i + 1, acc.push(Token::ParRight), vars)
        } else if let Some(op) = operator_symbol(c) {
            lex(
                cs,
                i + 1,
                acc.push(Token::Operator(Operator { op, precedence: precedence_of(op) })),
                vars,
            )
        } else {
            let j = name_end(cs, i + 1);
            match resolve(cs.subrange(i, j), vars) {
                Ok(t) => lex(cs, j, acc.push(t), vars),
                Err(e) => Err(e),
            }
        }
    }
}

pub proof fn lemma_numeral_end(cs: Seq<char>, j: int)
    requires
        0 <= j <= cs.len(),
    ensures
        numeral_end(cs, j) matches Some(k) ==> j <= k <= cs.len(),
    decreases cs.len() - j,
{
    if j < cs.len() {
        if numeric_char(cs[j]) || cs[j] == '.' {
            lemma_numeral_end(cs, j + 1);
        } else if cs[j] == 'e' && j + 1 < cs.len() && (is_sign(cs[j + 1]) || is_digit(
            cs[j + 1],
        )) {
            lemma_numeral_end(cs, j + 2);
        }
    }
}

pub proof fn lemma_name_end(cs: Seq<char>, j: int)
    requires
        0 <= j <= cs.len(),
    ensures
        j <= name_end(cs, j) <= cs.len(),
    decreases cs.len() - j,
{
    if j < cs.len() && !ends_name(cs[j]) {
        lemma_name_end(cs, j + 1);
    }
}

#[via_fn]
proof fn lex_decreases(cs: Seq<char>, i: int, acc: Seq<Token>, vars: Option<&Variables>) {
    if 0 <= i < cs.len() {
        lemma_numeral_end(cs, i + 1);
        lemma_name_end(cs, i + 1);
    }
}

/// The result of tokenizing a whole string.
pub open spec fn tokens_of(s: Seq<char>, vars: Option<&Variables>) -> Result<Seq<Token>, Error> {
    lex(s, 0, seq![], vars)
}

/// The end of the numeral whose first character is at `j - 1` (see `numeral_end`).
fn scan_numeral(cs: &Vec<char>, j: usize) -> (r: Option<usize>)
    requires
        j <= cs@.len(),
    ensures
        match numeral_end(cs@, j as int) {
            Some(k) => r == Some(k as usize),
            None => r is None,
        },
{
    let mut k = j;
    while k < cs.len()
        invariant
            j <= k <= cs@.len(),
            numeral_end(cs@, j as int) == numeral_end(cs@, k as int),
        decreases cs@.len() - k,
    {
        let c = cs[k];
        if is_numeric(c) || c == '.' {
            k += 1;
        } else if c == 'e' {
            if k + 1 < cs.len() && (cs[k + 1] == '+' || cs[k + 1] == '-' || ('0' <= cs[k + 1]
                && cs[k + 1] <= '9')) {
                k += 2;
            } else {
                return None;
            }
        } else {
            return Some(k);
        }
    }
    Some(k)
}

/// The end of the name whose first character is at `j - 1` (see `name_end`).
fn scan_name(cs: &Vec<char>, j: usize) -> (r: usize)
    requires
        j <= cs@.len(),
    ensures
        r as int == name_end(cs@, j as int),
{
    let mut k = j;
    while k < cs.len()
        invariant
            j <= k <= cs@.len(),
            name_end(cs@, j as int) == name_end(cs@, k as int),
        decreases cs@.len() - k,
    {
        let c = cs[k];
        if is_numeric(c) || c == 'e' || c == '.' || c == '(' || c == ')' || c == ','
            || Operator::from_symbol(c).is_some() || is_whitespace(c) {
            return k;
        }
        k += 1;
    }
    k
}

/// The characters of `cs` from `a` up to `b`.
fn copy_range(cs: &Vec<char>, a: usize, b: usize) -> (r: Vec<char>)
    requires
        a <= b <= cs@.len(),
    ensures
        r@ == cs@.subrange(a as int, b as int),
{
    let mut out: Vec<char> = Vec::new();
    let mut k = a;
    while k < b
        invariant
            a <= k <= b <= cs@.len(),
            out@ == cs@.subrange(a as int, k as int),
        decreases b - k,
    {
        out.push(cs[k]);
        assert(cs@.subrange(a as int, k + 1) == cs@.subrange(a as int, k as int).push(cs@[k as int]));
        k += 1;
    }
    out
}

/// What a name stands for (see `resolve`).
fn resolve_name(name: &Vec<char>, variables: Option<&Variables>) -> (r: Result<Token, Error>)
    ensures
        r == resolve(name@, variables),
{
    if let Some(d) = constant(name.as_slice()) {
        proof {
            lemma_dec_of_view(d);
        }
        Ok(Token::Number(d))
    } else if let Some(f) = Function::from_name(name.as_slice()) {
        Ok(Token::Function(f))
    } else {
        match variables {
            Some(m) => match m.get(name.as_slice()) {
                Some(d) => Ok(Token::Number(d)),
                None => Err(Error::InvalidToken),
            },
            None => Err(Error::InvalidToken),
        }
    }
}

/// Splits an expression into tokens. Whitespace is skipped; a digit, or a
/// sign at the start or after a comma, an operator or `(`, begins a numeral;
/// other runs of characters are names, read as a constant, a function or a
/// variable of `variables`, in that order.
pub fn parse_str(s: &str, variables: Option<&Variables>) -> (r: Result<Vec<Token>, Error>)
    ensures
        match r {
            Ok(v) => tokens_of(s@, variables) == Ok::<Seq<Token>, Error>(v@),
            Err(e) => tokens_of(s@, variables) == Err::<Seq<Token>, Error>(e),
        },
{
    let cs = chars_of(s);
    let n = cs.len();
    let mut tokens: Vec<Token> = Vec::new();
    let mut i: usize = 0;
    while i < n
        invariant
            n == cs@.len(),
            cs@ == s@,
            0 <= i <= n,
            tokens_of(s@, variables) == lex(cs@, i as int, tokens@, variables),
        decreases n - i,
    {
        let c = cs[i];
        let follows_sign_place = match tokens.last() {
            None => true,
            Some(Token::Comma) | Some(Token::Operator(_)) | Some(Token::ParLeft) => true,
            _ => false,
        };
        if is_whitespace(c) {
            i += 1;
        } else if c == ',' {
            tokens.push(Token::Comma);
            i += 1;
        } else if is_numeric(c) || ((c == '+' || c == '-') && follows_sign_place) {
            match scan_numeral(&cs, i + 1) {
                None => {
                    return Err(Error::NumberParseError);
                },
                Some(j) => {
                    proof {
                        lemma_numeral_end(cs@, i + 1);
                    }
                    let text = copy_range(&cs, i, j);
                    match Dec::parse(&text) {
                        None => {
                            return Err(Error::NumberParseError);
                        },
                        Some(d) => {
                            proof {
                                lemma_dec_of_view(d);
                            }
                            tokens.push(Token::Number(d));
                            i = j;
                        },
                    }
                },
            }
        } else if c == '(' {
            tokens.push(Token::ParLeft);
            i += 1;
        } else if c == ')' {
            tokens.push(Token::ParRight);
            i += 1;
        } else if let Some(op) = Operator::from_symbol(c) {
            tokens.push(Token::Operator(op));
            i += 1;
        } else {
            let j = scan_name(&cs, i + 1);
            proof {
                lemma_name_end(cs@, i + 1);
            }
            let name = copy_range(&cs, i, j);
            match resolve_name(&name, variables) {
                Ok(t) => {
                    tokens.push(t);
                    i = j;
                },
                Err(e) => {
                    return Err(e);
                },
            }
        }
    }
    Ok(tokens)
}

} // verus!
