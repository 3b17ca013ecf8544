use vstd::prelude::*;

verus! {

/// The binary arithmetic operations.
#[derive(Clone, Copy, Debug, PartialEq, Eq, Structural)]
pub enum BinOp {
    Add,
    Sub,
    Mul,
    Div,
    Pow,
}

/// A binary operator with its binding strength.
///
/// Two operators compare (with `==`, `<`, ...) by precedence alone; which
/// operation they stand for is read from `op`.
#[derive(Clone, Copy, Debug)]
pub struct Operator {
    pub op: BinOp,
    pub precedence: u8,
}

/// The precedence of each operation: `+ -` bind loosest, `^` tightest.
pub open spec fn precedence_of(op: BinOp) -> u8 {
    match op {
        BinOp::Add | BinOp::Sub => 2,
        BinOp::Mul | BinOp::Div => 3,
        BinOp::Pow => 4,
    }
}

/// The operator that a symbol stands for, with its usual precedence.
pub open spec fn operator_symbol(c: char) -> Option<BinOp> {
    if c == '+' {
        Some(BinOp::Add)
    } else if c == '-' {
        Some(BinOp::Sub)
    } else if c == '*' || c == '\u{d7}' {
        Some(BinOp::Mul)
    } else if c == '/' || c == '\u{f7}' {
        Some(BinOp::Div)
    } else if c == '^' {
        Some(BinOp::Pow)
    } else {
        None
    }
}

impl BinOp {
    /// Whether equal-precedence neighbours group to the right (`^` only).
    pub open spec fn right_assoc(self) -> bool {
        self == BinOp::Pow
    }
}

impl Operator {
    pub fn new(op: BinOp, precedence: u8) -> (r: Operator)
        ensures
            r.op == op,
            r.precedence == precedence,
    {
        Operator { op, precedence }
    }

    /// The operator for `+ - * / ^` and for `×` and `÷`.
    pub fn from_symbol(c: char) -> (r: Option<Operator>)
        ensures
            r is Some <==> operator_symbol(c) is Some,
            r matches Some(o) ==> o.op == operator_symbol(c)->0 && o.precedence
                == precedence_of(o.op),
    {
        let op = if c == '+' {
            BinOp::Add
        } else if c == '-' {
            BinOp::Sub
        } else if c == '*' || c == '\u{d7}' {
            BinOp::Mul
        } else if c == '/' || c == '\u{f7}' {
            BinOp::Div
        } else if c == '^' {
            BinOp::Pow
        } else {
            return None;
        };
        let precedence: u8 = match op {
            BinOp::Add | BinOp::Sub => 2,
            BinOp::Mul | BinOp::Div => 3,
            BinOp::Pow => 4,
        };
        Some(Operator::new(op, precedence))
    }
}

impl PartialEq for Operator {
    fn eq(&self, other: &Operator) -> (r: bool) {
        self.precedence == other.precedence
    }
}

impl vstd::std_specs::cmp::PartialEqSpecImpl for Operator {
    open spec fn obeys_eq_spec() -> bool {
        true
    }

    open spec fn eq_spec(&self, other: &Operator) -> bool {
        self.precedence == other.precedence
    }
}

impl PartialOrd for Operator {
    fn partial_cmp(&self, other: &Operator) -> (r: Option<core::cmp::Ordering>) {
        if self.precedence < other.precedence {
            Some(core::cmp::Ordering::Less)
        } else if self.precedence > other.precedence {
            Some(core::cmp::Ordering::Greater)
        } else {
            Some(core::cmp::Ordering::Equal)
        }
    }
}

impl vstd::std_specs::cmp::PartialOrdSpecImpl for Operator {
    open spec fn obeys_partial_cmp_spec() -> bool {
        true
    }

    open spec fn partial_cmp_spec(&self, other: &Operator) -> Option<core::cmp::Ordering> {
        if self.precedence < other.precedence {
            Some(core::cmp::Ordering::Less)
        } else if self.precedence > other.precedence {
            Some(core::cmp::Ordering::Greater)
        } else {
            Some(core::cmp::Ordering::Equal)
        }
    }
}

} // verus!
