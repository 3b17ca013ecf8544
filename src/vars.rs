use crate::decimal::Dec;
use crate::text::chars_of;
use vstd::prelude::*;

verus! {

/// The characters that a variable name may not hold.
pub open spec fn forbidden_in_name(c: char) -> bool {
    c == ' ' || c == '\t' || c == '\n' || c == '+' || c == '-' || c == '/' || c == '*' || c == '^'
        || c == '%' || c == '!' || c == '~' || c == '&' || c == '|' || c == '<' || c == '>'
        || c == '=' || c == '(' || c == ')' || c == ','
}

/// Whether `name` can be bound as a variable: not empty, and free of
/// whitespace, operator and grouping characters.
pub fn valid_variable_name(name: &str) -> (r: bool)
    ensures
        r == (name@.len() > 0 && forall|i: int| 0 <= i < name@.len() ==> !forbidden_in_name(name@[i])),
{
    let cs = chars_of(name);
    if cs.len() == 0 {
        return false;
    }
    let mut i: usize = 0;
    while i < cs.len()
        invariant
            cs@ == name@,
            0 <= i <= cs@.len(),
            forall|j: int| 0 <= j < i ==> !forbidden_in_name(cs@[j]),
        decreases cs@.len() - i,
    {
        let c = cs[i];
        if c == ' ' || c == '\t' || c == '\n' || c == '+' || c == '-' || c == '/' || c == '*'
            || c == '^' || c == '%' || c == '!' || c == '~' || c == '&' || c == '|' || c == '<'
            || c == '>' || c == '=' || c == '(' || c == ')' || c == ',' {
            return false;
        }
        i += 1;
    }
    true
}

/// A caller's mapping from variable names to values.
pub struct Variables {
    entries: Vec<(Vec<char>, Dec)>,
}

/// The value bound last to `name` among `entries`.
pub open spec fn latest(entries: Seq<(Vec<char>, Dec)>, name: Seq<char>) -> Option<Dec>
    decreases entries.len(),
{
    if entries.len() == 0 {
        None
    } else if entries.last().0@ == name {
        Some(entries.last().1)
    } else {
        latest(entries.drop_last(), name)
    }
}

impl Variables {
    /// The value of a variable, if it has one.
    pub closed spec fn lookup(&self, name: Seq<char>) -> Option<Dec> {
        latest(self.entries@, name)
    }

    /// A mapping with no variables.
    pub fn new() -> (r: Variables)
        ensures
            forall|name: Seq<char>| r.lookup(name) is None,
    {
        Variables { entries: Vec::new() }
    }

    /// Binds `name` to `value`, in place of any earlier value.
    pub fn insert(&mut self, name: &str, value: Dec)
        ensures
            final(self).lookup(name@) == Some(value),
            forall|other: Seq<char>|
                other != name@ ==> final(self).lookup(other) == old(self).lookup(other),
    {
        let key = chars_of(name);
        self.entries.push((key, value));
        assert(self.entries@.drop_last() == old(self).entries@);
    }

    /// The value bound to `name`.
    pub fn get(&self, name: &[char]) -> (r: Option<Dec>)
        ensures
            r == self.lookup(name@),
    {
        let mut k: usize = self.entries.len();
        assert(self.entries@.subrange(0, k as int) == self.entries@);
        while k > 0
            invariant
                k <= self.entries@.len(),
                latest(self.entries@, name@) == latest(self.entries@.subrange(0, k as int), name@),
            decreases k,
        {
            let ghost prefix = self.entries@.subrange(0, k as int);
            assert(prefix.drop_last() == self.entries@.subrange(0, k - 1));
            if crate::token::spells(self.entries[k - 1].0.as_slice(), name) {
                return Some(self.entries[k - 1].1);
            }
            k -= 1;
        }
        None
    }
}

} // verus!
