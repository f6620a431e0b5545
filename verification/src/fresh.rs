//! Names for the variables that the translation introduces.
use vstd::prelude::*;
use crate::print_twin::decimal_injective;
use crate::text::{decimal, Counter};

verus! {

/// The name of introduced variable number `n`.
pub open spec fn fresh_name(n: nat) -> Seq<char> {
    "_v"@ + decimal(n)
}

/// No two introduced variables share a name.
pub proof fn fresh_names_differ(m: nat, n: nat)
    requires
        m != n,
    ensures
        fresh_name(m) != fresh_name(n),
{
    if fresh_name(m) == fresh_name(n) {
        assert(fresh_name(m).skip("_v"@.len() as int) =~= decimal(m));
        assert(fresh_name(n).skip("_v"@.len() as int) =~= decimal(n));
        decimal_injective(m, n);
    }
}

/// A supply of names that have not been used yet.
pub struct FreshVars {
    counter: Counter,
}

impl FreshVars {
    /// The number of the next name.
    pub closed spec fn next(self) -> nat {
        self.counter.value()
    }

    pub fn new() -> (r: Self)
        ensures
            r.next() == 0,
    {
        FreshVars { counter: Counter::new() }
    }

    /// A supply that goes on with the same name.
    pub fn dup(&self) -> (r: Self)
        ensures
            r.next() == self.next(),
    {
        FreshVars { counter: self.counter.dup() }
    }

    /// Takes the next name.
    pub fn take(&mut self) -> (r: String)
        ensures
            r@ == fresh_name(old(self).next()),
            final(self).next() == old(self).next() + 1,
    {
        let mut t = "_v".to_owned();
        t.append(self.counter.text().as_str());
        self.counter = self.counter.next();
        t
    }
}

} // verus!
