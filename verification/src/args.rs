//! Script arguments, held by an explicitly owned store and read through
//! total, clamped accessors.

use vstd::prelude::*;

verus! {

/// The arguments handed to the running script, in order.
pub struct Args {
    values: Vec<String>,
}

/// Replaces the stored argument list.
pub fn set_args(args: &mut Args, values: Vec<String>)
    ensures
        final(args).spec_values() == values@,
{
    args.values = values;
}

impl Args {
    /// The stored arguments.
    pub closed spec fn spec_values(&self) -> Seq<String> {
        self.values@
    }

    pub fn new() -> (a: Args)
        ensures
            a.spec_values() == Seq::<String>::empty(),
    {
        Args { values: Vec::new() }
    }

    /// Every argument, in order.
    pub fn all(&self) -> (r: Vec<String>)
        ensures
            r@ == self.spec_values(),
    {
        let mut r: Vec<String> = Vec::new();
        let mut i: usize = 0;
        while i < self.values.len()
            invariant
                i <= self.values@.len(),
                r@ == self.values@.subrange(0, i as int),
            decreases self.values@.len() - i,
        {
            r.push(self.values[i].clone());
            i = i + 1;
            proof {
                assert(r@ =~= self.values@.subrange(0, i as int));
            }
        }
        proof {
            assert(r@ =~= self.values@);
        }
        r
    }

    /// How many arguments there are.
    pub fn count(&self) -> (n: usize)
        ensures
            n == self.spec_values().len(),
    {
        self.values.len()
    }

    /// The argument at `index`, or the empty string when there is none.
    pub fn get(&self, index: usize) -> (r: String)
        ensures
            r@ == if index < self.spec_values().len() {
                self.spec_values()[index as int]@
            } else {
                Seq::<char>::empty()
            },
    {
        if index < self.values.len() {
            self.values[index].clone()
        } else {
            String::new()
        }
    }

    /// The first argument, or the empty string when there is none.
    pub fn first(&self) -> (r: String)
        ensures
            r@ == if self.spec_values().len() > 0 {
                self.spec_values()[0]@
            } else {
                Seq::<char>::empty()
            },
    {
        self.get(0)
    }

    /// The last argument, or the empty string when there is none.
    pub fn last(&self) -> (r: String)
        ensures
            r@ == if self.spec_values().len() > 0 {
                self.spec_values().last()@
            } else {
                Seq::<char>::empty()
            },
    {
        if self.values.len() > 0 {
            self.get(self.values.len() - 1)
        } else {
            String::new()
        }
    }

    /// Whether an argument exists at `index`.
    pub fn has(&self, index: usize) -> (r: bool)
        ensures
            r == (index < self.spec_values().len()),
    {
        index < self.values.len()
    }

    /// The arguments from `start` (inclusive) to `end` (exclusive), both
    /// clamped to the argument count.
    pub fn slice(&self, start: usize, end: usize) -> (r: Vec<String>)
        requires
            start <= end,
        ensures
            r@ == self.spec_values().subrange(
                vstd::math::min(start as int, self.spec_values().len() as int),
                vstd::math::min(end as int, self.spec_values().len() as int),
            ),
    {
        let len = self.values.len();
        let s = if start < len {
            start
        } else {
            len
        };
        let e = if end < len {
            end
        } else {
            len
        };
        let mut r: Vec<String> = Vec::new();
        let mut i: usize = s;
        while i < e
            invariant
                s <= i <= e <= self.values@.len(),
                r@ == self.values@.subrange(s as int, i as int),
            decreases e - i,
        {
            r.push(self.values[i].clone());
            i = i + 1;
            proof {
                assert(r@ =~= self.values@.subrange(s as int, i as int));
            }
        }
        proof {
            assert(r@ =~= self.spec_values().subrange(
                vstd::math::min(start as int, self.spec_values().len() as int),
                vstd::math::min(end as int, self.spec_values().len() as int),
            ));
        }
        r
    }
}

} // verus!
