//! Cursors over the digits of a `BigInt`, most significant first or least
//! significant first.

use vstd::prelude::*;
use crate::bigint::BigInt;
use crate::decimal::{dec_str, u64_to_string};

verus! {

/// Walks the digits from the most significant end down.
pub struct Iter<'a> {
    pub num: &'a BigInt,
    /// The index just above the next digit to hand out.
    pub idx: usize,
}

impl<'a> Iter<'a> {
    /// The cursor stays inside the digit vector.
    pub open spec fn wf(self) -> bool {
        self.idx <= self.num.data@.len()
    }

    /// The next digit, moving down, or `None` at the low end.
    pub fn next(&mut self) -> (r: Option<u64>)
        requires
            old(self).wf(),
        ensures
            final(self).wf(),
            final(self).num == old(self).num,
            match r {
                None => old(self).idx == 0 && final(self).idx == 0,
                Some(d) => old(self).idx > 0 && final(self).idx == old(self).idx - 1 && d == old(
                    self,
                ).num.data@[old(self).idx - 1],
            },
    {
        if self.idx == 0 {
            None
        } else {
            self.idx = self.idx - 1;
            Some(self.num.data[self.idx])
        }
    }
}

/// Walks the digits from the least significant end up.
pub struct IterLdf<'a> {
    pub num: &'a BigInt,
    /// The index of the next digit to hand out.
    pub idx: usize,
}

impl<'a> IterLdf<'a> {
    /// The cursor stays inside the digit vector.
    pub open spec fn wf(self) -> bool {
        self.idx <= self.num.data@.len()
    }

    /// The next digit, moving up, or `None` at the high end.
    pub fn next(&mut self) -> (r: Option<u64>)
        requires
            old(self).wf(),
        ensures
            final(self).wf(),
            final(self).num == old(self).num,
            match r {
                None => old(self).idx == old(self).num.data@.len() && final(self).idx == old(
                    self,
                ).idx,
                Some(d) => old(self).idx < old(self).num.data@.len() && final(self).idx == old(
                    self,
                ).idx + 1 && d == old(self).num.data@[old(self).idx as int],
            },
    {
        if self.idx == self.num.data.len() {
            None
        } else {
            let idx = self.idx;
            self.idx = self.idx + 1;
            Some(self.num.data[idx])
        }
    }
}

impl BigInt {
    /// A cursor over the digits, most significant first.
    pub fn iter(&self) -> (r: Iter<'_>)
        ensures
            r.num == self,
            r.idx == self.data@.len(),
            r.wf(),
    {
        Iter { num: self, idx: self.data.len() }
    }

    /// A cursor over the digits, least significant first.
    pub fn iter_ldf(&self) -> (r: IterLdf<'_>)
        ensures
            r.num == self,
            r.idx == 0,
            r.wf(),
    {
        IterLdf { num: self, idx: 0 }
    }
}

/// Renders every digit on a line of its own, most significant first.
pub fn print_digits_v1(b: &BigInt) -> (r: Vec<String>)
    ensures
        r@.len() == b.data@.len(),
        forall|i: int|
            0 <= i < r@.len() ==> (#[trigger] r@[i])@ == dec_str(
                b.data@[b.data@.len() - 1 - i] as nat,
            ),
{
    let mut out: Vec<String> = Vec::new();
    let mut iter = b.iter();
    loop
        invariant
            iter.wf(),
            iter.num == b,
            out@.len() + iter.idx == b.data@.len(),
            forall|i: int|
                0 <= i < out@.len() ==> (#[trigger] out@[i])@ == dec_str(
                    b.data@[b.data@.len() - 1 - i] as nat,
                ),
        ensures
            out@.len() == b.data@.len(),
            forall|i: int|
                0 <= i < out@.len() ==> (#[trigger] out@[i])@ == dec_str(
                    b.data@[b.data@.len() - 1 - i] as nat,
                ),
        decreases iter.idx,
    {
        match iter.next() {
            Some(digit) => {
                out.push(u64_to_string(digit));
            },
            None => {
                break ;
            },
        }
    }
    out
}

} // verus!
