//! Arbitrary-size natural numbers stored as base-2^64 digits, least
//! significant digit first, with no trailing zero digits.

use vstd::prelude::*;

verus! {

/// 2^64, the base of the digit representation.
pub open spec fn base64() -> nat {
    0x1_0000_0000_0000_0000
}

/// base64 raised to `n`.
pub open spec fn pow64(n: nat) -> nat
    decreases n,
{
    if n == 0 {
        1
    } else {
        base64() * pow64((n - 1) as nat)
    }
}

/// The digit at position `i`, taking positions past the end as zero.
pub open spec fn digit_at(s: Seq<u64>, i: int) -> nat {
    if 0 <= i < s.len() {
        s[i] as nat
    } else {
        0
    }
}

/// The number denoted by the first `n` digit positions of `s`.
pub open spec fn prefix_value(s: Seq<u64>, n: int) -> nat
    decreases n,
{
    if n <= 0 {
        0
    } else {
        prefix_value(s, n - 1) + digit_at(s, n - 1) * pow64((n - 1) as nat)
    }
}

/// The number denoted by the whole digit sequence.
pub open spec fn seq_value(s: Seq<u64>) -> nat {
    prefix_value(s, s.len() as int)
}

/// `s` with trailing zero digits removed.
pub open spec fn trim(s: Seq<u64>) -> Seq<u64>
    decreases s.len(),
{
    if s.len() == 0 || s.last() != 0 {
        s
    } else {
        trim(s.drop_last())
    }
}

/// Two sequences that agree on the first `n` positions denote the same
/// number there.
pub proof fn lemma_prefix_value_congruent(s1: Seq<u64>, s2: Seq<u64>, n: int)
    requires
        forall|i: int| 0 <= i < n ==> digit_at(s1, i) == digit_at(s2, i),
    ensures
        prefix_value(s1, n) == prefix_value(s2, n),
    decreases n,
{
    if n > 0 {
        lemma_prefix_value_congruent(s1, s2, n - 1);
    }
}

/// Positions past the end contribute nothing.
pub proof fn lemma_prefix_value_stable(s: Seq<u64>, n: int)
    requires
        n >= s.len(),
    ensures
        prefix_value(s, n) == seq_value(s),
    decreases n,
{
    if n > s.len() {
        lemma_prefix_value_stable(s, n - 1);
        assert(digit_at(s, n - 1) == 0);
        assert(prefix_value(s, n) == prefix_value(s, n - 1));
    } else {
        assert(n == s.len());
    }
}

/// Removing trailing zeros keeps the denoted number, shortens the sequence at
/// most, and leaves no trailing zero.
pub proof fn lemma_trim(s: Seq<u64>)
    ensures
        seq_value(trim(s)) == seq_value(s),
        trim(s).len() <= s.len(),
        trim(s).len() == 0 || trim(s).last() != 0,
        trim(s) == s.subrange(0, trim(s).len() as int),
    decreases s.len(),
{
    if s.len() == 0 || s.last() != 0 {
    } else {
        lemma_trim(s.drop_last());
        assert(forall|i: int|
            0 <= i < s.len() - 1 ==> digit_at(s.drop_last(), i) == digit_at(s, i));
        lemma_prefix_value_congruent(s.drop_last(), s, s.len() - 1);
        assert(digit_at(s, s.len() - 1) == 0);
        assert(seq_value(s.drop_last()) == seq_value(s));
        assert(trim(s.drop_last()) == s.drop_last().subrange(0, trim(s.drop_last()).len() as int));
        assert(trim(s) =~= s.subrange(0, trim(s).len() as int));
    }
}

/// A natural number as a vector of base-2^64 digits, least significant first.
#[derive(Clone, PartialEq, Eq, Debug)]
pub struct BigInt {
    pub data: Vec<u64>,
}

impl BigInt {
    /// No trailing zero digit: the representation is canonical.
    pub open spec fn wf(self) -> bool {
        self.data@.len() == 0 || self.data@.last() != 0
    }

    /// The number this value denotes.
    pub open spec fn value(self) -> nat {
        seq_value(self.data@)
    }

    pub fn new(x: u64) -> (r: Self)
        ensures
            r.wf(),
            r.value() == x,
    {
        if x == 0 {
            let r = Self { data: vec![] };
            proof {
                assert(r.data@.len() == 0);
            }
            r
        } else {
            let r = Self { data: vec![x] };
            proof {
                assert(r.data@ =~= seq![x]);
                assert(pow64(0) == 1);
                assert(prefix_value(r.data@, 0) == 0);
                assert(digit_at(r.data@, 0) == x as nat);
                assert(r.value() == prefix_value(r.data@, 0) + digit_at(r.data@, 0) * pow64(0));
                assert(x as nat * 1 == x as nat) by (nonlinear_arith);
            }
            r
        }
    }

    /// Reports whether the representation is canonical.
    pub fn test_invariant(&self) -> (r: bool)
        ensures
            r == self.wf(),
    {
        if self.data.len() == 0 {
            true
        } else {
            self.data[self.data.len() - 1] != 0
        }
    }

    /// Builds a number from any little-endian digit vector by dropping
    /// trailing zeros.
    pub fn from_vec(v: Vec<u64>) -> (r: Self)
        ensures
            r.wf(),
            r.value() == seq_value(v@),
            r.data@ == trim(v@),
    {
        let ghost v0 = v@;
        let mut v = v;
        while v.len() > 0 && v[v.len() - 1] == 0
            invariant
                trim(v@) == trim(v0),
            decreases v@.len(),
        {
            proof {
                assert(v@.drop_last() =~= v@.subrange(0, v@.len() - 1));
            }
            v.pop();
        }
        proof {
            assert(trim(v@) == v@);
            lemma_trim(v0);
        }
        Self { data: v }
    }

    pub fn len(&self) -> (r: usize)
        ensures
            r == self.data@.len(),
    {
        self.data.len()
    }

    /// How many digit positions hold a non-zero digit.
    pub fn non_zero_digits(&self) -> (r: usize)
        ensures
            r == count_nonzero(self.data@),
    {
        let mut count: usize = 0;
        let mut i: usize = 0;
        proof {
            lemma_count_nonzero_bound(self.data@, 0);
        }
        while i < self.data.len()
            invariant
                i <= self.data@.len(),
                count == count_nonzero(self.data@.subrange(0, i as int)),
                count <= i,
            decreases self.data@.len() - i,
        {
            proof {
                assert(self.data@.subrange(0, i + 1).drop_last() =~= self.data@.subrange(
                    0,
                    i as int,
                ));
            }
            if self.data[i] != 0 {
                count = count + 1;
            }
            i = i + 1;
        }
        proof {
            assert(self.data@.subrange(0, self.data@.len() as int) =~= self.data@);
        }
        count
    }

    /// The least digit, or `None` when there are no digits.
    pub fn smallest(&self) -> (r: Option<u64>)
        ensures
            match r {
                None => self.data@.len() == 0,
                Some(m) => self.data@.len() > 0 && (exists|i: int|
                    0 <= i < self.data@.len() && self.data@[i] == m) && (forall|i: int|
                    0 <= i < self.data@.len() ==> m <= self.data@[i]),
            },
    {
        if self.data.len() == 0 {
            return None;
        }
        let mut min = self.data[0];
        let mut i: usize = 0;
        while i < self.data.len()
            invariant
                i <= self.data@.len(),
                self.data@.len() > 0,
                exists|j: int| 0 <= j < self.data@.len() && self.data@[j] == min,
                forall|j: int| 0 <= j < i ==> min <= self.data@[j],
            decreases self.data@.len() - i,
        {
            let e = self.data[i];
            if e < min {
                min = e;
            }
            i = i + 1;
        }
        Some(min)
    }

    /// The greatest digit, or `None` when there are no digits.
    pub fn largest(&self) -> (r: Option<u64>)
        ensures
            match r {
                None => self.data@.len() == 0,
                Some(m) => self.data@.len() > 0 && (exists|i: int|
                    0 <= i < self.data@.len() && self.data@[i] == m) && (forall|i: int|
                    0 <= i < self.data@.len() ==> self.data@[i] <= m),
            },
    {
        if self.data.len() == 0 {
            return None;
        }
        let mut max = self.data[0];
        let mut i: usize = 0;
        while i < self.data.len()
            invariant
                i <= self.data@.len(),
                self.data@.len() > 0,
                exists|j: int| 0 <= j < self.data@.len() && self.data@[j] == max,
                forall|j: int| 0 <= j < i ==> self.data@[j] <= max,
            decreases self.data@.len() - i,
        {
            let e = self.data[i];
            if e > max {
                max = e;
            }
            i = i + 1;
        }
        Some(max)
    }
}

/// How many entries of `s` are non-zero.
pub open spec fn count_nonzero(s: Seq<u64>) -> nat
    decreases s.len(),
{
    if s.len() == 0 {
        0
    } else {
        count_nonzero(s.drop_last()) + if s.last() != 0 {
            1nat
        } else {
            0nat
        }
    }
}

proof fn lemma_count_nonzero_bound(s: Seq<u64>, n: int)
    ensures
        forall|i: int| 0 <= i <= s.len() ==> count_nonzero(#[trigger] s.subrange(0, i)) <= i,
    decreases s.len(),
{
    assert forall|i: int| 0 <= i <= s.len() implies count_nonzero(#[trigger] s.subrange(0, i)) <= i by {
        lemma_count_prefix_bound(s, i);
    }
}

proof fn lemma_count_prefix_bound(s: Seq<u64>, i: int)
    requires
        0 <= i <= s.len(),
    ensures
        count_nonzero(s.subrange(0, i)) <= i,
    decreases i,
{
    if i > 0 {
        lemma_count_prefix_bound(s, i - 1);
        assert(s.subrange(0, i).drop_last() =~= s.subrange(0, i - 1));
    }
}

/// Two equal digit vectors built by cloning one source.
pub fn clone_demo() -> (r: (BigInt, BigInt))
    ensures
        r.0.data@ == r.1.data@,
        r.0.value() == r.1.value(),
        r.0.wf(),
{
    let v: Vec<u64> = vec![0, 1 << 16];
    let w = v.clone();
    proof {
        assert(w@ =~= v@);
    }
    let b1 = BigInt::from_vec(w);
    let b2 = BigInt::from_vec(v);
    (b1, b2)
}

} // verus!
