//! Addition and subtraction on `BigInt`, digit by digit with carry and
//! borrow chains.

use vstd::prelude::*;
use crate::bigint::{
    base64, digit_at, lemma_prefix_value_congruent, lemma_prefix_value_stable, pow64, prefix_value,
    seq_value, BigInt,
};

verus! {

/// Adds two digits and an incoming carry; the pair is the low digit and the
/// outgoing carry.
pub fn overflowing_add(a: u64, b: u64, carry: bool) -> (r: (u64, bool))
    ensures
        r.0 as int + (if r.1 {
            base64() as int
        } else {
            0
        }) == a as int + b as int + (if carry {
            1int
        } else {
            0
        }),
{
    let sum = a.wrapping_add(b);
    if sum >= a {
        if carry {
            let sum2 = sum.wrapping_add(1);
            if sum2 >= sum {
                (sum2, false)
            } else {
                (sum2, true)
            }
        } else {
            (sum, false)
        }
    } else {
        (sum + if carry {
            1
        } else {
            0
        }, true)
    }
}

/// Subtracts a digit and an incoming borrow from a digit; the pair is the low
/// digit and the outgoing borrow.
pub fn overflow_sub(a: u64, b: u64, carry: bool) -> (r: (u64, bool))
    ensures
        r.0 as int - (if r.1 {
            base64() as int
        } else {
            0
        }) == a as int - b as int - (if carry {
            1int
        } else {
            0
        }),
        r.1 == (a as int - b as int - (if carry {
            1int
        } else {
            0
        }) < 0),
{
    let diff = a.wrapping_sub(b);
    if diff <= a {
        if carry {
            let diff2 = diff.wrapping_sub(1);
            if diff2 <= diff {
                (diff2, false)
            } else {
                (diff2, true)
            }
        } else {
            (diff, false)
        }
    } else {
        (diff - if carry {
            1
        } else {
            0
        }, true)
    }
}

/// The number denoted by `n` digit positions is below base64^n.
pub proof fn lemma_prefix_value_upper(s: Seq<u64>, n: int)
    requires
        n >= 0,
    ensures
        prefix_value(s, n) < pow64(n as nat),
    decreases n,
{
    if n == 0 {
        assert(pow64(0) == 1);
    } else {
        lemma_prefix_value_upper(s, n - 1);
        let p = pow64((n - 1) as nat);
        let d = digit_at(s, n - 1);
        assert(d < base64());
        assert(pow64(n as nat) == base64() * p);
        assert(prefix_value(s, n) == prefix_value(s, n - 1) + d * p);
        assert(prefix_value(s, n - 1) + d * p < base64() * p) by (nonlinear_arith)
            requires
                prefix_value(s, n - 1) < p,
                d < base64(),
                p >= 0,
        ;
    }
}

/// base64^m grows with m.
pub proof fn lemma_pow64_monotone(m: nat, n: nat)
    requires
        m <= n,
    ensures
        pow64(m) <= pow64(n),
    decreases n,
{
    if m < n {
        lemma_pow64_monotone(m, (n - 1) as nat);
        assert(base64() * pow64((n - 1) as nat) >= pow64((n - 1) as nat)) by (nonlinear_arith)
            requires
                pow64((n - 1) as nat) >= 0,
        ;
    }
}

/// A canonical, non-empty digit sequence denotes at least base64^(len-1).
pub proof fn lemma_value_lower(s: Seq<u64>)
    requires
        s.len() > 0,
        s.last() != 0,
    ensures
        seq_value(s) >= pow64((s.len() - 1) as nat),
{
    let n = s.len() as int;
    let p = pow64((n - 1) as nat);
    let d = digit_at(s, n - 1);
    assert(d >= 1);
    assert(d * p >= 1 * p) by (nonlinear_arith)
        requires
            d >= 1,
            p >= 0,
    ;
    assert(seq_value(s) == prefix_value(s, n - 1) + d * p);
}

impl BigInt {
    /// The sum of the two numbers.
    pub fn add(&self, rhs: &BigInt) -> (r: BigInt)
        ensures
            r.wf(),
            r.value() == self.value() + rhs.value(),
    {
        let max_len = if self.data.len() < rhs.data.len() {
            rhs.data.len()
        } else {
            self.data.len()
        };
        let mut result_vec: Vec<u64> = Vec::with_capacity(max_len);
        let mut carry = false;
        let mut i: usize = 0;
        while i < max_len
            invariant
                i <= max_len,
                max_len == if self.data@.len() < rhs.data@.len() {
                    rhs.data@.len()
                } else {
                    self.data@.len()
                },
                result_vec@.len() == i,
                prefix_value(result_vec@, i as int) + (if carry {
                    pow64(i as nat)
                } else {
                    0
                }) == prefix_value(self.data@, i as int) + prefix_value(rhs.data@, i as int),
            decreases max_len - i,
        {
            let lhs_val = if i < self.data.len() {
                self.data[i]
            } else {
                0
            };
            let rhs_val = if i < rhs.data.len() {
                rhs.data[i]
            } else {
                0
            };
            let ghost pre = result_vec@;
            let ghost pre_carry = carry;
            let (sum, new_carry) = overflowing_add(lhs_val, rhs_val, carry);
            result_vec.push(sum);
            proof {
                assert(forall|j: int|
                    0 <= j < i ==> digit_at(result_vec@, j) == digit_at(pre, j));
                lemma_prefix_value_congruent(result_vec@, pre, i as int);
                let p = pow64(i as nat);
                let cin: nat = if pre_carry {
                    1
                } else {
                    0
                };
                let cout: nat = if new_carry {
                    1
                } else {
                    0
                };
                assert(digit_at(self.data@, i as int) == lhs_val as nat);
                assert(digit_at(rhs.data@, i as int) == rhs_val as nat);
                assert(sum as int + cout * base64() == lhs_val as int + rhs_val as int + cin);
                assert(pow64((i + 1) as nat) == base64() * p);
                assert((sum as nat + cout * base64()) * p == sum as nat * p + cout * (base64() * p))
                    by (nonlinear_arith);
                assert((lhs_val as nat + rhs_val as nat + cin) * p == lhs_val as nat * p
                    + rhs_val as nat * p + cin * p) by (nonlinear_arith);
                assert(prefix_value(result_vec@, i + 1) == prefix_value(pre, i as int) + sum as nat
                    * p);
            }
            carry = new_carry;
            i = i + 1;
        }
        proof {
            lemma_prefix_value_stable(self.data@, max_len as int);
            lemma_prefix_value_stable(rhs.data@, max_len as int);
        }
        if carry {
            let ghost pre = result_vec@;
            result_vec.push(1);
            proof {
                assert(forall|j: int|
                    0 <= j < max_len ==> digit_at(result_vec@, j) == digit_at(pre, j));
                lemma_prefix_value_congruent(result_vec@, pre, max_len as int);
                assert(digit_at(result_vec@, max_len as int) == 1);
                assert(seq_value(result_vec@) == prefix_value(pre, max_len as int) + 1 * pow64(
                    max_len as nat,
                ));
            }
        }
        BigInt::from_vec(result_vec)
    }

    /// The difference of the two numbers, or `None` when the right one is
    /// greater.
    pub fn sub(&self, rhs: &BigInt) -> (r: Option<BigInt>)
        requires
            self.wf(),
            rhs.wf(),
        ensures
            match r {
                Some(d) => d.wf() && rhs.value() <= self.value() && d.value() == self.value()
                    - rhs.value(),
                None => self.value() < rhs.value(),
            },
    {
        if rhs.data.len() > self.data.len() {
            proof {
                lemma_prefix_value_upper(self.data@, self.data@.len() as int);
                lemma_value_lower(rhs.data@);
                lemma_pow64_monotone(self.data@.len() as nat, (rhs.data@.len() - 1) as nat);
            }
            return None;
        }
        let mut carry = false;
        let mut result_vec: Vec<u64> = Vec::with_capacity(self.data.len());
        let mut i: usize = 0;
        while i < self.data.len()
            invariant
                i <= self.data@.len(),
                rhs.data@.len() <= self.data@.len(),
                result_vec@.len() == i,
                prefix_value(result_vec@, i as int) == prefix_value(self.data@, i as int)
                    - prefix_value(rhs.data@, i as int) + (if carry {
                    pow64(i as nat) as int
                } else {
                    0
                }),
            decreases self.data@.len() - i,
        {
            let lhs_val = self.data[i];
            let rhs_val = if i < rhs.data.len() {
                rhs.data[i]
            } else {
                0
            };
            let ghost pre = result_vec@;
            let ghost pre_carry = carry;
            let (diff, new_carry) = overflow_sub(lhs_val, rhs_val, carry);
            result_vec.push(diff);
            proof {
                assert(forall|j: int|
                    0 <= j < i ==> digit_at(result_vec@, j) == digit_at(pre, j));
                lemma_prefix_value_congruent(result_vec@, pre, i as int);
                let p = pow64(i as nat);
                let cin: nat = if pre_carry {
                    1
                } else {
                    0
                };
                let cout: nat = if new_carry {
                    1
                } else {
                    0
                };
                assert(digit_at(self.data@, i as int) == lhs_val as nat);
                assert(digit_at(rhs.data@, i as int) == rhs_val as nat);
                assert(diff as int - cout * base64() == lhs_val as int - rhs_val as int - cin);
                assert(pow64((i + 1) as nat) == base64() * p);
                assert((diff as int - cout * base64()) * p == diff as int * p - cout * (base64()
                    * p)) by (nonlinear_arith);
                assert((lhs_val as int - rhs_val as int - cin) * p == lhs_val as int * p
                    - rhs_val as int * p - cin * p) by (nonlinear_arith);
                assert(prefix_value(result_vec@, i + 1) == prefix_value(pre, i as int) + diff as nat
                    * p);
            }
            carry = new_carry;
            i = i + 1;
        }
        proof {
            lemma_prefix_value_stable(rhs.data@, self.data@.len() as int);
        }
        if carry {
            proof {
                lemma_prefix_value_upper(result_vec@, self.data@.len() as int);
            }
            return None;
        }
        Some(BigInt::from_vec(result_vec))
    }
}

} // verus!
