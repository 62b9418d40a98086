//! Warm-up arithmetic on `i32` values and a hand-rolled optional number.

use vstd::prelude::*;

verus! {

/// Either a number or nothing; a hand-rolled `Option<i32>`.
#[derive(PartialEq, Eq, Debug)]
pub enum NumberOrNothing {
    Number(i32),
    Nothing,
}

pub fn sqr(i: i32) -> (r: i32)
    requires
        i * i <= i32::MAX,
        i32::MIN <= i * i,
    ensures
        r == i * i,
{
    i * i
}

pub fn abs(i: i32) -> (r: i32)
    requires
        i != i32::MIN,
    ensures
        r == if i >= 0 { i as int } else { -(i as int) },
{
    if i >= 0 {
        i
    } else {
        -i
    }
}

pub fn number_or_default(n: NumberOrNothing, default: i32) -> (r: i32)
    ensures
        r == match n {
            NumberOrNothing::Number(v) => v,
            NumberOrNothing::Nothing => default,
        },
{
    match n {
        NumberOrNothing::Nothing => default,
        NumberOrNothing::Number(v) => v,
    }
}

pub fn compute_stuff(x: i32) -> (r: i32)
    requires
        x * x + 14 <= i32::MAX,
        (x * x + 14) * (x * x + 14) <= i32::MAX,
    ensures
        r == (x * x + 14) * (x * x + 14),
{
    proof {
        assert(0 <= x * x) by (nonlinear_arith);
    }
    let y = {
        let z = x * x;
        z + 14
    };
    y * y
}

impl NumberOrNothing {
    /// The rendering `print` returns.
    pub open spec fn print_spec(self) -> Seq<char> {
        match self {
            NumberOrNothing::Number(n) => ("The number is: ")@ + crate::decimal::dec_str_signed(
                n as int,
            ),
            NumberOrNothing::Nothing => ("The number is: <nothing>")@,
        }
    }

    /// Renders the value as the line the tool reports.
    pub fn print(self) -> (s: String)
        ensures
            s@ == self.print_spec(),
    {
        match self {
            NumberOrNothing::Number(n) => {
                let mut s = String::from_str("The number is: ");
                crate::decimal::push_dec_i32(&mut s, n);
                s
            },
            NumberOrNothing::Nothing => String::from_str("The number is: <nothing>"),
        }
    }

    pub fn number_or_default(self, default: i32) -> (r: i32)
        ensures
            r == match self {
                NumberOrNothing::Number(v) => v,
                NumberOrNothing::Nothing => default,
            },
    {
        match self {
            NumberOrNothing::Nothing => default,
            NumberOrNothing::Number(v) => v,
        }
    }
}

/// The least element of a non-empty sequence.
pub open spec fn seq_min(s: Seq<i32>) -> int
    recommends
        s.len() > 0,
    decreases s.len(),
{
    if s.len() <= 1 {
        s[0] as int
    } else if s.last() < seq_min(s.drop_last()) {
        s.last() as int
    } else {
        seq_min(s.drop_last())
    }
}

fn min_i32(a: i32, b: i32) -> (r: i32)
    ensures
        r == if a < b { a } else { b },
{
    if a < b {
        a
    } else {
        b
    }
}

/// The least element of the vector, or `Nothing` when it is empty.
pub fn vec_min(v: Vec<i32>) -> (r: NumberOrNothing)
    ensures
        match r {
            NumberOrNothing::Nothing => v@.len() == 0,
            NumberOrNothing::Number(m) => v@.len() > 0 && m == seq_min(v@),
        },
{
    let mut min = NumberOrNothing::Nothing;
    let mut i: usize = 0;
    while i < v.len()
        invariant
            i <= v@.len(),
            match min {
                NumberOrNothing::Nothing => i == 0,
                NumberOrNothing::Number(m) => i > 0 && m == seq_min(v@.subrange(0, i as int)),
            },
        decreases v@.len() - i,
    {
        let e = v[i];
        min = NumberOrNothing::Number(min_i32(e, min.number_or_default(e)));
        proof {
            assert(v@.subrange(0, i + 1).drop_last() =~= v@.subrange(0, i as int));
        }
        i = i + 1;
    }
    proof {
        assert(v@.subrange(0, v@.len() as int) =~= v@);
    }
    min
}

/// The sum of the first `n` elements, as an unbounded integer.
pub open spec fn seq_sum(s: Seq<i32>) -> int
    decreases s.len(),
{
    if s.len() == 0 {
        0
    } else {
        seq_sum(s.drop_last()) + s.last()
    }
}

/// The sum of all elements, or `Nothing` when the vector is empty.
/// Every partial sum must stay within `i32` bounds, as the additions
/// are performed in order.
pub fn vec_sum(v: Vec<i32>) -> (r: NumberOrNothing)
    requires
        forall|i: int|
            0 <= i <= v@.len() ==> i32::MIN <= seq_sum(#[trigger] v@.subrange(0, i)) <= i32::MAX,
    ensures
        match r {
            NumberOrNothing::Nothing => v@.len() == 0,
            NumberOrNothing::Number(m) => v@.len() > 0 && m == seq_sum(v@),
        },
{
    let mut sum = NumberOrNothing::Nothing;
    let mut i: usize = 0;
    while i < v.len()
        invariant
            i <= v@.len(),
            forall|j: int|
                0 <= j <= v@.len() ==> i32::MIN <= seq_sum(#[trigger] v@.subrange(0, j)) <= i32::MAX,
            match sum {
                NumberOrNothing::Nothing => i == 0,
                NumberOrNothing::Number(m) => i > 0 && m == seq_sum(v@.subrange(0, i as int)),
            },
        decreases v@.len() - i,
    {
        let e = v[i];
        proof {
            assert(v@.subrange(0, i + 1).drop_last() =~= v@.subrange(0, i as int));
            assert(v@.subrange(0, i + 1).last() == v@[i as int]);
        }
        sum = NumberOrNothing::Number(match sum {
            NumberOrNothing::Number(s) => s + e,
            NumberOrNothing::Nothing => e,
        });
        i = i + 1;
    }
    proof {
        assert(v@.subrange(0, v@.len() as int) =~= v@);
    }
    sum
}

/// A fixed sample input.
pub fn read_vec() -> (r: Vec<i32>)
    ensures
        r@ =~= seq![18i32, 5i32, 7i32, 2i32, 9i32, 27i32],
{
    vec![18, 5, 7, 2, 9, 27]
}

} // verus!
