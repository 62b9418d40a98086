//! A generic optional value, a minimum over any type that has one, and a
//! small rendering trait.

use vstd::prelude::*;
use crate::decimal::{dec_str_signed, push_dec_i32};

verus! {

/// Either a value or nothing; a hand-rolled `Option<T>`.
#[derive(Clone, PartialEq, Eq, Debug)]
pub enum SomethingOrNothing<T> {
    Something(T),
    Nothing,
}

/// A number or a piece of text.
#[derive(PartialEq, Eq, Debug)]
pub enum Variant {
    Number(i32),
    Text(String),
}

/// Overwrites the number held by a numeric variant; a text variant is kept
/// as it is.
pub fn work_on_variant(var: Variant, text: String) -> (r: Variant)
    ensures
        match var {
            Variant::Number(_) => r == Variant::Number(1337i32),
            Variant::Text(t) => r == Variant::Text(t),
        },
{
    let _ = text;
    match var {
        Variant::Number(_) => Variant::Number(1337),
        Variant::Text(t) => Variant::Text(t),
    }
}

impl<T> SomethingOrNothing<T> {
    pub fn new(o: Option<T>) -> (r: Self)
        ensures
            match o {
                Some(t) => r == SomethingOrNothing::Something(t),
                None => r == SomethingOrNothing::<T>::Nothing,
            },
    {
        match o {
            Some(t) => SomethingOrNothing::Something(t),
            None => SomethingOrNothing::Nothing,
        }
    }

    pub fn to_option(self) -> (r: Option<T>)
        ensures
            match self {
                SomethingOrNothing::Something(t) => r == Some(t),
                SomethingOrNothing::Nothing => r == None::<T>,
            },
    {
        match self {
            SomethingOrNothing::Something(t) => Some(t),
            SomethingOrNothing::Nothing => None,
        }
    }
}

pub fn call_constructor(x: i32) -> (r: SomethingOrNothing<i32>)
    ensures
        r == SomethingOrNothing::Something(x),
{
    SomethingOrNothing::new(Some(x))
}

/// Types with a least-of-two operation.
pub trait Minimum: Copy + Sized {
    /// What `min` returns on this pair.
    spec fn min_spec(self, b: Self) -> Self;

    fn min(self, b: Self) -> (r: Self)
        ensures
            r == self.min_spec(b),
            r == self || r == b,
    ;
}

impl Minimum for i32 {
    open spec fn min_spec(self, b: Self) -> Self {
        if self < b {
            self
        } else {
            b
        }
    }

    fn min(self, b: Self) -> (r: Self) {
        if self < b {
            self
        } else {
            b
        }
    }
}

/// The fold of `min` over a non-empty sequence, accumulating from the front
/// and taking each new element as the left operand.
pub open spec fn fold_min<T: Minimum>(s: Seq<T>) -> T
    recommends
        s.len() > 0,
    decreases s.len(),
{
    if s.len() <= 1 {
        s[0]
    } else {
        s.last().min_spec(fold_min(s.drop_last()))
    }
}

/// The least element of the vector under `min`, or `Nothing` when it is empty.
pub fn vec_min<T: Minimum>(v: Vec<T>) -> (r: SomethingOrNothing<T>)
    ensures
        match r {
            SomethingOrNothing::Nothing => v@.len() == 0,
            SomethingOrNothing::Something(m) => v@.len() > 0 && m == fold_min(v@) && (exists|i: int|
                0 <= i < v@.len() && m == v@[i]),
        },
{
    let mut min = SomethingOrNothing::Nothing;
    let mut i: usize = 0;
    while i < v.len()
        invariant
            i <= v@.len(),
            match min {
                SomethingOrNothing::Nothing => i == 0,
                SomethingOrNothing::Something(m) => i > 0 && m == fold_min(v@.subrange(0, i as int))
                    && (exists|j: int| 0 <= j < i && m == v@[j]),
            },
        decreases v@.len() - i,
    {
        let e = v[i];
        min = SomethingOrNothing::Something(
            match min {
                SomethingOrNothing::Nothing => e,
                SomethingOrNothing::Something(n) => e.min(n),
            },
        );
        proof {
            assert(v@.subrange(0, i + 1).drop_last() =~= v@.subrange(0, i as int));
        }
        i = i + 1;
    }
    proof {
        assert(v@.subrange(0, v@.len() as int) =~= v@);
    }
    min
}

/// On `i32`, the fold of `min` is a least element of the sequence.
pub proof fn lemma_fold_min_is_least(s: Seq<i32>)
    requires
        s.len() > 0,
    ensures
        forall|i: int| 0 <= i < s.len() ==> fold_min(s) <= s[i],
    decreases s.len(),
{
    if s.len() > 1 {
        lemma_fold_min_is_least(s.drop_last());
        assert(forall|i: int| 0 <= i < s.len() - 1 ==> s.drop_last()[i] == s[i]);
    }
}

/// Types that render themselves as a line of text.
pub trait Print: Sized {
    /// The rendering `print` returns.
    spec fn print_spec(self) -> Seq<char>;

    fn print(self) -> (s: String)
        ensures
            s@ == self.print_spec(),
    ;
}

impl Print for i32 {
    open spec fn print_spec(self) -> Seq<char> {
        ("The i32 is: ")@ + dec_str_signed(self as int)
    }

    fn print(self) -> (s: String)
        ensures
            s@ == self.print_spec(),
    {
        let mut s = String::from_str("The i32 is: ");
        push_dec_i32(&mut s, self);
        s
    }
}

impl<T: Print> SomethingOrNothing<T> {
    /// The rendering `print2` returns.
    pub open spec fn print2_spec(self) -> Seq<char> {
        match self {
            SomethingOrNothing::Something(t) => t.print_spec(),
            SomethingOrNothing::Nothing => ("There is nothing.")@,
        }
    }

    /// Renders the value through the `Print` trait.
    pub fn print2(self) -> (s: String)
        ensures
            s@ == self.print2_spec(),
    {
        match self {
            SomethingOrNothing::Something(t) => t.print(),
            SomethingOrNothing::Nothing => String::from_str("There is nothing."),
        }
    }
}

impl SomethingOrNothing<i32> {
    /// The rendering `print` returns.
    pub open spec fn print_line_spec(self) -> Seq<char> {
        match self {
            SomethingOrNothing::Something(n) => ("The number is: ")@ + dec_str_signed(n as int),
            SomethingOrNothing::Nothing => ("The number is: <nothing>")@,
        }
    }

    /// Renders the value as the line the tool reports.
    pub fn print(self) -> (s: String)
        ensures
            s@ == self.print_line_spec(),
    {
        match self {
            SomethingOrNothing::Something(n) => {
                let mut s = String::from_str("The number is: ");
                push_dec_i32(&mut s, n);
                s
            },
            SomethingOrNothing::Nothing => String::from_str("The number is: <nothing>"),
        }
    }
}

/// A fixed sample input.
pub fn read_vec() -> (r: Vec<i32>)
    ensures
        r@ =~= seq![18i32, 5i32, 7i32, 3i32, 9i32, 27i32],
{
    vec![18, 5, 7, 3, 9, 27]
}

} // verus!
