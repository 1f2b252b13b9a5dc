//! Small arithmetic functions, a greeting, and a guess that must lie
//! between 1 and 100.

use vstd::prelude::*;
use vstd::string::StringExecFns;

verus! {

/// The sum of `left` and `right`.
pub fn add(left: u64, right: u64) -> (r: u64)
    requires
        left + right <= u64::MAX,
    ensures
        r == left + right,
{
    left + right
}

/// `a` plus two.
pub fn add_two(a: usize) -> (r: usize)
    requires
        a + 2 <= usize::MAX,
    ensures
        r == a + 2,
{
    a + 2
}

/// `x` plus one.
pub fn add_one(x: i32) -> (r: i32)
    requires
        x < i32::MAX,
    ensures
        r == x + 1,
{
    x + 1
}

/// "Hello", a space, `name` and an exclamation mark.
pub fn greeting(name: &str) -> (r: String)
    ensures
        r@ == "Hello "@ + name@ + "!"@,
{
    let mut s = String::from_str("Hello ");
    s.append(name);
    s.append("!");
    s
}

/// A guess in the range 1 to 100.
pub struct Guess {
    value: i32,
}

impl Guess {
    /// The number guessed.
    pub closed spec fn view(&self) -> i32 {
        self.value
    }

    /// A guess always lies in its range.
    #[verifier::type_invariant]
    spec fn in_range(&self) -> bool {
        1 <= self.value <= 100
    }

    /// A guess of `value`, which must lie between 1 and 100.
    pub fn new(value: i32) -> (r: Guess)
        requires
            1 <= value <= 100,
        ensures
            r@ == value,
    {
        Guess { value }
    }

    /// The number guessed.
    pub fn value(&self) -> (r: i32)
        ensures
            r == self@,
            1 <= r <= 100,
    {
        proof {
            use_type_invariant(self);
        }
        self.value
    }
}

} // verus!
