//! Closures that capture their environment: a shirt giveaway, a shoe
//! filter, and a rectangle handed to a transformation.

use vstd::prelude::*;

verus! {

/// The colour of a shirt.
#[derive(Debug, Clone, Copy, PartialEq, Eq, Structural)]
pub enum ShirtColor {
    Red,
    Blue,
}

/// How many shirts of `shirts` have colour `c`.
pub open spec fn shirts_of(shirts: Seq<ShirtColor>, c: ShirtColor) -> nat
    decreases shirts.len(),
{
    if shirts.len() == 0 {
        0
    } else {
        shirts_of(shirts.drop_last(), c) + if shirts.last() == c {
            1nat
        } else {
            0nat
        }
    }
}

/// The colour a store has most of: red when it has at least as many red
/// shirts as blue ones, else blue.
pub open spec fn most_stocked_of(shirts: Seq<ShirtColor>) -> ShirtColor {
    if shirts_of(shirts, ShirtColor::Red) >= shirts_of(shirts, ShirtColor::Blue) {
        ShirtColor::Red
    } else {
        ShirtColor::Blue
    }
}

/// The shirts a store has in stock.
pub struct Inventory {
    pub shirts: Vec<ShirtColor>,
}

impl Inventory {
    /// The shirt given away: the colour the user prefers, if any, else the
    /// colour the store has most of.
    pub fn giveaway(&self, user_preference: Option<ShirtColor>) -> (r: ShirtColor)
        ensures
            r == match user_preference {
                Some(c) => c,
                None => most_stocked_of(self.shirts@),
            },
    {
        match user_preference {
            Some(c) => c,
            None => self.most_stocked(),
        }
    }

    /// The colour the store has most of; red on a tie.
    pub fn most_stocked(&self) -> (r: ShirtColor)
        ensures
            r == most_stocked_of(self.shirts@),
    {
        let mut num_red: usize = 0;
        let mut num_blue: usize = 0;
        let mut i: usize = 0;
        while i < self.shirts.len()
            invariant
                i <= self.shirts.len(),
                num_red == shirts_of(self.shirts@.take(i as int), ShirtColor::Red),
                num_blue == shirts_of(self.shirts@.take(i as int), ShirtColor::Blue),
                num_red + num_blue == i,
            decreases self.shirts.len() - i,
        {
            assert(self.shirts@.take(i + 1).drop_last() =~= self.shirts@.take(i as int));
            match self.shirts[i] {
                ShirtColor::Red => num_red += 1,
                ShirtColor::Blue => num_blue += 1,
            }
            i += 1;
        }
        assert(self.shirts@.take(self.shirts.len() as int) =~= self.shirts@);
        if num_red >= num_blue {
            ShirtColor::Red
        } else {
            ShirtColor::Blue
        }
    }
}

/// A shoe of some size and style.
#[derive(PartialEq, Debug)]
pub struct Shoe {
    pub size: u32,
    pub style: String,
}

/// The shoes of `shoes` whose size is `shoe_size`, in order.
pub fn shoes_in_size(shoes: Vec<Shoe>, shoe_size: u32) -> (r: Vec<Shoe>)
    ensures
        r@ == shoes@.filter(|s: Shoe| s.size == shoe_size),
{
    let ghost pred = |s: Shoe| s.size == shoe_size;
    let ghost all = shoes@;
    let mut out: Vec<Shoe> = Vec::new();
    for s in it: shoes.into_iter()
        invariant
            pred == (|s: Shoe| s.size == shoe_size),
            it.seq() == all,
            out@ == all.take(it.index() as int).filter(pred),
    {
        proof {
            assert(all.take(it.index() + 1) =~= all.take(it.index() as int).push(s));
            all.take(it.index() as int).lemma_filter_push(s, pred);
        }
        if s.size == shoe_size {
            out.push(s);
        }
    }
    assert(all.take(all.len() as int) =~= all);
    out
}

/// A closure that makes a new `String` of `s_ref` each time it is called;
/// it borrows `s_ref` for as long as it lives.
pub fn make_a_cloner<'a>(s_ref: &'a str) -> (r: impl Fn() -> String + 'a)
    ensures
        forall|out: String| r.ensures((), out) ==> out@ == s_ref@,
        r.requires(()),
{
    move || -> (out: String)
        ensures
            out@ == s_ref@,
        { s_ref.to_owned() }
}

/// A rectangle with integer sides.
#[derive(Debug)]
pub struct Rectangle {
    pub width: u32,
    pub height: u32,
}

impl Rectangle {
    /// Whether `other` fits strictly inside this rectangle, sides parallel.
    pub fn can_hold(&self, other: &Rectangle) -> (r: bool)
        ensures
            r == (self.width > other.width && self.height > other.height),
    {
        self.width > other.width && self.height > other.height
    }

    /// The rectangle that `f` makes of this one.
    pub fn modify<F>(self, f: F) -> (r: Rectangle)
        where
            F: FnOnce(Rectangle) -> Rectangle,
        requires
            f.requires((self,)),
        ensures
            f.ensures((self,), r),
    {
        f(self)
    }
}

} // verus!
