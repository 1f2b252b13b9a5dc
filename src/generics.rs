//! Generic functions and types, and functions whose results borrow from
//! their arguments.

use vstd::prelude::*;
use vstd::laws_cmp::obeys_partial_cmp_spec_properties;
use vstd::std_specs::cmp::PartialOrdSpec;
use vstd::string::StrSliceExecFns;
use core::cmp::Ordering;
use crate::text::chars_of;

verus! {

/// Whether values of `T` that compare as equal are the same value.
pub open spec fn equal_is_identity<T: PartialOrd>() -> bool {
    forall|x: T, y: T| #[trigger] x.partial_cmp_spec(&y) == Some(Ordering::Equal) ==> x == y
}

/// The first largest item of a non-empty list: no item is greater than it,
/// and, where equal values are the same value, no earlier item equals it.
pub fn largest<T: PartialOrd>(list: &[T]) -> (r: &T)
    requires
        list@.len() > 0,
    ensures
        exists|i: int|
            0 <= i < list@.len() && list@[i] == *r && (T::obeys_partial_cmp_spec()
                && obeys_partial_cmp_spec_properties::<T>() && equal_is_identity::<T>() ==> forall|j: int|
                0 <= j < i ==> (#[trigger] list@[j]).partial_cmp_spec(r) != Some(Ordering::Equal)),
        T::obeys_partial_cmp_spec() && obeys_partial_cmp_spec_properties::<T>() ==> forall|i: int|
            0 <= i < list@.len() ==> (#[trigger] list@[i]).partial_cmp_spec(r) != Some(Ordering::Greater),
{
    let mut largest = &list[0];
    let ghost mut at: int = 0;
    let mut i: usize = 1;
    proof {
        if T::obeys_partial_cmp_spec() && obeys_partial_cmp_spec_properties::<T>() {
            reveal(obeys_partial_cmp_spec_properties);
            assert(list@[0].partial_cmp_spec(&list@[0]) != Some(Ordering::Greater));
        }
    }
    while i < list.len()
        invariant
            1 <= i <= list@.len(),
            0 <= at < list@.len(),
            list@[at] == *largest,
            T::obeys_partial_cmp_spec() && obeys_partial_cmp_spec_properties::<T>() && equal_is_identity::<T>()
                ==> forall|j: int|
                0 <= j < at ==> (#[trigger] list@[j]).partial_cmp_spec(largest) != Some(Ordering::Equal),
            T::obeys_partial_cmp_spec() && obeys_partial_cmp_spec_properties::<T>() ==> forall|j: int|
                0 <= j < i ==> (#[trigger] list@[j]).partial_cmp_spec(largest) != Some(Ordering::Greater),
        decreases list@.len() - i,
    {
        let item = &list[i];
        if item.gt(largest) {
            proof {
                if T::obeys_partial_cmp_spec() && obeys_partial_cmp_spec_properties::<T>() {
                    reveal(obeys_partial_cmp_spec_properties);
                    if equal_is_identity::<T>() {
                        assert forall|j: int| 0 <= j < i implies (#[trigger] list@[j]).partial_cmp_spec(item)
                            != Some(Ordering::Equal) by {
                            if list@[j].partial_cmp_spec(item) == Some(Ordering::Equal) {
                                assert(list@[j] == *item);
                            }
                        }
                    }
                }
            }
            largest = item;
            proof {
                at = i as int;
            }
        }
        i += 1;
    }
    largest
}

/// A point in the plane, with coordinates of any one type.
pub struct Point<T> {
    pub x: T,
    pub y: T,
}

impl<T> Point<T> {
    /// The first coordinate.
    pub fn x(&self) -> (r: &T)
        ensures
            *r == self.x,
    {
        &self.x
    }
}

/// A point whose coordinates may have different types.
pub struct Point3<X1, Y1> {
    pub x: X1,
    pub y: Y1,
}

impl<X1, Y1> Point3<X1, Y1> {
    /// The point with this point's first coordinate and `other`'s second.
    pub fn mixup<X2, Y2>(self, other: Point3<X2, Y2>) -> (r: Point3<X1, Y2>)
        ensures
            r.x == self.x,
            r.y == other.y,
    {
        Point3 { x: self.x, y: other.y }
    }
}

/// A pair of values of one type.
pub struct Pair<T> {
    pub x: T,
    pub y: T,
}

impl<T> Pair<T> {
    /// The pair of `x` and `y`.
    pub fn new(x: T, y: T) -> (r: Self)
        ensures
            r.x == x,
            r.y == y,
    {
        Self { x, y }
    }
}

impl<T: PartialOrd> Pair<T> {
    /// The larger member of the pair: `x` when it is at least `y`, else `y`.
    pub fn largest_member(&self) -> (r: &T)
        ensures
            T::obeys_partial_cmp_spec() ==> *r == if self.x.partial_cmp_spec(&self.y) matches Some(
                Ordering::Greater | Ordering::Equal,
            ) {
                self.x
            } else {
                self.y
            },
    {
        if self.x.ge(&self.y) {
            &self.x
        } else {
            &self.y
        }
    }
}

/// The longer of two strings, counted in bytes; `y` when they are equally
/// long.
pub fn longest_string<'a>(x: &'a str, y: &'a str) -> (r: &'a str)
    ensures
        r == if x.len() > y.len() {
            x
        } else {
            y
        },
{
    if x.len() > y.len() {
        x
    } else {
        y
    }
}

/// The first argument; the result borrows from it alone.
pub fn only_one_parameter_has_lifetime<'a>(x: &'a str, y: &str) -> (r: &'a str)
    ensures
        r == x,
{
    x
}

/// The reference it is given.
pub fn foo(x: &i32) -> (r: &i32)
    ensures
        r == x,
{
    x
}

/// A value holding an integer.
pub struct Foo {
    pub x: i32,
}

impl Foo {
    /// The reference it is given, not one into `self`.
    pub fn bar<'a>(&self, x: &'a i32) -> (r: &'a i32)
        ensures
            r == x,
    {
        x
    }
}

/// A part of a text, borrowed from it.
pub struct ImportantExcerpt<'a> {
    pub part: &'a str,
}

/// The characters of `s` before the first `c`; all of `s` when there is
/// none.
pub open spec fn before_first(s: Seq<char>, c: char) -> Seq<char>
    decreases s.len(),
{
    if s.len() == 0 || s[0] == c {
        seq![]
    } else {
        seq![s[0]] + before_first(s.drop_first(), c)
    }
}

proof fn lemma_before_first(s: Seq<char>, c: char, k: int)
    requires
        0 <= k <= s.len(),
        forall|j: int| 0 <= j < k ==> s[j] != c,
        k == s.len() || s[k] == c,
    ensures
        before_first(s, c) == s.take(k),
    decreases s.len(),
{
    if s.len() > 0 && s[0] != c {
        lemma_before_first(s.drop_first(), c, k - 1);
        assert(seq![s[0]] + s.drop_first().take(k - 1) =~= s.take(k));
    } else {
        assert(s.take(k) =~= Seq::<char>::empty());
    }
}

/// The excerpt of `novel` up to its first full stop: its first sentence.
pub fn use_important_excerpt<'a>(novel: &'a str) -> (r: ImportantExcerpt<'a>)
    ensures
        r.part@ == before_first(novel@, '.'),
{
    let cs = chars_of(novel);
    let mut k: usize = 0;
    while k < cs.len() && cs[k] != '.'
        invariant
            k <= cs.len(),
            cs@ == novel@,
            forall|j: int| 0 <= j < k ==> cs@[j] != '.',
        decreases cs.len() - k,
    {
        k += 1;
    }
    proof {
        lemma_before_first(novel@, '.', k as int);
    }
    let first_sentence = novel.substring_char(0, k);
    assert(first_sentence@ =~= novel@.take(k as int));
    ImportantExcerpt { part: first_sentence }
}

} // verus!
