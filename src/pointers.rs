//! Smart pointers: a list whose tail is boxed, a box of one's own, and a
//! tracker that warns through a messenger as a value nears its limit.

use vstd::prelude::*;

verus! {

/// A list of integers, each tail in a box of its own.
pub enum List {
    Cons(i32, Box<List>),
    Nil,
}

impl List {
    /// The items of the list, in order.
    pub open spec fn items(&self) -> Seq<i32>
        decreases self,
    {
        match self {
            List::Cons(v, tail) => seq![*v] + tail.items(),
            List::Nil => seq![],
        }
    }
}

/// The list 1, 2, 3, built cell by cell.
pub fn cons_list() -> (r: List)
    ensures
        r.items() == seq![1i32, 2, 3],
{
    let list = List::Cons(1, Box::new(List::Cons(2, Box::new(List::Cons(3, Box::new(List::Nil))))));
    proof {
        reveal_with_fuel(List::items, 4);
    }
    assert(list.items() =~= seq![1i32, 2, 3]);
    list
}

/// Following a reference reaches the value it refers to.
pub fn regular_pointer_dereference() {
    let x: i32 = 5;
    let y = &x;
    assert(5 == x);
    assert(5 == *y);
}

/// A box is followed like a reference.
pub fn using_box_t_like_a_reference() {
    let x: i32 = 5;
    let y = Box::new(x);
    assert(5 == x);
    assert(5 == *y);
}

/// A box of one's own around a single value.
pub struct MyBox<T>(pub T);

impl<T> MyBox<T> {
    /// A box holding `x`.
    pub fn new(x: T) -> (r: MyBox<T>)
        ensures
            r.0 == x,
    {
        MyBox(x)
    }
}

impl<T> std::ops::Deref for MyBox<T> {
    type Target = T;

    /// The value in the box.
    fn deref(&self) -> (r: &T)
        ensures
            *r == self.0,
    {
        &self.0
    }
}

/// A value put in a `MyBox` is found there again.
pub fn use_my_box() {
    let x: i32 = 5;
    let y = MyBox::new(x);
    assert(5 == x);
    let inner: &i32 = &*y;
    assert(5 == *inner);
}

/// Something that delivers messages, such as an e-mail or text service.
pub trait Messenger {
    fn send(&self, msg: &str);
}

/// How close `value` is to `max`: 3 at or over it, 2 from 90 percent,
/// 1 from 75 percent, else 0. A zero `max` is reached by any positive value.
pub open spec fn quota_level(value: usize, max: usize) -> int {
    if max == 0 {
        if value == 0 {
            0
        } else {
            3
        }
    } else if value >= max {
        3
    } else if 10 * value >= 9 * max {
        2
    } else if 4 * value >= 3 * max {
        1
    } else {
        0
    }
}

/// The message for quota level `level`.
pub open spec fn quota_message(level: int) -> Option<Seq<char>> {
    if level == 3 {
        Some("Error: You are over your quota!"@)
    } else if level == 2 {
        Some("Urgent warning: You've used up over 90% of your quota!"@)
    } else if level == 1 {
        Some("Warning: You've used up over 75% of your quota!"@)
    } else {
        None
    }
}

/// The warning due when `value` of `max` is used, if any.
pub fn quota_warning(value: usize, max: usize) -> (r: Option<&'static str>)
    ensures
        r matches Some(m) ==> quota_message(quota_level(value, max)) == Some(m@),
        r is None <==> quota_message(quota_level(value, max)) is None,
{
    let v = value as u128;
    let m = max as u128;
    if max == 0 {
        if value == 0 {
            None
        } else {
            Some("Error: You are over your quota!")
        }
    } else if value >= max {
        Some("Error: You are over your quota!")
    } else if 10 * v >= 9 * m {
        Some("Urgent warning: You've used up over 90% of your quota!")
    } else if 4 * v >= 3 * m {
        Some("Warning: You've used up over 75% of your quota!")
    } else {
        None
    }
}

/// Tracks a value against a limit and warns through a messenger.
pub struct LimitTracker<'a, T: Messenger> {
    messenger: &'a T,
    value: usize,
    max: usize,
}

impl<'a, T> LimitTracker<'a, T> where T: Messenger {
    /// The value tracked.
    pub closed spec fn current(&self) -> usize {
        self.value
    }

    /// The limit.
    pub closed spec fn limit(&self) -> usize {
        self.max
    }

    /// A tracker at zero with limit `max`.
    pub fn new(messenger: &'a T, max: usize) -> (r: LimitTracker<'a, T>)
        ensures
            r.current() == 0,
            r.limit() == max,
    {
        LimitTracker { messenger, value: 0, max }
    }

    /// Sets the value, sends the warning that `quota_warning` gives for it,
    /// if any, and returns the warning sent.
    pub fn set_value(&mut self, value: usize) -> (sent: Option<&'static str>)
        ensures
            final(self).current() == value,
            final(self).limit() == old(self).limit(),
            sent matches Some(m) ==> quota_message(quota_level(value, old(self).limit())) == Some(m@),
            sent is None <==> quota_message(quota_level(value, old(self).limit())) is None,
    {
        self.value = value;
        let warning = quota_warning(self.value, self.max);
        match warning {
            Some(msg) => self.messenger.send(msg),
            None => {},
        }
        warning
    }
}

} // verus!
