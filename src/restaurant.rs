//! A restaurant's kitchen and dining room, laid out as functions.

use vstd::prelude::*;
use vstd::string::StringExecFns;

verus! {

/// A starter that can be ordered.
#[derive(Debug, Clone, Copy, PartialEq, Eq, Structural)]
pub enum Appetizer {
    Soup,
    Salad,
}

/// A breakfast: the diner chooses the toast; the kitchen chooses the
/// seasonal fruit.
pub struct Breakfast {
    pub toast: String,
    seasonal_fruit: String,
}

impl Breakfast {
    /// The toast chosen.
    pub closed spec fn toast_of(&self) -> Seq<char> {
        self.toast@
    }

    /// The fruit that comes with the breakfast.
    pub closed spec fn fruit(&self) -> Seq<char> {
        self.seasonal_fruit@
    }

    /// A summer breakfast with the given toast, served with peaches.
    pub fn summer(toast: &str) -> (r: Breakfast)
        ensures
            r.toast_of() == toast@,
            r.fruit() == "peaches"@,
    {
        Breakfast { toast: String::from_str(toast), seasonal_fruit: String::from_str("peaches") }
    }
}

/// Puts a party on the waiting list.
pub fn add_to_waitlist() {
}

/// Seats a party at a table.
pub fn seat_at_table() {
}

/// Takes a table's order.
pub fn take_order() {
}

/// Serves a table's order.
pub fn serve_order() {
}

/// Takes a table's payment.
pub fn take_payment() {
}

/// Delivers an order to its table.
pub fn deliver_order() {
}

/// Cooks an order.
pub fn cook_order() {
}

/// Cooks an order again and delivers it.
pub fn fix_incorrect_order() {
    cook_order();
    deliver_order();
}

} // verus!
