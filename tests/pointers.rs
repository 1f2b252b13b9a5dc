use std::cell::RefCell;

use rust_book::pointers::{
    cons_list, quota_warning, regular_pointer_dereference, use_my_box, using_box_t_like_a_reference, LimitTracker, List,
    Messenger, MyBox,
};

struct MockMessenger {
    sent_messages: RefCell<Vec<String>>,
}

impl MockMessenger {
    fn new() -> MockMessenger {
        MockMessenger {
            sent_messages: RefCell::new(vec![]),
        }
    }
}

impl Messenger for MockMessenger {
    fn send(&self, message: &str) {
        self.sent_messages.borrow_mut().push(String::from(message));
    }
}

#[test]
fn it_sends_an_over_75_percent_warning_message() {
    let mock_messenger = MockMessenger::new();
    let mut limit_tracker = LimitTracker::new(&mock_messenger, 100);
    limit_tracker.set_value(80);
}

#[test]
fn tracker_sends_one_warning_per_level() {
    let mock_messenger = MockMessenger::new();
    let mut limit_tracker = LimitTracker::new(&mock_messenger, 100);
    assert_eq!(limit_tracker.set_value(80), Some("Warning: You've used up over 75% of your quota!"));
    assert_eq!(limit_tracker.set_value(10), None);
    limit_tracker.set_value(95);
    limit_tracker.set_value(100);
    assert_eq!(
        *mock_messenger.sent_messages.borrow(),
        vec![
            "Warning: You've used up over 75% of your quota!",
            "Urgent warning: You've used up over 90% of your quota!",
            "Error: You are over your quota!",
        ]
    );
}

#[test]
fn quota_thresholds() {
    assert_eq!(quota_warning(74, 100), None);
    assert_eq!(quota_warning(75, 100), Some("Warning: You've used up over 75% of your quota!"));
    assert_eq!(quota_warning(89, 100), Some("Warning: You've used up over 75% of your quota!"));
    assert_eq!(quota_warning(90, 100), Some("Urgent warning: You've used up over 90% of your quota!"));
    assert_eq!(quota_warning(101, 100), Some("Error: You are over your quota!"));
    assert_eq!(quota_warning(0, 0), None);
    assert_eq!(quota_warning(1, 0), Some("Error: You are over your quota!"));
    assert_eq!(quota_warning(usize::MAX - 1, usize::MAX), Some("Urgent warning: You've used up over 90% of your quota!"));
}

#[test]
fn cons_list_holds_one_two_three() {
    let mut items = vec![];
    let mut cur = &cons_list();
    while let List::Cons(v, tail) = cur {
        items.push(*v);
        cur = tail.as_ref();
    }
    assert_eq!(items, vec![1, 2, 3]);
}

#[test]
fn boxes_dereference() {
    regular_pointer_dereference();
    using_box_t_like_a_reference();
    use_my_box();
    let y = MyBox::new(5);
    assert_eq!(5, *y);
}
