use rust_book::basics::{add, add_one, add_two, greeting, Guess};
use rust_book::closures::Rectangle;

#[test]
fn exploration() {
    let result = add(2, 2);
    assert_eq!(result, 4);
}

#[test]
fn larger_can_hold_smaller() {
    let larger = Rectangle {
        width: 8,
        height: 7,
    };
    let smaller = Rectangle {
        width: 5,
        height: 1,
    };
    assert!(larger.can_hold(&smaller));
}

#[test]
fn smaller_cannot_hold_larger() {
    let larger = Rectangle {
        width: 8,
        height: 7,
    };
    let smaller = Rectangle {
        width: 5,
        height: 1,
    };
    assert_eq!(smaller.can_hold(&larger), false);
}

#[test]
fn lib_it_adds_two() {
    let result = add_two(2);
    assert_eq!(result, 4);
}

#[test]
fn integration_tests_it_adds_two() {
    let result = add_two(2);
    assert_eq!(result, 4);
}

#[test]
fn greeting_contains_name() {
    let result = greeting("Carol");
    assert!(
        result.contains("Carol"),
        "Greeting did not contain name, value was `{result}`"
    );
}

#[test]
fn it_works_with_result() -> Result<(), String> {
    let result = add(2, 2);
    if result == 4 {
        Ok(())
    } else {
        Err(String::from("two plus two does not equal four"))
    }
}

#[test]
fn add_even_numbers() {
    let result = add(2, 2);
    assert_eq!(result, 4);
}

#[test]
fn add_odd_numbers() {
    let result = add(3, 2);
    assert_eq!(result, 5);
}

#[test]
fn add_one_where_x_is_2_should_be_3() {
    let result = add_one(2);
    assert_eq!(result, 3);
}

#[test]
fn greeting_is_exact() {
    assert_eq!(greeting("Carol"), "Hello Carol!");
    assert_eq!(greeting(""), "Hello !");
}

#[test]
fn guess_keeps_its_value() {
    assert_eq!(Guess::new(1).value(), 1);
    assert_eq!(Guess::new(100).value(), 100);
    assert_eq!(Guess::new(42).value(), 42);
}

#[test]
fn equal_sides_cannot_hold() {
    let a = Rectangle { width: 5, height: 5 };
    let b = Rectangle { width: 5, height: 4 };
    assert!(!a.can_hold(&b));
    assert!(!b.can_hold(&a));
}
