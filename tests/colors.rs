use rust_book::colors::{mix, PrimaryColor, SecondaryColor};

#[test]
fn lib_red_and_yellow_make_orange() {
    let red = PrimaryColor::Red;
    let yellow = PrimaryColor::Yellow;
    let result = mix(red, yellow);
    assert_eq!(result, Some(SecondaryColor::Orange));
}

#[test]
fn lib_red_and_blue_make_purple() {
    let red = PrimaryColor::Red;
    let blue = PrimaryColor::Blue;
    let result = mix(red, blue);
    assert_eq!(result, Some(SecondaryColor::Purple));
}

#[test]
fn lib_yellow_and_blue_make_green() {
    let yellow = PrimaryColor::Yellow;
    let blue = PrimaryColor::Blue;
    let result = mix(yellow, blue);
    assert_eq!(result, Some(SecondaryColor::Green));
}

#[test]
fn lib_red_and_red_make_none() {
    let red = PrimaryColor::Red;
    let result = mix(red, red);
    assert_eq!(result, None);
}

#[test]
fn lib_yellow_and_yellow_make_none() {
    let yellow = PrimaryColor::Yellow;
    let result = mix(yellow, yellow);
    assert_eq!(result, None);
}

#[test]
fn lib_blue_and_blue_make_none() {
    let blue = PrimaryColor::Blue;
    let result = mix(blue, blue);
    assert_eq!(result, None);
}

#[test]
fn integration_tests_red_and_yellow_make_orange() {
    let red = PrimaryColor::Red;
    let yellow = PrimaryColor::Yellow;
    let result = mix(red, yellow);
    assert_eq!(result, Some(SecondaryColor::Orange));
}

#[test]
fn integration_tests_red_and_blue_make_purple() {
    let red = PrimaryColor::Red;
    let blue = PrimaryColor::Blue;
    let result = mix(red, blue);
    assert_eq!(result, Some(SecondaryColor::Purple));
}

#[test]
fn integration_tests_yellow_and_blue_make_green() {
    let yellow = PrimaryColor::Yellow;
    let blue = PrimaryColor::Blue;
    let result = mix(yellow, blue);
    assert_eq!(result, Some(SecondaryColor::Green));
}

#[test]
fn integration_tests_red_and_red_make_none() {
    let red = PrimaryColor::Red;
    let result = mix(red, red);
    assert_eq!(result, None);
}

#[test]
fn integration_tests_yellow_and_yellow_make_none() {
    let yellow = PrimaryColor::Yellow;
    let result = mix(yellow, yellow);
    assert_eq!(result, None);
}

#[test]
fn integration_tests_blue_and_blue_make_none() {
    let blue = PrimaryColor::Blue;
    let result = mix(blue, blue);
    assert_eq!(result, None);
}

#[test]
fn mixing_in_either_order_agrees() {
    let all = [PrimaryColor::Red, PrimaryColor::Yellow, PrimaryColor::Blue];
    for a in all {
        for b in all {
            assert_eq!(mix(a, b), mix(b, a));
        }
    }
}
