use rust_book::challenges::{calculate_mode, challenge_2, doubled_median};
use rust_book::company::{parse_department, Command, Company, Department};

#[test]
fn test_challenge_3() {
    let mut company = Company::new();
    company.execute_command(Command::Add(String::from("Sally"), String::from("Engineering")));
    company.execute_command(Command::Add(String::from("Amir"), String::from("Sales")));
    company.execute_command(Command::Add(String::from("John"), String::from("Engineering")));
    assert_eq!(company.retrieve_employees(String::from("Engineering")), vec!["John", "Sally"]);
    assert_eq!(company.retrieve_employees(String::from("Sales")), vec!["Amir"]);
}

#[test]
fn departments_are_named_exactly() {
    assert_eq!(parse_department(&String::from("Marketing")), Some(Department::Marketing));
    assert_eq!(parse_department(&String::from("HumanResources")), Some(Department::HumanResources));
    assert_eq!(parse_department(&String::from("marketing")), None);
    assert_eq!(parse_department(&String::from("")), None);
}

#[test]
fn retrieve_sorts_and_keeps_duplicates() {
    let mut company = Company::new();
    company.add_employee(String::from("bob"), String::from("Marketing"));
    company.add_employee(String::from("Zoe"), String::from("Marketing"));
    company.add_employee(String::from("Bob"), String::from("Marketing"));
    company.add_employee(String::from("Bob"), String::from("Marketing"));
    company.execute_command(Command::Retrieve(String::from("Marketing")));
    assert_eq!(
        company.retrieve_employees(String::from("Marketing")),
        vec!["Bob", "Bob", "Zoe", "bob"]
    );
}

#[test]
fn returns_correct_pig_latin_for_words_starting_with_vowels() {
    let words = String::from("apple orange elephant");
    let result = challenge_2(words);
    assert_eq!(result, "apple-hay orange-hay elephant-hay");
}

#[test]
fn returns_correct_pig_latin_for_words_starting_with_consonants() {
    let words = String::from("first second third");
    let result = challenge_2(words);
    assert_eq!(result, "irst-fay econd-say hird-tay");
}

#[test]
fn pig_latin_collapses_white_space() {
    assert_eq!(challenge_2(String::from("  a\t\nb  ")), "a-hay -bay");
    assert_eq!(challenge_2(String::from("")), "");
    assert_eq!(challenge_2(String::from(" \u{3000} ")), "");
    assert_eq!(challenge_2(String::from("Apple")), "pple-Aay");
}

#[test]
fn median_and_mode_for_odd_length_with_repeating_numbers() {
    let vec: Vec<i32> = vec![1, 1, 2, 3, 4, 5, 6];
    assert_eq!(doubled_median(vec.clone()), 6);
    assert_eq!(calculate_mode(vec), Some(1));
}

#[test]
fn median_and_mode_for_odd_length_with_non_repeating_numbers() {
    let vec: Vec<i32> = vec![1, 2, 3, 4, 5];
    assert_eq!(doubled_median(vec.clone()), 6);
    assert_eq!(calculate_mode(vec), None);
}

#[test]
fn median_and_mode_for_even_length_with_repeating_numbers() {
    let vec: Vec<i32> = vec![1, 1, 2, 3, 4, 5, 6, 7];
    assert_eq!(doubled_median(vec.clone()), 7);
    assert_eq!(calculate_mode(vec), Some(1));
}

#[test]
fn median_and_mode_for_even_length_with_non_repeating_numbers() {
    let vec: Vec<i32> = vec![1, 2, 3, 4, 5, 6];
    assert_eq!(doubled_median(vec.clone()), 7);
    assert_eq!(calculate_mode(vec), None);
}

#[test]
fn median_sorts_first_and_does_not_overflow() {
    assert_eq!(doubled_median(vec![9, -3, 4]), 8);
    assert_eq!(doubled_median(vec![i32::MAX, i32::MAX]), 2 * i32::MAX as i64);
    assert_eq!(doubled_median(vec![7]), 14);
}

#[test]
fn mode_edge_cases() {
    assert_eq!(calculate_mode(vec![]), None);
    assert_eq!(calculate_mode(vec![4]), None);
    assert_eq!(calculate_mode(vec![-1, 7, 3]), None);
    assert_eq!(calculate_mode(vec![2, 5, 5, 2, 5]), Some(5));
}
