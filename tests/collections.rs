use rust_book::collections::{
    create_a_new_hash_map, create_a_new_string, create_a_new_string_using_from, create_a_new_string_using_to_string,
    concatenating_strings_with_format_macro, concatenating_strings_with_plus_operator, create_new_vector,
    adding_key_if_not_present, create_vector_macro, hash_maps_and_ownership, overwriting_a_value_in_a_hash_map, index_value_outside_range, iterating_over_values,
    read_vector_element, update_vector, updating_a_string_using_push_str, utf8_example,
};
use rust_book::restaurant::{fix_incorrect_order, Appetizer, Breakfast};

#[test]
fn vectors_are_built_as_stated() {
    assert_eq!(create_new_vector(), Vec::<i32>::new());
    assert_eq!(create_vector_macro(), vec![1, 2, 3]);
    assert_eq!(update_vector(), vec![5, 6, 7]);
    assert_eq!(index_value_outside_range(), None);
}

#[test]
fn strings_are_built_as_stated() {
    assert_eq!(create_a_new_string(), "");
    assert_eq!(create_a_new_string_using_to_string(), "initial contents");
    assert_eq!(create_a_new_string_using_from(), "initial contents");
    let hellos = utf8_example();
    assert_eq!(hellos.len(), 11);
    assert_eq!(hellos[0], "السلام عليكم");
    assert_eq!(hellos[5], "こんにちは");
    assert_eq!(hellos[10], "Hola");
}

#[test]
fn hash_map_holds_two_scores() {
    let scores = create_a_new_hash_map();
    assert_eq!(scores.len(), 2);
    assert_eq!(scores.get("Blue"), Some(&10));
    assert_eq!(scores.get("Yellow"), Some(&50));
}

#[test]
fn summer_breakfast_keeps_the_toast() {
    let mut meal = Breakfast::summer("Rye");
    assert_eq!(meal.toast, "Rye");
    meal.toast = String::from("Wheat");
    assert_eq!(meal.toast, "Wheat");
    assert_ne!(Appetizer::Soup, Appetizer::Salad);
    fix_incorrect_order();
}

#[test]
fn vectors_are_read_as_stated() {
    assert_eq!(read_vector_element(), (3, Some(3)));
    assert_eq!(iterating_over_values(), vec![101, 33, 58]);
}

#[test]
fn strings_are_joined_as_stated() {
    assert_eq!(updating_a_string_using_push_str(), "foobarbar");
    assert_eq!(concatenating_strings_with_plus_operator(), "Hello, world!");
    assert_eq!(concatenating_strings_with_format_macro(), "tic-tac-toe");
    hash_maps_and_ownership();
}

#[test]
fn hash_map_values_are_overwritten_or_kept() {
    let scores = overwriting_a_value_in_a_hash_map();
    assert_eq!(scores.len(), 1);
    assert_eq!(scores.get("Blue"), Some(&25));
    let scores = adding_key_if_not_present();
    assert_eq!(scores.len(), 2);
    assert_eq!(scores.get("Blue"), Some(&10));
    assert_eq!(scores.get("Yellow"), Some(&50));
}
