//! Vectors, strings and hash maps: making them, filling them, reading them.

use vstd::prelude::*;
use vstd::string::StringExecFns;
use vstd::std_specs::hash::{builds_valid_hashers, obeys_key_model};
use std::collections::HashMap;
use std::collections::hash_map::RandomState;

verus! {

/// An empty vector.
pub fn create_new_vector() -> (r: Vec<i32>)
    ensures
        r@ == Seq::<i32>::empty(),
{
    let v: Vec<i32> = Vec::new();
    v
}

/// The vector 1, 2, 3, written out.
pub fn create_vector_macro() -> (r: Vec<i32>)
    ensures
        r@ == seq![1i32, 2, 3],
{
    let v: Vec<i32> = vec![1, 2, 3];
    v
}

/// The vector 5, 6, 7, built by pushing one item at a time.
pub fn update_vector() -> (r: Vec<i32>)
    ensures
        r@ == seq![5i32, 6, 7],
{
    let mut v: Vec<i32> = Vec::new();
    v.push(5);
    v.push(6);
    v.push(7);
    assert(v@ =~= seq![5i32, 6, 7]);
    v
}

/// Reading past the end of a five-item vector with `get`, which gives
/// `None` where indexing would panic.
pub fn index_value_outside_range() -> (r: Option<i32>)
    ensures
        r is None,
{
    broadcast use vstd::slice::axiom_slice_get_usize;

    let v: Vec<i32> = vec![1, 2, 3, 4, 5];
    let does_not_exist = v.as_slice().get(100);
    match does_not_exist {
        Some(x) => Some(*x),
        None => None,
    }
}

/// The third item of 1, 2, 3, 4, 5, read by indexing and by `get`.
pub fn read_vector_element() -> (r: (i32, Option<i32>))
    ensures
        r == (3i32, Some(3i32)),
{
    broadcast use vstd::slice::axiom_slice_get_usize;

    let v: Vec<i32> = vec![1, 2, 3, 4, 5];
    let third: i32 = v[2];
    let third_again: Option<i32> = match v.as_slice().get(2) {
        Some(x) => Some(*x),
        None => None,
    };
    (third, third_again)
}

/// Each of 100, 32, 57 plus one, read through a reference.
pub fn iterating_over_values() -> (r: Vec<i32>)
    ensures
        r@ == seq![101i32, 33, 58],
{
    let v: Vec<i32> = vec![100, 32, 57];
    let mut out: Vec<i32> = Vec::new();
    for i in 0..v.len()
        invariant
            v@ == seq![100i32, 32, 57],
            out@ == v@.take(i as int).map_values(|n: i32| (n + 1) as i32),
    {
        let n_ref = &v[i];
        proof {
            assert(v@.take(i + 1) =~= v@.take(i as int).push(*n_ref));
        }
        let n_plus_one: i32 = *n_ref + 1;
        out.push(n_plus_one);
        assert(out@ =~= v@.take(i + 1).map_values(|n: i32| (n + 1) as i32));
    }
    assert(v@.take(3) =~= v@);
    assert(out@ =~= seq![101i32, 33, 58]);
    out
}

/// A new, empty string.
pub fn create_a_new_string() -> (r: String)
    ensures
        r@ == Seq::<char>::empty(),
{
    let s: String = String::new();
    s
}

/// The string "initial contents", made from a literal by `to_string`.
pub fn create_a_new_string_using_to_string() -> (r: String)
    ensures
        r@ == "initial contents"@,
{
    broadcast use vstd::string::to_string_from_display_ensures_for_str;

    let s: String = "initial contents".to_string();
    s
}

/// The string "initial contents", made from a literal.
pub fn create_a_new_string_using_from() -> (r: String)
    ensures
        r@ == "initial contents"@,
{
    let s: String = String::from_str("initial contents");
    s
}

/// "foo" with "bar" pushed onto it twice.
pub fn updating_a_string_using_push_str() -> (r: String)
    ensures
        r@ == "foo"@ + "bar"@ + "bar"@,
{
    let mut s: String = String::from_str("foo");
    s.append("bar");
    let s2 = "bar";
    s.append(s2);
    s
}

/// "Hello, " and "world!" joined; the first string is used up.
pub fn concatenating_strings_with_plus_operator() -> (r: String)
    ensures
        r@ == "Hello, "@ + "world!"@,
{
    let s1 = String::from_str("Hello, ");
    let s2 = String::from_str("world!");
    let s3 = s1.concat(s2.as_str());
    s3
}

/// "tic", "tac" and "toe" joined with hyphens.
pub fn concatenating_strings_with_format_macro() -> (r: String)
    ensures
        r@ == "tic"@ + "-"@ + "tac"@ + "-"@ + "toe"@,
{
    let s1 = String::from_str("tic");
    let s2 = String::from_str("tac");
    let s3 = String::from_str("toe");
    let mut s = s1.clone();
    s.append("-");
    s.append(s2.as_str());
    s.append("-");
    s.append(s3.as_str());
    s
}

/// "Hello" in eleven languages; strings hold any Unicode text.
pub fn utf8_example() -> (r: Vec<String>)
    ensures
        r@.map_values(|s: String| s@) == seq![
            "السلام عليكم"@,
            "Dobrý den"@,
            "Hello"@,
            "שלום"@,
            "नमस्ते"@,
            "こんにちは"@,
            "안녕하세요"@,
            "你好"@,
            "Olá"@,
            "Здравствуйте"@,
            "Hola"@,
        ],
{
    let mut hellos: Vec<String> = Vec::new();
    hellos.push(String::from_str("السلام عليكم"));
    hellos.push(String::from_str("Dobrý den"));
    hellos.push(String::from_str("Hello"));
    hellos.push(String::from_str("שלום"));
    hellos.push(String::from_str("नमस्ते"));
    hellos.push(String::from_str("こんにちは"));
    hellos.push(String::from_str("안녕하세요"));
    hellos.push(String::from_str("你好"));
    hellos.push(String::from_str("Olá"));
    hellos.push(String::from_str("Здравствуйте"));
    hellos.push(String::from_str("Hola"));
    assert(hellos@.map_values(|s: String| s@) =~= seq![
        "السلام عليكم"@,
        "Dobrý den"@,
        "Hello"@,
        "שלום"@,
        "नमस्ते"@,
        "こんにちは"@,
        "안녕하세요"@,
        "你好"@,
        "Olá"@,
        "Здравствуйте"@,
        "Hola"@,
    ]);
    hellos
}

/// The scores of two teams: Blue has 10 and Yellow 50. What the map holds
/// is known where string keys follow the model of hashing.
pub fn create_a_new_hash_map() -> (r: HashMap<String, i32>)
    ensures
        obeys_key_model::<String>() && builds_valid_hashers::<RandomState>() ==> exists|b: String, y: String|
            b@ == "Blue"@ && y@ == "Yellow"@ && #[trigger] r@ == map![b => 10i32, y => 50i32],
{
    let mut scores: HashMap<String, i32> = HashMap::new();
    let blue = String::from_str("Blue");
    let yellow = String::from_str("Yellow");
    let ghost b = blue;
    let ghost y = yellow;
    scores.insert(blue, 10);
    scores.insert(yellow, 50);
    proof {
        if obeys_key_model::<String>() && builds_valid_hashers::<RandomState>() {
            assert(scores@ =~= map![b => 10i32, y => 50i32]);
        }
    }
    scores
}

/// The scores after Blue's 10 is overwritten by 25. What the map holds is
/// known where string keys follow the model of hashing.
pub fn overwriting_a_value_in_a_hash_map() -> (r: HashMap<String, i32>)
    ensures
        obeys_key_model::<String>() && builds_valid_hashers::<RandomState>() ==> exists|b: String|
            b@ == "Blue"@ && #[trigger] r@ == map![b => 25i32],
{
    let mut scores: HashMap<String, i32> = HashMap::new();
    let blue = String::from_str("Blue");
    let ghost b = blue;
    scores.insert(blue.clone(), 10);
    scores.insert(blue, 25);
    proof {
        if obeys_key_model::<String>() && builds_valid_hashers::<RandomState>() {
            assert(scores@ =~= map![b => 25i32]);
        }
    }
    scores
}

/// The scores after Yellow and Blue are each given 50 only if absent: Blue
/// keeps its 10, Yellow gets 50. What the map holds is known where string
/// keys follow the model of hashing.
pub fn adding_key_if_not_present() -> (r: HashMap<String, i32>)
    ensures
        obeys_key_model::<String>() && builds_valid_hashers::<RandomState>() ==> exists|b: String, y: String|
            b@ == "Blue"@ && y@ == "Yellow"@ && #[trigger] r@ == map![b => 10i32, y => 50i32],
{
    let mut scores: HashMap<String, i32> = HashMap::new();
    let blue = String::from_str("Blue");
    let yellow = String::from_str("Yellow");
    let ghost b = blue;
    let ghost y = yellow;
    proof {
        reveal_strlit("Blue");
        reveal_strlit("Yellow");
        assert("Blue"@.len() == 4);
        assert("Yellow"@.len() == 6);
        assert(b@.len() != y@.len());
    }
    scores.insert(blue.clone(), 10);
    let ghost first = scores@;
    scores.entry(yellow).or_insert(50);
    let ghost second = scores@;
    scores.entry(blue).or_insert(50);
    proof {
        if obeys_key_model::<String>() && builds_valid_hashers::<RandomState>() {
            assert(first =~= map![b => 10i32]);
            assert(second =~= map![b => 10i32, y => 50i32]);
            assert(scores@ =~= map![b => 10i32, y => 50i32]);
        }
    }
    scores
}

/// A map that borrows its keys and values: it lives no longer than the
/// strings it refers to.
pub fn hash_maps_and_ownership() {
    let field_name: String = String::from_str("Favorite color");
    let field_value: String = String::from_str("Blue");
    let mut map: HashMap<&String, &String> = HashMap::new();
    map.insert(&field_name, &field_value);
}

} // verus!
