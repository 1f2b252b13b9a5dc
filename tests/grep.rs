use rust_book::grep::{line_contains, lines, matching_lines, search, search_case_insensitive, search_v2, Config};

#[test]
fn case_sensitive() {
    let query = "duct";
    let contents = "\
Rust:
safe, fast, productive.
Pick three.
Duct tape.";
    assert_eq!(vec!["safe, fast, productive."], search(query, contents));
}

#[test]
fn case_insensitive() {
    let query = "rUsT";
    let contents = "\
Rust:
safe, fast, productive.
Pick three.
Trust me.";
    assert_eq!(
        vec!["Rust:", "Trust me."],
        search_case_insensitive(query, contents)
    );
}

#[test]
fn search_v2_agrees_with_search() {
    let contents = "\
Rust:
safe, fast, productive.
Pick three.
Duct tape.";
    assert_eq!(search_v2("duct", contents), vec!["safe, fast, productive."]);
    assert_eq!(search_v2("t", contents), search("t", contents));
}

#[test]
fn lines_drop_line_endings() {
    assert_eq!(lines("a\r\nb\n\nc\n"), vec!["a", "b", "", "c"]);
    assert_eq!(lines(""), Vec::<&str>::new());
    assert_eq!(lines("\n"), vec![""]);
    assert_eq!(lines("x\r"), vec!["x\r"]);
}

#[test]
fn empty_query_matches_every_line() {
    assert_eq!(search("", "one\ntwo"), vec!["one", "two"]);
    assert!(line_contains("abc", ""));
    assert!(line_contains("abc", "bc"));
    assert!(!line_contains("ab", "abc"));
}

#[test]
fn case_insensitive_lowers_non_ascii() {
    assert_eq!(search_case_insensitive("ÄPFEL", "äpfel\nbirnen"), vec!["äpfel"]);
    assert_eq!(search("ÄPFEL", "äpfel\nbirnen"), Vec::<&str>::new());
}

#[test]
fn config_needs_query_and_path() {
    let none = vec![String::from("minigrep")];
    assert_eq!(Config::build(&none, false).err(), Some("Didn't get a query string"));
    let one = vec![String::from("minigrep"), String::from("to")];
    assert_eq!(Config::build(&one, false).err(), Some("Didn't get a file path"));
    let two = vec![String::from("minigrep"), String::from("to"), String::from("poem.txt")];
    let config = Config::build(&two, true).ok().unwrap();
    assert_eq!(config.query, "to");
    assert_eq!(config.file_path, "poem.txt");
    assert!(config.ignore_case);
}

#[test]
fn matching_lines_follows_the_case_setting() {
    let args = vec![String::from("minigrep"), String::from("rUsT"), String::from("f")];
    let contents = "Rust:\nTrust me.\nno";
    let strict = Config::build(&args, false).ok().unwrap();
    assert_eq!(matching_lines(&strict, contents), Vec::<&str>::new());
    let loose = Config::build(&args, true).ok().unwrap();
    assert_eq!(matching_lines(&loose, contents), vec!["Rust:", "Trust me."]);
}
