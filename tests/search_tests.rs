use minigrep::config::{ArgumentError, Config};
use minigrep::search::{search, search_case_insensitive, search_lowered};

#[test]
fn one_result() {
    let query = "duct";
    let contents = "\
Rust:
safe, fast, productive.
Pick three.";

    assert_eq!(vec!["safe, fast, productive."], search(query, contents));
}

#[test]
fn test_case_insensitive() {
    let query = "duct";
    let contents = "\
Rust:
safe, fast, productive.
Pick three.
To all my friends.
Too Many boys :)";

    assert_eq!(
        vec!["safe, fast, productive."],
        search_case_insensitive(query, contents)
    );
}

#[test]
fn case_sensitive_single_match() {
    let contents = "Rust:\nsafe, fast, productive.\nPick three.";
    assert_eq!(search("duct", contents), vec!["safe, fast, productive."]);
}

#[test]
fn case_insensitive_matches_mixed_case() {
    let contents = "Rust:\nsafe, fast, productive.\nPick three.\nTrust me.\nDuct tape.";
    assert_eq!(search_case_insensitive("rUsT", contents), vec!["Rust:", "Trust me."]);
}

#[test]
fn case_sensitive_ignores_other_case() {
    let contents = "Rust:\nsafe, fast, productive.\nPick three.\nTrust me.\nDuct tape.";
    assert_eq!(search("rUsT", contents), Vec::<&str>::new());
    assert_eq!(search("rust", contents), vec!["Trust me."]);
}

#[test]
fn insensitive_covers_sensitive() {
    let contents = "Rust:\nsafe, fast, productive.\nPick three.\nTrust me.\nDuct tape.";
    let exact = search("ust", contents);
    let folded = search_case_insensitive("ust", contents);
    for line in &exact {
        assert!(folded.contains(line));
    }
    assert_eq!(folded, vec!["Rust:", "Trust me."]);
}

#[test]
fn insensitive_search_is_deterministic() {
    let contents = "Rust:\nsafe, fast, productive.\nPick three.\nTrust me.\nDuct tape.";
    assert_eq!(
        search_case_insensitive("T", contents),
        search_case_insensitive("T", contents)
    );
}

#[test]
fn results_keep_source_order() {
    let contents = "b one\na two\nb three\na four\nb five";
    assert_eq!(search("b", contents), vec!["b one", "b three", "b five"]);
    assert_eq!(search_case_insensitive("A", contents), vec!["a two", "a four"]);
}

#[test]
fn empty_query_returns_every_line() {
    let contents = "Rust:\nsafe, fast, productive.\n\nPick three.";
    let all = vec!["Rust:", "safe, fast, productive.", "", "Pick three."];
    assert_eq!(search("", contents), all);
    assert_eq!(search_case_insensitive("", contents), all);
}

#[test]
fn empty_content_has_no_lines() {
    assert_eq!(search("", ""), Vec::<&str>::new());
    assert_eq!(search_case_insensitive("x", ""), Vec::<&str>::new());
}

#[test]
fn trailing_newline_adds_no_line() {
    assert_eq!(search("", "one\ntwo\n"), vec!["one", "two"]);
    assert_eq!(search("", "\n"), vec![""]);
}

#[test]
fn carriage_return_before_newline_is_dropped() {
    assert_eq!(search("o", "one\r\ntwo\r\nthree"), vec!["one", "two"]);
    assert_eq!(search("\r", "one\r\ntwo\r"), vec!["two\r"]);
}

#[test]
fn repeated_match_in_line_counts_once() {
    assert_eq!(search("a", "banana\nkiwi\nbanana"), vec!["banana", "banana"]);
}

#[test]
fn query_longer_than_line() {
    assert_eq!(search("longer", "long\nlonger than"), vec!["longer than"]);
}

#[test]
fn unicode_lowercasing() {
    let contents = "ÄPFEL\nbirnen\näpfel";
    assert_eq!(search_case_insensitive("äpfel", contents), vec!["ÄPFEL", "äpfel"]);
    assert_eq!(search("äpfel", contents), vec!["äpfel"]);
}

#[test]
fn lowered_query_is_used_as_given() {
    let contents = "Rust:\nTrust me.";
    let lowered: Vec<char> = "rust".chars().collect();
    assert_eq!(search_lowered(&lowered, contents), vec!["Rust:", "Trust me."]);
    let upper: Vec<char> = "RUST".chars().collect();
    assert_eq!(search_lowered(&upper, contents), Vec::<&str>::new());
}

fn args(items: &[&str]) -> Vec<String> {
    items.iter().map(|s| s.to_string()).collect()
}

#[test]
fn config_from_full_command_line() {
    let cfg = Config::new(&args(&["prog", "needle", "poem.txt"]), false).unwrap();
    assert_eq!(cfg.query, "needle");
    assert_eq!(cfg.filename, "poem.txt");
    assert!(cfg.case_sensitive_search);
}

#[test]
fn config_case_insensitive_when_requested() {
    let cfg = Config::new(&args(&["prog", "needle", "poem.txt", "extra"]), true).unwrap();
    assert!(!cfg.case_sensitive_search);
    assert_eq!(cfg.filename, "poem.txt");
}

#[test]
fn config_one_positional_argument_is_an_error() {
    let r = Config::new(&args(&["prog", "needle"]), false);
    assert_eq!(r.err(), Some(ArgumentError::MissingFilename));
}

#[test]
fn config_no_arguments_is_an_error() {
    assert_eq!(
        Config::new(&args(&["prog"]), false).err(),
        Some(ArgumentError::MissingQuery)
    );
    assert_eq!(
        Config::new(&args(&[]), false).err(),
        Some(ArgumentError::MissingQuery)
    );
}

#[test]
fn argument_error_messages_name_the_condition() {
    assert_eq!(
        ArgumentError::MissingQuery.message(),
        "Incomplete arguments: didn't get a query string"
    );
    assert_eq!(
        ArgumentError::MissingFilename.message(),
        "Incomplete arguments: didn't get a filename"
    );
}

#[test]
fn config_search_in_follows_mode() {
    let contents = "Rust:\nTrust me.\nrusty";
    let exact = Config::new(&args(&["prog", "Rust", "f"]), false).unwrap();
    assert_eq!(exact.search_in(contents), vec!["Rust:"]);
    let folded = Config::new(&args(&["prog", "Rust", "f"]), true).unwrap();
    assert_eq!(folded.search_in(contents), vec!["Rust:", "Trust me.", "rusty"]);
}
