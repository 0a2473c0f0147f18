use greprs::{find_matches, grep, grep_case_insensitive, split_lines, Config, MatchError};

#[test]
fn case_sensitive() {
    let search = "duct";
    let contents = "\
Rust:
safe, fast, productive.
Pick three.";

    assert_eq!(
        vec!["safe, fast, productive."],
        grep(search, contents).unwrap()
    );
}

#[test]
fn case_insensitive() {
    let search = "rust";
    let contents = "\
Rust:
safe, fast, productive.
Pick three.
Trust me.";

    assert_eq!(
        vec!["Rust:", "Trust me."],
        grep_case_insensitive(search, contents).unwrap()
    );
}

const POEM: &str = "Rust:\nsafe, fast, productive.\nPick three.\nTrust me.";

#[test]
fn case_sensitive_keeps_order_and_only_matching_lines() {
    assert_eq!(vec!["Trust me."], grep("rust", POEM).unwrap());
    assert_eq!(vec!["Rust:"], grep("Rust", POEM).unwrap());
    let none: Vec<String> = grep("zebra", POEM).unwrap();
    assert!(none.is_empty());
}

#[test]
fn uppercase_pattern_is_lowered_without_case_sensitivity() {
    assert_eq!(
        vec!["Rust:", "Trust me."],
        grep_case_insensitive("RUST", POEM).unwrap()
    );
    assert_eq!(
        vec!["safe, fast, productive."],
        grep_case_insensitive("PRODUCTIVE", POEM).unwrap()
    );
}

#[test]
fn insensitive_equals_sensitive_on_lowered_text() {
    let lowered_hits = grep("rust", &POEM.to_lowercase()).unwrap();
    let hits = grep_case_insensitive("RuSt", POEM).unwrap();
    assert_eq!(lowered_hits.len(), hits.len());
    for (h, l) in hits.iter().zip(lowered_hits.iter()) {
        assert_eq!(&h.to_lowercase(), l);
    }
    assert_eq!(vec!["Rust:", "Trust me."], hits);
}

#[test]
fn same_search_twice_gives_same_lines() {
    let first = grep("a", POEM).unwrap();
    let second = grep("a", POEM).unwrap();
    assert_eq!(first, second);
    assert_eq!(vec!["safe, fast, productive."], first);
    let first = grep_case_insensitive("T", POEM).unwrap();
    let second = grep_case_insensitive("T", POEM).unwrap();
    assert_eq!(first, second);
    assert_eq!(vec!["Rust:", "safe, fast, productive.", "Pick three.", "Trust me."], first);
}

#[test]
fn empty_pattern_matches_every_line() {
    let text = "one\n\nthree\n";
    assert_eq!(vec!["one", "", "three"], grep("", text).unwrap());
    assert_eq!(vec!["one", "", "three"], grep_case_insensitive("", text).unwrap());
}

#[test]
fn empty_contents_give_no_lines() {
    assert!(grep("a", "").unwrap().is_empty());
    assert!(grep("", "").unwrap().is_empty());
    assert!(grep_case_insensitive("", "").unwrap().is_empty());
}

#[test]
fn malformed_pattern_is_rejected() {
    match grep("foo(", POEM) {
        Err(MatchError::InvalidPattern(_)) => {}
        Ok(_) => panic!("an unclosed group must not compile"),
    }
    match grep_case_insensitive("[A", POEM) {
        Err(MatchError::InvalidPattern(_)) => {}
        Ok(_) => panic!("an unclosed class must not compile"),
    }
}

#[test]
fn pattern_is_a_regular_expression() {
    assert_eq!(vec!["Rust:"], grep("^R", POEM).unwrap());
    assert_eq!(
        vec!["safe, fast, productive.", "Pick three.", "Trust me."],
        grep(r"\.$", POEM).unwrap()
    );
    assert_eq!(vec!["Rust:", "Trust me."], grep("(?i)^r|^t", POEM).unwrap());
}

#[test]
fn lines_split_at_every_terminator() {
    assert_eq!(vec!["a", "", "b"], split_lines("a\r\n\nb"));
    assert_eq!(vec!["a", "b"], split_lines("a\nb\n"));
    assert_eq!(vec!["a"], split_lines("a\r"));
    assert_eq!(vec!["x", "y", "", "z"], split_lines("x\ry\r\r\nz\r"));
    assert_eq!(vec!["", ""], split_lines("\r\r"));
    assert_eq!(vec![""], split_lines("\n"));
    assert!(split_lines("").is_empty());
    let text = "é\r\nü\n\nλ";
    assert_eq!(text.lines().collect::<Vec<&str>>(), split_lines(text));
}

#[test]
fn lone_carriage_return_ends_a_line() {
    assert_eq!(vec!["a", "b"], grep("", "a\rb").unwrap());
    assert_eq!(vec!["Rust:", "Trust me."], grep_case_insensitive("rust", "Rust:\rsafe\rTrust me.").unwrap());
}

#[test]
fn hyphen_and_hash_are_plain_characters() {
    let text = "a well-known fact\nwell known\nissue #12";
    assert_eq!(vec!["a well-known fact"], grep("well-known", text).unwrap());
    assert_eq!(vec!["issue #12"], grep("#1", text).unwrap());
    assert_eq!(vec!["a well-known fact"], grep_case_insensitive("WELL-KNOWN", text).unwrap());
}

#[test]
fn crlf_lines_are_returned_without_terminators() {
    assert_eq!(vec!["Rust:", "Trust me."], grep("ust", "Rust:\r\nsafe\r\nTrust me.\r\n").unwrap());
}

#[test]
fn find_matches_follows_case_setting() {
    let args: Vec<String> = vec!["prog".to_string(), "rust".to_string(), "poem.txt".to_string()];
    let sensitive = Config::new(&args, &[]).unwrap();
    assert_eq!(vec!["Trust me."], find_matches(&sensitive, POEM).unwrap());
    let names = vec!["CASE_INSENSITIVE".to_string()];
    let insensitive = Config::new(&args, &names).unwrap();
    assert_eq!(vec!["Rust:", "Trust me."], find_matches(&insensitive, POEM).unwrap());
}
