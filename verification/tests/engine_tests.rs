use pargrep::{search, Args, SearchError};

fn contents() -> String {
    String::from("\nRust:\nsafe, fast, productive.\nPick three\nDuct tape\nTrust me\n")
}

#[test]
fn case_sensitive() {
    let query = "Duct";
    assert_eq!(vec!["Duct tape"], search(&contents(), query, false, false).unwrap());
}

#[test]
fn case_insensitive() {
    let query = "rUsT";
    assert_eq!(vec!["Rust:", "Trust me"], search(&contents(), query, true, false).unwrap());
}

#[test]
fn regex_basic_search() {
    let query = r"safe, fast, \w+.";
    assert_eq!(vec!["safe, fast, productive."], search(&contents(), query, false, true).unwrap());
}

#[test]
fn regex_special_characters_search() {
    let query = r"\b\w+\b\.";
    let expected = vec!["safe, fast, productive."];
    let results = search(&contents(), query, false, true).unwrap();
    assert_eq!(expected, results);
}

#[test]
fn regex_case_insensitive_search() {
    let query = r"(?i)rust";
    assert_eq!(vec!["Rust:", "Trust me"], search(&contents(), query, false, true).unwrap());
}

#[test]
fn regex_no_match_search() {
    let query = r"nonexistent";
    let results = search(&contents(), query, false, true).unwrap();
    assert!(results.is_empty());
}

#[test]
fn regex_edge_cases_search() {
    let query = r"^Rust:|me$";
    let expected = vec!["Rust:", "Trust me"];
    let results = search(&contents(), query, false, true).unwrap();
    assert_eq!(expected, results);
}

#[test]
fn regex_anchored_case_insensitive() {
    let query = r"^rust";
    assert_eq!(vec!["Rust:"], search(&contents(), query, true, true).unwrap());
}

#[test]
fn invalid_pattern_is_error_not_crash() {
    let content = contents();
    assert_eq!(Err(SearchError::Pattern), search(&content, "(", false, true));
    assert_eq!(Err(SearchError::Pattern), search(&content, "(", true, true));
    assert_eq!(Err(SearchError::Pattern), search(&content, r"a{2,1}", false, true));
}

#[test]
fn invalid_pattern_as_literal_is_fine() {
    assert!(search(&contents(), "(", false, false).unwrap().is_empty());
}

#[test]
fn empty_literal_query_matches_every_line() {
    let all = vec!["", "Rust:", "safe, fast, productive.", "Pick three", "Duct tape", "Trust me"];
    assert_eq!(all, search(&contents(), "", false, false).unwrap());
    assert_eq!(all, search(&contents(), "", true, false).unwrap());
}

#[test]
fn repeated_search_is_identical() {
    let content = contents();
    let first = search(&content, "rUsT", true, false);
    let second = search(&content, "rUsT", true, false);
    assert_eq!(first, second);
    let first_re = search(&content, r"^Rust:|me$", false, true);
    let second_re = search(&content, r"^Rust:|me$", false, true);
    assert_eq!(first_re, second_re);
}

#[test]
fn case_insensitive_is_superset_of_case_sensitive() {
    let content = contents();
    let strict = search(&content, "Rust", false, false).unwrap();
    let loose = search(&content, "Rust", true, false).unwrap();
    assert_eq!(vec!["Rust:"], strict);
    assert_eq!(vec!["Rust:", "Trust me"], loose);
    for line in &strict {
        assert!(loose.contains(line));
    }
}

#[test]
fn regex_flag_equals_prepended_modifier() {
    let content = contents();
    assert_eq!(
        search(&content, "rust", true, true),
        search(&content, "(?i)rust", false, true),
    );
    assert_eq!(
        search(&content, r"^rust.*:$", true, true),
        search(&content, r"(?i)^rust.*:$", false, true),
    );
}

#[test]
fn empty_content_has_no_lines() {
    assert!(search("", "", false, false).unwrap().is_empty());
    assert!(search("", "a", true, false).unwrap().is_empty());
    assert!(search("", ".*", false, true).unwrap().is_empty());
}

#[test]
fn carriage_returns_belong_to_the_terminator() {
    let results = search("alpha\r\nbeta\r\ngamma", "", false, false).unwrap();
    assert_eq!(vec!["alpha", "beta", "gamma"], results);
    let lone = search("alpha\r", "alpha", false, false).unwrap();
    assert_eq!(vec!["alpha\r"], lone);
}

#[test]
fn trailing_terminator_adds_no_line() {
    assert_eq!(vec!["a", "b"], search("a\nb\n", "", false, false).unwrap());
    assert_eq!(vec!["a", "b", ""], search("a\nb\n\n", "", false, false).unwrap());
}

#[test]
fn grep_content_follows_the_flags() {
    let args = Args {
        query: String::from("rUsT"),
        file_path: String::from("unused.txt"),
        ignore_case: true,
        use_regex: false,
    };
    let results = pargrep::grep_content(&args, &contents()).unwrap();
    assert_eq!(vec!["Rust:", "Trust me"], results);
}

#[test]
fn long_content_keeps_sequential_order() {
    let mut content = String::new();
    let mut expected: Vec<String> = Vec::new();
    for i in 0..5000 {
        if i % 7 == 0 {
            content.push_str(&format!("needle {}\n", i));
            expected.push(format!("needle {}", i));
        } else {
            content.push_str(&format!("line {}\n", i));
        }
    }
    let results = search(&content, "needle", false, false).unwrap();
    assert_eq!(expected, results);
}
