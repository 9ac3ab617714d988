use pargrep::search;

fn poem() -> String {
    String::from(
        "I'm nobody! Who are you?\n\
         Are you nobody, too?\n\
         Then there's a pair of us - don't tell!\n\
         They'd banish us, you know.\n\
         \n\
         How dreary to be somebody!\n\
         How public, like a frog\n\
         To tell your name the livelong day\n\
         To an admiring bog!\n",
    )
}

#[test]
fn grep_case_sensitive() {
    let results = search(&poem(), "How", false, false).unwrap();
    assert_eq!(vec!["How dreary to be somebody!", "How public, like a frog"], results);
}

#[test]
fn grep_case_insensitive() {
    let results = search(&poem(), "how", true, false).unwrap();
    assert_eq!(vec!["How dreary to be somebody!", "How public, like a frog"], results);
}

#[test]
fn grep_regex_basic_search() {
    let results = search(&poem(), r" to\b", false, true).unwrap();
    assert_eq!(vec!["How dreary to be somebody!"], results);
}

#[test]
fn grep_regex_special_characters_search() {
    let results = search(&poem(), r" \b\w+\b\!", false, true).unwrap();
    assert_eq!(
        vec![
            "I'm nobody! Who are you?",
            "Then there's a pair of us - don't tell!",
            "How dreary to be somebody!",
            "To an admiring bog!",
        ],
        results,
    );
}

#[test]
fn grep_regex_case_insensitive_search() {
    let results = search(&poem(), r"^to", true, true).unwrap();
    assert_eq!(vec!["To tell your name the livelong day", "To an admiring bog!"], results);
}

#[test]
fn grep_regex_no_match_search() {
    let results = search(&poem(), r"Does not exist", true, true).unwrap();
    assert!(results.is_empty());
}

#[test]
fn grep_regex_edge_cases_search() {
    let results = search(&poem(), r"^Are.*too\?$", true, true).unwrap();
    assert_eq!(vec!["Are you nobody, too?"], results);
}
