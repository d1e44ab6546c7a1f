use minigrep::{search, search_case_insensitive, Config, ConfigError};

fn args(items: &[&str]) -> Vec<String> {
    items.iter().map(|s| s.to_string()).collect()
}

#[test]
fn case_sensitive() {
    let query = "duct";
    let contents = "\
        Rust:
safe, fast, productive.
Pick three.";

    assert_eq!(vec!["safe, fast, productive."], search(query, contents))
}

#[test]
fn case_insensitive() {
    let query = "rUsT";
    let contents = "\
        Rust:
safe, fast, productive.
Trust me.";

    assert_eq!(
        vec!["Rust:", "Trust me."],
        search_case_insensitive(query, contents)
    )
}

#[test]
fn case_sensitive_skips_other_casing() {
    let contents = "Rust:\nsafe, fast, productive.\nTrust me.";
    assert_eq!(vec!["Trust me."], search("rust", contents));
    assert_eq!(Vec::<&str>::new(), search("rUsT", contents));
}

#[test]
fn every_exact_match_is_a_folded_match() {
    let contents = "Rust:\nsafe, fast, productive.\nTrust me.\nrusty";
    let exact = search("Rust", contents);
    let folded = search_case_insensitive("Rust", contents);
    assert_eq!(vec!["Rust:"], exact);
    assert_eq!(vec!["Rust:", "Trust me.", "rusty"], folded);
    for line in &exact {
        assert!(folded.contains(line));
    }
}

#[test]
fn repeated_search_gives_the_same_lines() {
    let contents = "one\ntwo\nthree\n";
    assert_eq!(search("o", contents), search("o", contents));
    assert_eq!(
        search_case_insensitive("O", contents),
        search_case_insensitive("O", contents)
    );
}

#[test]
fn empty_needle_matches_every_line() {
    let contents = "a\n\nb";
    assert_eq!(vec!["a", "", "b"], search("", contents));
    assert_eq!(vec!["a", "", "b"], search_case_insensitive("", contents));
}

#[test]
fn empty_text_has_no_matches() {
    assert_eq!(Vec::<&str>::new(), search("x", ""));
    assert_eq!(Vec::<&str>::new(), search_case_insensitive("x", ""));
    assert_eq!(Vec::<&str>::new(), search("", ""));
}

#[test]
fn crlf_ends_a_line() {
    let contents = "alpha\r\nbeta\r\ngamma";
    assert_eq!(vec!["alpha", "beta", "gamma"], search("", contents));
    assert_eq!(vec!["beta"], search("eta", contents));
}

#[test]
fn final_newline_starts_no_line() {
    assert_eq!(vec!["x", "y"], search("", "x\ny\n"));
    assert_eq!(vec![""], search("", "\n"));
}

#[test]
fn lone_carriage_return_at_end_stays() {
    assert_eq!(vec!["a", "baz\r"], search("", "a\nbaz\r"));
}

#[test]
fn needle_longer_than_line() {
    assert_eq!(Vec::<&str>::new(), search("longer", "long\nlon"));
}

#[test]
fn non_ascii_lines_come_back_whole() {
    let contents = "caf\u{e9} au lait\nth\u{e9}\nCAF\u{c9}";
    assert_eq!(vec!["caf\u{e9} au lait"], search("f\u{e9}", contents));
    assert_eq!(vec!["caf\u{e9} au lait", "CAF\u{c9}"], search_case_insensitive("CAF", contents));
    // Only ASCII letters are folded.
    assert_eq!(vec!["caf\u{e9} au lait"], search_case_insensitive("F\u{e9}", contents));
}

#[test]
fn build_without_needle_fails() {
    let r = Config::build(args(&["progname"]), false);
    assert_eq!(Some(ConfigError::MissingQuery), r.err());
    let r = Config::build(args(&[]), false);
    assert_eq!(Some(ConfigError::MissingQuery), r.err());
}

#[test]
fn build_without_file_fails() {
    let r = Config::build(args(&["progname", "needle"]), true);
    assert_eq!(Some(ConfigError::MissingFile), r.err());
}

#[test]
fn build_takes_needle_file_and_flag() {
    let c = Config::build(args(&["progname", "needle", "poem.txt", "extra"]), true).ok().unwrap();
    assert_eq!("needle", c.needle());
    assert_eq!("poem.txt", c.haystack());
    assert!(c.ignore_case());
    let c = Config::build(args(&["progname", "n", "f"]), false).ok().unwrap();
    assert!(!c.ignore_case());
}

#[test]
fn error_messages() {
    assert_eq!("No query", ConfigError::MissingQuery.message());
    assert_eq!("No file", ConfigError::MissingFile.message());
}

#[test]
fn matching_lines_follows_the_flag() {
    let contents = "Rust:\nsafe, fast, productive.\nTrust me.";
    let exact = Config::build(args(&["p", "rUsT", "f"]), false).ok().unwrap();
    assert_eq!(Vec::<&str>::new(), exact.matching_lines(contents));
    let folded = Config::build(args(&["p", "rUsT", "f"]), true).ok().unwrap();
    assert_eq!(vec!["Rust:", "Trust me."], folded.matching_lines(contents));
}
