use minigrep::config::{collect_flags, starts_with_hyphen, Config};
use minigrep::search::{search, search_case_insensitive, select_matching, split_lines};

const POEM: &str = "\
Rust:
safe, fast, productive.
Pick three.";

#[test]
fn one_result() {
    let query = "duct";
    let contents = "\
Rust:
safe, fast, productive.
Pick three.";
    assert_eq!(vec!["safe, fast, productive."], search(query, contents))
}

#[test]
fn case_insensitive() {
    let query = "DUCT";
    let contents = "\
Rust:
safe, fast, productive.
Pick three.";
    assert_eq!(vec!["safe, fast, productive."], search_case_insensitive(query, contents))
}

#[test]
fn no_results_with_mismatched_case() {
    let query = "DUCT";
    let contents = "\
Rust:
safe, fast, productive.
Pick three.";
    assert_ne!(vec!["safe, fast, productive."], search(query, contents))
}

#[test]
fn mismatched_case_gives_no_lines() {
    assert!(search("DUCT", POEM).is_empty());
}

#[test]
fn empty_query_returns_every_line_case_sensitive() {
    assert_eq!(vec!["Rust:", "safe, fast, productive.", "Pick three."], search("", POEM));
}

#[test]
fn empty_query_returns_every_line_case_insensitive() {
    assert_eq!(
        vec!["Rust:", "safe, fast, productive.", "Pick three."],
        search_case_insensitive("", POEM)
    );
}

#[test]
fn empty_query_keeps_empty_lines() {
    assert_eq!(vec!["a", "", "b"], search("", "a\n\nb"));
}

#[test]
fn matches_come_in_text_order() {
    let contents = "one x\ntwo\nthree x\nfour\nx five";
    assert_eq!(vec!["one x", "three x", "x five"], search("x", contents));
}

#[test]
fn case_insensitive_keeps_original_case() {
    let contents = "Rust:\nTrust me.\nnothing here";
    assert_eq!(vec!["Rust:", "Trust me."], search_case_insensitive("rUsT", contents));
    assert_eq!(vec!["Trust me."], search("rust", contents));
}

#[test]
fn case_insensitive_folds_non_ascii_letters() {
    let contents = "Ein ÄPFEL\nBirne";
    assert_eq!(vec!["Ein ÄPFEL"], search_case_insensitive("äpfel", contents));
    assert!(search("äpfel", contents).is_empty());
}

#[test]
fn carriage_return_stays_on_line() {
    assert_eq!(vec!["a\r"], search("a", "a\r\nb\r\n"));
    assert!(search("a\n", "a\nb").is_empty());
}

#[test]
fn no_match_is_empty_result() {
    assert!(search("zzz", POEM).is_empty());
    assert!(search_case_insensitive("ZZZ", POEM).is_empty());
}

#[test]
fn empty_content_has_no_lines() {
    assert!(search("", "").is_empty());
    assert!(split_lines("").is_empty());
}

#[test]
fn final_newline_opens_no_line() {
    assert_eq!(vec!["x"], split_lines("x\n"));
    assert_eq!(vec!["x", ""], split_lines("x\n\n"));
    assert_eq!(vec!["", "y"], split_lines("\ny"));
}

#[test]
fn select_matching_goes_by_keys() {
    let lines = vec!["Alpha", "Beta", "Gamma"];
    let keys = vec!["one".to_string(), "two".to_string(), "one".to_string()];
    assert_eq!(vec!["Alpha", "Gamma"], select_matching(&lines, &keys, "on"));
    assert!(select_matching(&lines, &keys, "Alpha").is_empty());
}

#[test]
fn select_matching_empty_query_keeps_all() {
    let lines = vec!["X", "Y"];
    let keys = vec!["p".to_string(), "q".to_string()];
    assert_eq!(vec!["X", "Y"], select_matching(&lines, &keys, ""));
}

fn strings(v: &[&str]) -> Vec<String> {
    v.iter().map(|s| s.to_string()).collect()
}

#[test]
fn config_needs_query_and_filename() {
    let args = strings(&["prog", "query"]);
    assert!(matches!(Config::new(&args), Err("not enough arguments")));
    let args = strings(&["prog"]);
    assert!(Config::new(&args).is_err());
    assert!(Config::new(&[]).is_err());
}

#[test]
fn config_reads_positional_arguments() {
    let args = strings(&["prog", "needle", "poem.txt"]);
    let config = Config::new(&args).ok().unwrap();
    assert_eq!("needle", config.query);
    assert_eq!("poem.txt", config.filename);
    assert!(config.case_sensitive);
    assert!(config.flags.is_empty());
}

#[test]
fn config_records_flags_without_effect() {
    let args = strings(&["prog", "needle", "poem.txt", "-i", "extra", "-", "x-y"]);
    let config = Config::new(&args).ok().unwrap();
    assert_eq!(strings(&["-i", "-"]), config.flags);
    assert!(config.case_sensitive);
}

#[test]
fn hyphen_test_looks_at_first_character() {
    assert!(starts_with_hyphen("-i"));
    assert!(starts_with_hyphen("-"));
    assert!(!starts_with_hyphen(""));
    assert!(!starts_with_hyphen("i-"));
}

#[test]
fn collect_flags_starts_at_position() {
    let args = strings(&["-a", "b", "-c", "-d"]);
    assert_eq!(strings(&["-c", "-d"]), collect_flags(&args, 1));
    assert!(collect_flags(&args, 4).is_empty());
}

#[test]
fn find_matches_follows_case_setting() {
    let args = strings(&["prog", "RUST", "poem.txt"]);
    let mut config = Config::new(&args).ok().unwrap();
    assert!(config.find_matches(POEM).is_empty());
    config.case_sensitive = false;
    assert_eq!(vec!["Rust:"], config.find_matches(POEM));
}
