use reddit_search::query::{compile, ConfigurationError};
use reddit_search::line_processing::process_line;

fn compiled(entries: &[&str]) -> reddit_search::query::MatchSpecification {
    let owned: Vec<String> = entries.iter().map(|s| s.to_string()).collect();
    compile(&owned).expect("query should compile")
}

fn query_hits(entries: &[&str], line: &str) -> bool {
    process_line(line, &compiled(entries)).is_some()
}

#[test]
fn empty_query_is_rejected() {
    let entries: Vec<String> = Vec::new();
    assert_eq!(compile(&entries).err(), Some(ConfigurationError::EmptyQuery));
}

#[test]
fn entry_without_colon_is_rejected() {
    let entries: Vec<String> = vec!["nocolon".to_string()];
    assert_eq!(compile(&entries).err(), Some(ConfigurationError::MalformedQuery(0)));
}

#[test]
fn first_malformed_entry_is_reported() {
    let entries: Vec<String> = vec!["a:b".to_string(), "bad".to_string(), "x".to_string()];
    assert_eq!(compile(&entries).err(), Some(ConfigurationError::MalformedQuery(1)));
}

#[test]
fn single_subreddit_line_matches() {
    assert!(query_hits(&["subreddit:news", "subreddit:worldnews"], "{\"subreddit\":\"news\",\"body\":\"x\"}"));
}

#[test]
fn other_subreddit_line_does_not_match() {
    assert!(!query_hits(&["subreddit:news", "subreddit:worldnews"], "{\"subreddit\":\"politics\"}"));
}

#[test]
fn second_alternative_of_folded_key_matches() {
    assert!(query_hits(&["subreddit:news", "subreddit:worldnews"], "{\"subreddit\":\"worldnews\"}"));
}

#[test]
fn and_across_fields_rejects_partial_match() {
    let q = ["subreddit:news", "controversiality:1"];
    assert!(!query_hits(&q, "{\"subreddit\":\"news\",\"controversiality\":0}"));
    assert!(query_hits(&q, "{\"subreddit\":\"news\",\"controversiality\":1}"));
}

#[test]
fn numeric_value_is_matched_unquoted() {
    assert!(query_hits(&["controversiality:1"], "{\"controversiality\":1}"));
    assert!(!query_hits(&["controversiality:1"], "{\"controversiality\":\"1\"}"));
}

#[test]
fn text_value_is_matched_quoted() {
    assert!(query_hits(&["author:bob"], "{\"author\":\"bob\"}"));
    assert!(!query_hits(&["author:bob"], "{\"author\":bob}"));
}

#[test]
fn boolean_and_null_values_are_unquoted() {
    assert!(query_hits(&["stickied:true"], "{\"stickied\":true}"));
    assert!(!query_hits(&["stickied:true"], "{\"stickied\":\"true\"}"));
    assert!(query_hits(&["edited:false"], "{\"edited\":false}"));
    assert!(query_hits(&["distinguished:null"], "{\"distinguished\":null}"));
}

#[test]
fn spaced_form_is_also_found() {
    assert!(query_hits(&["subreddit:news"], "{\"subreddit\": \"news\"}"));
    assert!(query_hits(&["controversiality:1"], "{\"controversiality\": 1}"));
}

#[test]
fn matching_folds_case() {
    assert!(query_hits(&["SubReddit:NEWS"], "{\"subreddit\":\"news\"}"));
    assert!(query_hits(&["subreddit:news"], "{\"SUBREDDIT\":\"NEWS\"}"));
}

#[test]
fn uppercase_boolean_value_is_classified_after_folding() {
    assert!(query_hits(&["stickied:TRUE"], "{\"stickied\":true}"));
}

#[test]
fn signed_and_decimal_values_are_classified() {
    // "+5" parses as an integer, so it is matched unquoted
    assert!(query_hits(&["score:+5"], "{\"score\": +5}"));
    // "5.5" does not parse as an integer, so it is matched quoted
    assert!(query_hits(&["score:5.5"], "{\"score\":\"5.5\"}"));
    assert!(!query_hits(&["score:5.5"], "{\"score\":5.5}"));
}

#[test]
fn out_of_range_number_is_treated_as_text() {
    // largest i64 still counts as numeric
    assert!(query_hits(&["n:9223372036854775807"], "{\"n\":9223372036854775807}"));
    // one past it does not fit an i64, so the literal is quoted
    assert!(query_hits(&["n:9223372036854775808"], "{\"n\":\"9223372036854775808\"}"));
    assert!(!query_hits(&["n:9223372036854775808"], "{\"n\":9223372036854775808}"));
    // the most negative i64 still fits
    assert!(query_hits(&["n:-9223372036854775808"], "{\"n\":-9223372036854775808}"));
}

#[test]
fn empty_value_is_text() {
    assert!(query_hits(&["k:"], "{\"k\":\"\"}"));
    assert!(!query_hits(&["k:"], "{\"k\":1}"));
}

#[test]
fn value_with_colon_splits_at_first() {
    // the split is at the first colon: key "url", value "http://x"
    assert!(query_hits(&["url:http://x"], "{\"url\":\"http://x\"}"));
}
