use reddit_search::query::compile;
use reddit_search::line_processing::{process_chunk, process_chunk_parallel};
use reddit_search::chunking::chunk_all;

fn news_query() -> reddit_search::query::MatchSpecification {
    let entries: Vec<String> = vec!["subreddit:news".to_string(), "subreddit:worldnews".to_string()];
    compile(&entries).expect("query should compile")
}

fn sample_lines() -> Vec<String> {
    vec![
        "{\"subreddit\":\"news\",\"body\":\"a\"}".to_string(),
        "{\"subreddit\":\"politics\",\"body\":\"b\"}".to_string(),
        "{\"subreddit\":\"worldnews\",\"body\":\"c\"}".to_string(),
        "{\"subreddit\":\"funny\",\"body\":\"d\"}".to_string(),
        "{\"subreddit\":\"news\",\"body\":\"e\"}".to_string(),
    ]
}

fn expected_matches() -> Vec<String> {
    vec![
        "{\"subreddit\":\"news\",\"body\":\"a\"}".to_string(),
        "{\"subreddit\":\"worldnews\",\"body\":\"c\"}".to_string(),
        "{\"subreddit\":\"news\",\"body\":\"e\"}".to_string(),
    ]
}

#[test]
fn sequential_chunk_keeps_matching_lines_in_order() {
    let q = news_query();
    assert_eq!(process_chunk(sample_lines(), &q), expected_matches());
}

#[test]
fn parallel_chunk_agrees_with_sequential() {
    let q = news_query();
    let sequential = process_chunk(sample_lines(), &q);
    let parallel = process_chunk_parallel(sample_lines(), &q);
    assert_eq!(parallel, sequential);
    assert_eq!(parallel, expected_matches());
}

#[test]
fn empty_batch_yields_no_matches() {
    let q = news_query();
    assert_eq!(process_chunk(Vec::new(), &q), Vec::<String>::new());
    assert_eq!(process_chunk_parallel(Vec::new(), &q), Vec::<String>::new());
}

#[test]
fn batch_size_does_not_change_the_result() {
    let q = news_query();
    let whole = process_chunk(sample_lines(), &q);
    for size in [1usize, 2, 3, 100] {
        let mut rejoined: Vec<String> = Vec::new();
        for batch in chunk_all(&sample_lines(), size) {
            rejoined.extend(process_chunk(batch, &q));
        }
        assert_eq!(rejoined, whole);
    }
}

#[test]
fn no_match_in_any_batch_is_fine() {
    let q = news_query();
    let lines = vec!["{\"subreddit\":\"pics\"}".to_string()];
    assert_eq!(process_chunk(lines, &q), Vec::<String>::new());
}
