use reddit_search::chunking::{Chunker, chunk_all};

fn lines_of(texts: &[&str]) -> Vec<String> {
    texts.iter().map(|s| s.to_string()).collect()
}

#[test]
fn empty_stream_yields_zero_batches() {
    let lines: Vec<String> = Vec::new();
    let batches = chunk_all(&lines, 5);
    assert_eq!(batches.len(), 0);
}

#[test]
fn batches_keep_size_and_order() {
    let lines = lines_of(&["a", "b", "c", "d", "e"]);
    let batches = chunk_all(&lines, 2);
    assert_eq!(batches.len(), 3);
    assert_eq!(batches[0], vec!["a".to_string(), "b".to_string()]);
    assert_eq!(batches[1], vec!["c".to_string(), "d".to_string()]);
    assert_eq!(batches[2], vec!["e".to_string()]);
    let rejoined: Vec<String> = batches.into_iter().flatten().collect();
    assert_eq!(rejoined, lines);
}

#[test]
fn exact_multiple_has_no_undersized_batch() {
    let lines = lines_of(&["a", "b", "c", "d"]);
    let batches = chunk_all(&lines, 2);
    assert_eq!(batches.len(), 2);
    assert_eq!(batches[0].len(), 2);
    assert_eq!(batches[1].len(), 2);
}

#[test]
fn batch_size_one_still_covers_everything() {
    let lines = lines_of(&["a", "b", "c"]);
    let batches = chunk_all(&lines, 1);
    assert_eq!(batches.len(), 3);
    for (i, b) in batches.iter().enumerate() {
        assert_eq!(b.len(), 1);
        assert_eq!(b[0], lines[i]);
    }
}

#[test]
fn chunker_emits_on_capacity_and_on_finish() {
    let mut chunker = Chunker::new(2);
    assert!(chunker.push("a".to_string()).is_none());
    let full = chunker.push("b".to_string()).expect("second line completes the batch");
    assert_eq!(full, vec!["a".to_string(), "b".to_string()]);
    assert!(chunker.push("c".to_string()).is_none());
    let rest = chunker.finish().expect("one line is pending");
    assert_eq!(rest, vec!["c".to_string()]);
}

#[test]
fn chunker_finish_on_boundary_is_empty() {
    let mut chunker = Chunker::new(1);
    let full = chunker.push("a".to_string()).expect("every line completes a batch");
    assert_eq!(full, vec!["a".to_string()]);
    assert!(chunker.finish().is_none());
}
