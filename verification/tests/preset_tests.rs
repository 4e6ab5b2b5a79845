use reddit_search::arguments::get_preset_fields;
use reddit_search::constants::get_presets;
use reddit_search::query::compile;
use reddit_search::line_processing::process_line;

#[test]
fn there_are_five_presets() {
    assert_eq!(get_presets().len(), 5);
}

#[test]
fn news_preset_resolves_to_its_entries() {
    let fields = get_preset_fields("en_news").expect("en_news is built in");
    assert_eq!(fields, vec!["subreddit:news".to_string(), "subreddit:worldnews".to_string()]);
}

#[test]
fn controversial_preset_resolves_to_its_entry() {
    let fields = get_preset_fields("controversial").expect("controversial is built in");
    assert_eq!(fields, vec!["controversiality:1".to_string()]);
}

#[test]
fn politics_preset_has_ten_entries() {
    let fields = get_preset_fields("en_politics").expect("en_politics is built in");
    assert_eq!(fields.len(), 10);
    assert_eq!(fields[0], "subreddit:politics");
}

#[test]
fn unknown_preset_resolves_to_nothing() {
    assert!(get_preset_fields("en_sports").is_none());
    assert!(get_preset_fields("").is_none());
}

#[test]
fn preset_query_compiles_and_matches() {
    let fields = get_preset_fields("en_news").expect("en_news is built in");
    let q = compile(&fields).expect("preset entries always compile");
    assert!(process_line("{\"subreddit\":\"worldnews\"}", &q).is_some());
    assert!(process_line("{\"subreddit\":\"askreddit\"}", &q).is_none());
}
