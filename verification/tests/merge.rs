use serpapi::params::ParameterSet;
use serpapi::query::merge;

fn set_of(pairs: &[(&str, &str)]) -> ParameterSet {
    let mut set = ParameterSet::new();
    for (name, value) in pairs {
        set.insert(name.to_string(), value.to_string());
    }
    set
}

fn sorted(set: &ParameterSet) -> Vec<(String, String)> {
    let mut pairs = set.to_pairs();
    pairs.sort();
    pairs
}

fn pair(name: &str, value: &str) -> (String, String) {
    (name.to_string(), value.to_string())
}

#[test]
fn merge_of_nothing_is_the_marker() {
    let query = merge(&ParameterSet::new(), &ParameterSet::new());
    assert_eq!(sorted(&query), vec![pair("source", "rust")]);
}

#[test]
fn override_wins_over_default() {
    let defaults = set_of(&[("engine", "google"), ("q", "tea"), ("api_key", "K")]);
    let overrides = set_of(&[("q", "coffee"), ("location", "Austin")]);
    let query = merge(&defaults, &overrides);
    assert_eq!(query.get("q"), Some(&"coffee".to_string()));
    assert_eq!(query.get("engine"), Some(&"google".to_string()));
    assert_eq!(query.get("api_key"), Some(&"K".to_string()));
    assert_eq!(query.get("location"), Some(&"Austin".to_string()));
    assert_eq!(
        sorted(&query),
        vec![
            pair("api_key", "K"),
            pair("engine", "google"),
            pair("location", "Austin"),
            pair("q", "coffee"),
            pair("source", "rust"),
        ]
    );
}

#[test]
fn default_only_and_override_only_names_keep_their_values() {
    let defaults = set_of(&[("engine", "google")]);
    let overrides = set_of(&[("q", "coffee")]);
    let query = merge(&defaults, &overrides);
    assert_eq!(query.len(), 3);
    assert_eq!(query.get("engine"), Some(&"google".to_string()));
    assert_eq!(query.get("q"), Some(&"coffee".to_string()));
}

#[test]
fn marker_is_present_whatever_the_sets_hold() {
    let empty = ParameterSet::new();
    let some = set_of(&[("q", "coffee"), ("engine", "google")]);
    assert_eq!(merge(&empty, &empty).get("source"), Some(&"rust".to_string()));
    assert_eq!(merge(&some, &empty).get("source"), Some(&"rust".to_string()));
    assert_eq!(merge(&empty, &some).get("source"), Some(&"rust".to_string()));
    assert_eq!(merge(&some, &some).get("source"), Some(&"rust".to_string()));
}

#[test]
fn override_of_the_marker_wins() {
    let defaults = set_of(&[("engine", "google")]);
    let overrides = set_of(&[("source", "python")]);
    let query = merge(&defaults, &overrides);
    assert_eq!(query.get("source"), Some(&"python".to_string()));
    assert_eq!(query.len(), 2);
}

#[test]
fn default_of_the_marker_wins_over_the_marker() {
    let defaults = set_of(&[("source", "ruby")]);
    let query = merge(&defaults, &ParameterSet::new());
    assert_eq!(sorted(&query), vec![pair("source", "ruby")]);
}

#[test]
fn override_of_the_marker_wins_over_a_default_of_it() {
    let defaults = set_of(&[("source", "ruby")]);
    let overrides = set_of(&[("source", "python")]);
    let query = merge(&defaults, &overrides);
    assert_eq!(sorted(&query), vec![pair("source", "python")]);
}

#[test]
fn merging_twice_gives_equal_queries() {
    let defaults = set_of(&[("engine", "google"), ("api_key", "K"), ("q", "tea")]);
    let overrides = set_of(&[("q", "coffee"), ("location", "Austin, TX, Texas, United States")]);
    let first = merge(&defaults, &overrides);
    let second = merge(&defaults, &overrides);
    assert_eq!(sorted(&first), sorted(&second));
    assert_eq!(first.len(), 5);
}

#[test]
fn merging_leaves_the_sets_as_they_were() {
    let defaults = set_of(&[("engine", "google"), ("q", "tea")]);
    let overrides = set_of(&[("q", "coffee")]);
    let _ = merge(&defaults, &overrides);
    assert_eq!(sorted(&defaults), vec![pair("engine", "google"), pair("q", "tea")]);
    assert_eq!(sorted(&overrides), vec![pair("q", "coffee")]);
}

#[test]
fn merging_the_overrides_again_changes_nothing() {
    let defaults = set_of(&[("engine", "google"), ("q", "tea")]);
    let overrides = set_of(&[("q", "coffee"), ("source", "python")]);
    let once = merge(&defaults, &overrides);
    let twice = merge(&once, &overrides);
    assert_eq!(sorted(&once), sorted(&twice));
}
