use mwlint_web::cache::{ValidationCache, ValidationOutcome};

fn invalid(diagnostic: &str) -> ValidationOutcome {
    ValidationOutcome::Invalid(diagnostic.to_string())
}

fn is_invalid_with(outcome: Option<ValidationOutcome>, diagnostic: &str) -> bool {
    matches!(outcome, Some(ValidationOutcome::Invalid(d)) if d == diagnostic)
}

#[test]
fn new_cache_is_empty() {
    let cache = ValidationCache::new(3);
    assert_eq!(cache.len(), 0);
    assert_eq!(cache.capacity(), 3);
}

#[test]
fn lookup_of_unknown_text_misses_and_changes_nothing() {
    let mut cache = ValidationCache::new(3);
    cache.record("x^2".to_string(), ValidationOutcome::Valid);
    assert!(cache.lookup("y^2").is_none());
    assert_eq!(cache.len(), 1);
    assert!(cache.lookup("x^2").is_some());
}

#[test]
fn recorded_outcome_comes_back_on_lookup() {
    let mut cache = ValidationCache::new(3);
    cache.record("\\frac{1}{2}".to_string(), ValidationOutcome::Valid);
    cache.record("\\frac{1}".to_string(), invalid("syntax error"));
    assert!(matches!(cache.lookup("\\frac{1}{2}"), Some(ValidationOutcome::Valid)));
    assert!(is_invalid_with(cache.lookup("\\frac{1}"), "syntax error"));
    assert_eq!(cache.len(), 2);
}

#[test]
fn one_text_past_capacity_evicts_the_least_recently_used() {
    let mut cache = ValidationCache::new(2);
    cache.record("a".to_string(), ValidationOutcome::Valid);
    cache.record("b".to_string(), invalid("b is bad"));
    cache.record("c".to_string(), ValidationOutcome::Valid);
    assert_eq!(cache.len(), 2);
    assert!(cache.lookup("a").is_none());
    assert!(is_invalid_with(cache.lookup("b"), "b is bad"));
    assert!(matches!(cache.lookup("c"), Some(ValidationOutcome::Valid)));
}

#[test]
fn lookup_refreshes_recency() {
    let mut cache = ValidationCache::new(2);
    cache.record("a".to_string(), ValidationOutcome::Valid);
    cache.record("b".to_string(), ValidationOutcome::Valid);
    assert!(cache.lookup("a").is_some());
    cache.record("c".to_string(), ValidationOutcome::Valid);
    assert!(cache.lookup("a").is_some());
    assert!(cache.lookup("b").is_none());
    assert!(cache.lookup("c").is_some());
}

#[test]
fn missed_lookup_refreshes_nothing() {
    let mut cache = ValidationCache::new(2);
    cache.record("a".to_string(), ValidationOutcome::Valid);
    cache.record("b".to_string(), ValidationOutcome::Valid);
    assert!(cache.lookup("z").is_none());
    cache.record("c".to_string(), ValidationOutcome::Valid);
    assert!(cache.lookup("a").is_none());
    assert!(cache.lookup("b").is_some());
}

#[test]
fn cache_of_one_cannot_protect_the_text_it_holds() {
    let mut cache = ValidationCache::new(1);
    cache.record("a".to_string(), ValidationOutcome::Valid);
    assert!(cache.lookup("a").is_some());
    cache.record("b".to_string(), ValidationOutcome::Valid);
    assert!(cache.lookup("a").is_none());
    assert!(cache.lookup("b").is_some());
    assert_eq!(cache.len(), 1);
}

#[test]
fn cache_of_none_holds_nothing() {
    let mut cache = ValidationCache::new(0);
    cache.record("a".to_string(), ValidationOutcome::Valid);
    assert_eq!(cache.len(), 0);
    assert!(cache.lookup("a").is_none());
}

#[test]
fn recording_a_stored_text_replaces_its_outcome() {
    let mut cache = ValidationCache::new(2);
    cache.record("a".to_string(), ValidationOutcome::Valid);
    cache.record("b".to_string(), ValidationOutcome::Valid);
    cache.record("a".to_string(), invalid("changed"));
    assert_eq!(cache.len(), 2);
    assert!(is_invalid_with(cache.lookup("a"), "changed"));
    // "a" was refreshed twice, so "b" is the one that leaves.
    cache.record("c".to_string(), ValidationOutcome::Valid);
    assert!(cache.lookup("b").is_none());
    assert!(cache.lookup("a").is_some());
}

#[test]
fn size_never_exceeds_capacity() {
    let mut cache = ValidationCache::new(5);
    for i in 0..50 {
        cache.record(format!("formula {}", i), ValidationOutcome::Valid);
        assert!(cache.len() <= 5);
    }
    assert_eq!(cache.len(), 5);
    for i in 0..45 {
        assert!(cache.lookup(&format!("formula {}", i)).is_none());
    }
    for i in 45..50 {
        assert!(cache.lookup(&format!("formula {}", i)).is_some());
    }
}

#[test]
fn texts_are_told_apart_exactly() {
    let mut cache = ValidationCache::new(4);
    cache.record("a".to_string(), ValidationOutcome::Valid);
    assert!(cache.lookup("a ").is_none());
    assert!(cache.lookup("A").is_none());
    assert!(cache.lookup("").is_none());
    cache.record("".to_string(), invalid("empty"));
    assert!(is_invalid_with(cache.lookup(""), "empty"));
}

#[test]
fn outcome_says_whether_it_is_valid() {
    assert!(ValidationOutcome::Valid.is_valid());
    assert!(!invalid("no").is_valid());
    assert!(matches!(invalid("no").duplicate(), ValidationOutcome::Invalid(d) if d == "no"));
    assert!(matches!(ValidationOutcome::Valid.duplicate(), ValidationOutcome::Valid));
}
