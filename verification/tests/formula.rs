use mwlint_web::cache::{ValidationCache, ValidationOutcome};
use mwlint_web::formula::{conclude, consult};

#[test]
fn without_a_cache_every_formula_counts_as_valid() {
    let mut cache: Option<ValidationCache> = None;
    for text in ["x^2", "\\frac{", "", "}}}{{{", "\\unknownmacro"] {
        let settled = consult(&mut cache, text);
        assert!(matches!(settled, Some(ValidationOutcome::Valid)));
        assert!(cache.is_none());
    }
}

#[test]
fn miss_asks_for_the_checker_and_hit_does_not() {
    let mut cache = Some(ValidationCache::new(10));
    assert!(consult(&mut cache, "x^2").is_none());
    let verdict = conclude(&mut cache, "x^2".to_string(), Ok(ValidationOutcome::Valid));
    assert!(verdict.is_valid());
    assert!(matches!(consult(&mut cache, "x^2"), Some(ValidationOutcome::Valid)));
}

#[test]
fn refused_formula_is_remembered_with_its_diagnostic() {
    let mut cache = Some(ValidationCache::new(10));
    assert!(consult(&mut cache, "\\frac{").is_none());
    let verdict = conclude(
        &mut cache,
        "\\frac{".to_string(),
        Ok(ValidationOutcome::Invalid("syntax error".to_string())),
    );
    assert!(matches!(verdict, ValidationOutcome::Invalid(d) if d == "syntax error"));
    let again = consult(&mut cache, "\\frac{");
    assert!(matches!(again, Some(ValidationOutcome::Invalid(d)) if d == "syntax error"));
}

#[test]
fn checker_that_cannot_run_fails_the_formula_and_is_not_remembered() {
    let mut cache = Some(ValidationCache::new(10));
    assert!(consult(&mut cache, "x^2").is_none());
    let verdict = conclude(
        &mut cache,
        "x^2".to_string(),
        Err("No such file or directory (os error 2)".to_string()),
    );
    assert!(!verdict.is_valid());
    assert!(matches!(
        verdict,
        ValidationOutcome::Invalid(d) if d == "No such file or directory (os error 2)"
    ));
    assert_eq!(cache.as_ref().map(|c| c.len()), Some(0));
    assert!(consult(&mut cache, "x^2").is_none());
}

#[test]
fn conclusion_without_a_cache_stores_nothing() {
    let mut cache: Option<ValidationCache> = None;
    let verdict = conclude(&mut cache, "x".to_string(), Ok(ValidationOutcome::Valid));
    assert!(verdict.is_valid());
    assert!(cache.is_none());
}

#[test]
fn consulting_counts_as_use() {
    let mut cache = Some(ValidationCache::new(2));
    conclude(&mut cache, "a".to_string(), Ok(ValidationOutcome::Valid));
    conclude(&mut cache, "b".to_string(), Ok(ValidationOutcome::Valid));
    assert!(consult(&mut cache, "a").is_some());
    conclude(&mut cache, "c".to_string(), Ok(ValidationOutcome::Valid));
    assert!(consult(&mut cache, "a").is_some());
    assert!(consult(&mut cache, "b").is_none());
}
