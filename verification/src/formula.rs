//! Checking one formula through the validation cache, where there is one.
//!
//! Running the checker is the caller's part. It first asks [`consult`]; only
//! where that settles nothing it runs the checker, and then hands what came
//! of it to [`conclude`]. Without a cache formulas are not checked: every
//! text counts as valid, and the checker is never asked for.

use vstd::prelude::*;
use crate::cache::{CacheModel, OutcomeView, ValidationCache, ValidationOutcome};

verus! {

/// What is known of `text` before the checker runs: without a cache, that it
/// counts as valid; with one, the stored outcome if there is one.
pub open spec fn known(cache: Option<CacheModel>, text: Seq<char>) -> Option<OutcomeView> {
    match cache {
        None => Some(OutcomeView::Valid),
        Some(c) => if c.contains(text) {
            Some(c.stored(text))
        } else {
            None
        },
    }
}

/// The cache after `text` was asked for.
pub open spec fn consulted(cache: Option<CacheModel>, text: Seq<char>) -> Option<CacheModel> {
    match cache {
        None => None,
        Some(c) => Some(c.touched(text)),
    }
}

/// The verdict on a text whose check ended in `checked`: the checker's
/// outcome, or, where the checker could not be run, a refusal with the
/// reason.
pub open spec fn verdict_of(checked: Result<OutcomeView, Seq<char>>) -> OutcomeView {
    match checked {
        Ok(outcome) => outcome,
        Err(reason) => OutcomeView::Invalid(reason),
    }
}

/// The cache after the check of `text` ended in `checked`: an outcome of the
/// checker is stored, a failure to run it is not.
pub open spec fn concluded(
    cache: Option<CacheModel>,
    text: Seq<char>,
    checked: Result<OutcomeView, Seq<char>>,
) -> Option<CacheModel> {
    match (cache, checked) {
        (Some(c), Ok(outcome)) => Some(c.recorded(text, outcome)),
        _ => cache,
    }
}

/// The value of an optional cache.
pub open spec fn model_of(cache: Option<ValidationCache>) -> Option<CacheModel> {
    match cache {
        Some(c) => Some(c@),
        None => None,
    }
}

/// Asks what is known of `text` without running the checker. `Some` settles
/// the check; `None` means that the checker has to run. A stored text
/// becomes the most recently used one.
pub fn consult(cache: &mut Option<ValidationCache>, text: &str) -> (settled: Option<
    ValidationOutcome,
>)
    ensures
        model_of(*final(cache)) == consulted(model_of(*old(cache)), text@),
        match settled {
            Some(outcome) => known(model_of(*old(cache)), text@) == Some(outcome@),
            None => known(model_of(*old(cache)), text@) is None,
        },
        *old(cache) is None ==> (settled matches Some(outcome) && outcome@ == OutcomeView::Valid),
{
    match cache {
        Some(c) => c.lookup(text),
        None => Some(ValidationOutcome::Valid),
    }
}

/// Takes what came of running the checker on `text`: its outcome, or the
/// reason why it could not be run. Gives the verdict on the text, and stores
/// an outcome of the checker in the cache, if there is one.
pub fn conclude(
    cache: &mut Option<ValidationCache>,
    text: String,
    checked: Result<ValidationOutcome, String>,
) -> (verdict: ValidationOutcome)
    ensures
        model_of(*final(cache)) == concluded(
            model_of(*old(cache)),
            text@,
            match checked {
                Ok(outcome) => Ok(outcome@),
                Err(reason) => Err(reason@),
            },
        ),
        verdict@ == verdict_of(
            match checked {
                Ok(outcome) => Ok(outcome@),
                Err(reason) => Err(reason@),
            },
        ),
{
    match checked {
        Ok(outcome) => {
            let verdict = outcome.duplicate();
            match cache {
                Some(c) => {
                    c.record(text, outcome);
                },
                None => {},
            }
            verdict
        },
        Err(reason) => ValidationOutcome::Invalid(reason),
    }
}

/// Without a cache no formula fails its check, whatever its text.
pub proof fn lemma_no_cache_no_failure(text: Seq<char>)
    ensures
        known(None, text) == Some(OutcomeView::Valid),
        consulted(None, text) is None,
{
}

} // verus!
