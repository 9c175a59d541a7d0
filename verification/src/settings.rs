//! The settings of the pipeline: made once when the process starts, from the
//! one configuration signal there is, and only read afterwards.
//!
//! The signal is the location of the formula checker. Where it is given,
//! formulas are checked through a validation cache of [`CACHE_CAPACITY`]
//! texts; where it is not, formulas are not checked at all. The settings
//! hold no state that changes, so any number of requests may read them at
//! once. The cache that goes with them is a value of its own
//! ([`Settings::new_cache`]), which its owner shares behind a lock.

use vstd::prelude::*;
use crate::cache::{CacheModel, ValidationCache};

verus! {

/// The number of texts that the validation cache holds at most.
pub const CACHE_CAPACITY: usize = 100_000;

/// How the formula checker is reached and how much of its work is kept.
#[derive(Debug)]
pub struct TexChecker {
    /// Where the checker's executable lies.
    pub path: String,
    /// The capacity of the validation cache in front of it.
    pub capacity: usize,
}

/// The settings that the stages of the pipeline read.
#[derive(Debug)]
pub struct Settings {
    /// The formula checker; `None` where formulas are not checked.
    pub tex_checker: Option<TexChecker>,
}

impl Default for Settings {
    /// The settings without a formula checker.
    fn default() -> (settings: Settings)
        ensures
            settings.tex_checker is None,
    {
        Settings { tex_checker: None }
    }
}

impl Settings {
    /// The settings for a process that was given `checker_path` as the
    /// location of the formula checker, or none.
    pub fn new(checker_path: Option<String>) -> (settings: Settings)
        ensures
            match checker_path {
                Some(path) => settings.tex_checker matches Some(checker) && checker.path@ == path@
                    && checker.capacity == CACHE_CAPACITY,
                None => settings.tex_checker is None,
            },
    {
        match checker_path {
            Some(path) => Settings {
                tex_checker: Some(TexChecker { path, capacity: CACHE_CAPACITY }),
            },
            None => Settings { tex_checker: None },
        }
    }

    /// Whether formulas are checked.
    pub fn checks_formulas(&self) -> (checks: bool)
        ensures
            checks == self.tex_checker is Some,
    {
        self.tex_checker.is_some()
    }

    /// The validation cache that goes with these settings, empty: one of
    /// the configured capacity where formulas are checked, and none where
    /// they are not.
    pub fn new_cache(&self) -> (cache: Option<ValidationCache>)
        ensures
            match self.tex_checker {
                Some(checker) => cache matches Some(c) && c@ == CacheModel::empty(
                    checker.capacity as nat,
                ),
                None => cache is None,
            },
    {
        match &self.tex_checker {
            Some(checker) => Some(ValidationCache::new(checker.capacity)),
            None => None,
        }
    }
}

} // verus!
