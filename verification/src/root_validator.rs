//! Validation of candidate roots produced by suffix stripping: a candidate
//! must reach the configured minimum length, and in strict mode it must also
//! be a known lemma (a value of the lemma dictionary).

use vstd::prelude::*;

use crate::chars::chars_vec;
use crate::lemma::{default_pairs, dict_has_value, get_lemma_dict, spec_contains_value, LemmaDict};

verus! {

/// Whether a candidate root is acceptable: long enough, and in strict mode a
/// known lemma.
pub open spec fn spec_is_valid_root(
    pairs: Seq<(Seq<char>, Seq<char>)>,
    cand: Seq<char>,
    min: int,
    strict: bool,
) -> bool {
    cand.len() >= min && (!strict || spec_contains_value(pairs, cand))
}

/// Accepts or rejects candidate stems, configured with a minimum root length
/// and a strict flag; strict validation checks the candidate against the
/// lemma dictionary's values.
pub struct RootValidator {
    pub min_root_length: usize,
    pub strict: bool,
    pub dict: LemmaDict,
}

impl RootValidator {
    pub fn new(min_root_length: usize, strict: bool) -> (r: RootValidator)
        ensures
            r.min_root_length == min_root_length,
            r.strict == strict,
            r.dict@ == default_pairs(),
    {
        RootValidator { min_root_length, strict, dict: get_lemma_dict() }
    }

    /// The length and (in strict mode) dictionary test on a candidate given
    /// as characters.
    pub fn valid_root_chars(&self, cand: &Vec<char>) -> (r: bool)
        ensures
            r == spec_is_valid_root(
                self.dict@,
                cand@,
                self.min_root_length as int,
                self.strict,
            ),
    {
        if cand.len() < self.min_root_length {
            false
        } else if self.strict {
            dict_has_value(&self.dict, cand)
        } else {
            true
        }
    }

    /// Whether `candidate` is an acceptable root.
    pub fn is_valid_root(&self, candidate: &str) -> (r: bool)
        ensures
            r == spec_is_valid_root(
                self.dict@,
                candidate@,
                self.min_root_length as int,
                self.strict,
            ),
    {
        let cs = chars_vec(candidate);
        self.valid_root_chars(&cs)
    }
}

} // verus!
