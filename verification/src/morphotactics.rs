//! Morphotactic ordering of Turkish inflectional suffixes. Each suffix
//! surface form is assigned one category, and a hypothetical analysis is
//! valid only when, read from the root outward, the category ranks never
//! decrease: plural may not attach outside case, case may attach outside
//! possessive, and so on. The table and its order are a reconstruction of
//! standard Turkish nominal and verbal suffix ordering.

use vstd::prelude::*;

verus! {

/// The category of a suffix surface form, for ordering purposes. Each
/// configured surface string has exactly one category, even where real
/// Turkish would allow more than one reading.
#[derive(Clone, Copy, PartialEq, Eq, Structural, Debug)]
pub enum SuffixCategory {
    Plural,
    Possessive,
    Case,
    Progressive,
    Past,
    Infinitive,
}

impl vstd::view::DeepView for SuffixCategory {
    type V = SuffixCategory;

    open spec fn deep_view(&self) -> SuffixCategory {
        *self
    }
}

/// The rank of a category in root-to-surface order: a suffix may only attach
/// outside suffixes of equal or lower rank.
pub open spec fn spec_rank(c: SuffixCategory) -> int {
    match c {
        SuffixCategory::Plural => 0,
        SuffixCategory::Possessive => 1,
        SuffixCategory::Case => 2,
        SuffixCategory::Progressive => 3,
        SuffixCategory::Past => 4,
        SuffixCategory::Infinitive => 5,
    }
}

pub fn rank(c: SuffixCategory) -> (r: u32)
    ensures
        r as int == spec_rank(c),
{
    match c {
        SuffixCategory::Plural => 0,
        SuffixCategory::Possessive => 1,
        SuffixCategory::Case => 2,
        SuffixCategory::Progressive => 3,
        SuffixCategory::Past => 4,
        SuffixCategory::Infinitive => 5,
    }
}

/// A category sequence in root-to-surface order is valid when consecutive
/// ranks never decrease; the empty and the single-element sequence are
/// always valid.
pub open spec fn spec_valid_sequence(cats: Seq<SuffixCategory>) -> bool {
    forall|i: int|
        0 <= i && i + 1 < cats.len() ==> spec_rank(#[trigger] cats[i]) <= spec_rank(cats[i + 1])
}

/// Validates suffix category sequences against the morphotactic order.
pub struct MorphotacticClassifier {}

impl MorphotacticClassifier {
    pub fn new() -> (r: MorphotacticClassifier) {
        MorphotacticClassifier {  }
    }

    /// Whether the categories, given in root-to-surface order, respect the
    /// morphotactic order.
    pub fn validate_sequence(&self, cats: &Vec<SuffixCategory>) -> (r: bool)
        ensures
            r == spec_valid_sequence(cats@),
    {
        if cats.len() <= 1 {
            return true;
        }
        let mut i: usize = 0;
        while i < cats.len() - 1
            invariant
                2 <= cats@.len(),
                i < cats@.len(),
                forall|k: int|
                    0 <= k && k + 1 <= i ==> spec_rank(#[trigger] cats@[k]) <= spec_rank(
                        cats@[k + 1],
                    ),
            decreases cats@.len() - i,
        {
            if rank(cats[i]) > rank(cats[i + 1]) {
                return false;
            }
            i = i + 1;
        }
        true
    }
}

} // verus!
