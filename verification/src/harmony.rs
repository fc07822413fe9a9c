//! Vowel harmony: Turkish vowels are either front (e, i, ö, ü) or back
//! (a, ı, o, u), and a suffix harmonizes with a stem when the relevant vowels
//! share that backness.

use vstd::prelude::*;

use crate::chars::chars_vec;

verus! {

/// The backness class of a Turkish vowel.
#[derive(Clone, Copy, PartialEq, Eq, Structural, Debug)]
pub enum VowelClass {
    Front,
    Back,
}

/// The vowel class of a character: front for e, i, ö, ü; back for a, ı, o, u;
/// none for every other character.
pub open spec fn spec_classify_vowel(c: char) -> Option<VowelClass> {
    if c == 'e' || c == 'i' || c == 'ö' || c == 'ü' {
        Some(VowelClass::Front)
    } else if c == 'a' || c == 'ı' || c == 'o' || c == 'u' {
        Some(VowelClass::Back)
    } else {
        None
    }
}

pub fn classify_vowel(c: char) -> (r: Option<VowelClass>)
    ensures
        r == spec_classify_vowel(c),
{
    if c == 'e' || c == 'i' || c == 'ö' || c == 'ü' {
        Some(VowelClass::Front)
    } else if c == 'a' || c == 'ı' || c == 'o' || c == 'u' {
        Some(VowelClass::Back)
    } else {
        None
    }
}

/// The class of the last vowel of a text, scanning from the end.
pub open spec fn spec_last_vowel_class(s: Seq<char>) -> Option<VowelClass>
    decreases s.len(),
{
    if s.len() == 0 {
        None
    } else if spec_classify_vowel(s[s.len() - 1]) is Some {
        spec_classify_vowel(s[s.len() - 1])
    } else {
        spec_last_vowel_class(s.drop_last())
    }
}

/// The class of the first vowel of a text, scanning from the start.
pub open spec fn spec_first_vowel_class(s: Seq<char>) -> Option<VowelClass>
    decreases s.len(),
{
    if s.len() == 0 {
        None
    } else if spec_classify_vowel(s[0]) is Some {
        spec_classify_vowel(s[0])
    } else {
        spec_first_vowel_class(s.drop_first())
    }
}

/// The class of the last vowel among the first `end` characters of `cs`.
pub fn last_vowel_in_prefix(cs: &Vec<char>, end: usize) -> (r: Option<VowelClass>)
    requires
        end <= cs@.len(),
    ensures
        r == spec_last_vowel_class(cs@.subrange(0, end as int)),
{
    let mut i: usize = end;
    while i > 0
        invariant
            i <= end <= cs@.len(),
            spec_last_vowel_class(cs@.subrange(0, end as int)) == spec_last_vowel_class(
                cs@.subrange(0, i as int),
            ),
        decreases i,
    {
        let c = cs[i - 1];
        let v = classify_vowel(c);
        proof {
            assert(cs@.subrange(0, i as int).drop_last() =~= cs@.subrange(0, i as int - 1));
        }
        if v.is_some() {
            return v;
        }
        i = i - 1;
    }
    proof {
        assert(cs@.subrange(0, 0) =~= Seq::<char>::empty());
    }
    None
}

/// The class of the first vowel of `cs`.
pub fn first_vowel_class_vec(cs: &Vec<char>) -> (r: Option<VowelClass>)
    ensures
        r == spec_first_vowel_class(cs@),
{
    let mut i: usize = 0;
    proof {
        assert(cs@.subrange(0, cs@.len() as int) =~= cs@);
    }
    while i < cs.len()
        invariant
            i <= cs@.len(),
            spec_first_vowel_class(cs@) == spec_first_vowel_class(
                cs@.subrange(i as int, cs@.len() as int),
            ),
        decreases cs@.len() - i,
    {
        let c = cs[i];
        let v = classify_vowel(c);
        proof {
            assert(cs@.subrange(i as int, cs@.len() as int).drop_first() =~= cs@.subrange(
                i as int + 1,
                cs@.len() as int,
            ));
        }
        if v.is_some() {
            return v;
        }
        i = i + 1;
    }
    None
}

/// The class of the last vowel of a word, or none when the word has no vowel.
pub fn get_last_vowel_class(word: &str) -> (r: Option<VowelClass>)
    ensures
        r == spec_last_vowel_class(word@),
{
    let cs = chars_vec(word);
    let n = cs.len();
    proof {
        assert(cs@.subrange(0, cs@.len() as int) =~= cs@);
    }
    last_vowel_in_prefix(&cs, n)
}

/// Harmony as the suffix strippers test it on a stem and a suffix: the last
/// vowel of each must agree; a suffix without a vowel is allowed, a stem
/// without one is rejected.
pub open spec fn spec_is_valid_suffix(stem: Seq<char>, suffix: Seq<char>) -> bool {
    match (spec_last_vowel_class(stem), spec_last_vowel_class(suffix)) {
        (Some(a), Some(b)) => a == b,
        (Some(_), None) => true,
        _ => false,
    }
}

pub fn is_valid_suffix(stem: &str, suffix: &str) -> (r: bool)
    ensures
        r == spec_is_valid_suffix(stem@, suffix@),
{
    let a = get_last_vowel_class(stem);
    let b = get_last_vowel_class(suffix);
    match (a, b) {
        (Some(x), Some(y)) => x == y,
        (Some(_), None) => true,
        _ => false,
    }
}

/// Harmony as the validated stripper tests it: the last vowel of the stem and
/// the first vowel of the suffix must both exist and agree; when either is
/// missing the check fails, so that no strip rests on unverifiable harmony.
pub open spec fn spec_check_harmony(stem: Seq<char>, suffix: Seq<char>) -> bool {
    match (spec_last_vowel_class(stem), spec_first_vowel_class(suffix)) {
        (Some(a), Some(b)) => a == b,
        _ => false,
    }
}

pub fn check_vowel_harmony(stem: &str, suffix: &str) -> (r: bool)
    ensures
        r == spec_check_harmony(stem@, suffix@),
{
    let scs = chars_vec(stem);
    let n = scs.len();
    proof {
        assert(scs@.subrange(0, scs@.len() as int) =~= scs@);
    }
    let a = last_vowel_in_prefix(&scs, n);
    let sufcs = chars_vec(suffix);
    let b = first_vowel_class_vec(&sufcs);
    match (a, b) {
        (Some(x), Some(y)) => x == y,
        _ => false,
    }
}

} // verus!
