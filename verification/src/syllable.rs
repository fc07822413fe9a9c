//! Syllabification by Turkish phonotactics. The word is scanned left to
//! right; each vowel looks ahead to the next vowel and the consonants between
//! them decide where the syllable ends: V.V and V.CV break right after the
//! vowel, VC.CV and VC.CCV keep exactly one consonant in the closing
//! syllable. Trailing consonants join the final syllable.

use vstd::prelude::*;

use crate::chars::{chars_vec, string_from_range};
use crate::harmony::spec_classify_vowel;

verus! {

/// A Turkish vowel as the syllabifier sees one.
pub open spec fn spec_is_vowel(c: char) -> bool {
    spec_classify_vowel(c) is Some
}

/// The position of the first vowel at or after `i`, or the length of `s` when
/// there is none.
pub open spec fn next_vowel_from(s: Seq<char>, i: int) -> int
    decreases s.len() - i when 0 <= i <= s.len()
{
    if i >= s.len() {
        s.len() as int
    } else if spec_is_vowel(s[i]) {
        i
    } else {
        next_vowel_from(s, i + 1)
    }
}

pub proof fn lemma_next_vowel_from_bounds(s: Seq<char>, i: int)
    requires
        0 <= i <= s.len(),
    ensures
        i <= next_vowel_from(s, i) <= s.len(),
        next_vowel_from(s, i) < s.len() ==> spec_is_vowel(s[next_vowel_from(s, i)]),
    decreases s.len() - i,
{
    if i < s.len() && !spec_is_vowel(s[i]) {
        lemma_next_vowel_from_bounds(s, i + 1);
    }
}

/// The syllables of `s[start..]`, each as a contiguous run of `s`.
pub open spec fn spec_syllab_from(s: Seq<char>, start: int) -> Seq<Seq<char>>
    decreases s.len() - start when 0 <= start <= s.len()
{
    if start >= s.len() {
        Seq::empty()
    } else {
        let p = next_vowel_from(s, start);
        if p >= s.len() {
            seq![s.subrange(start, s.len() as int)]
        } else {
            let q = next_vowel_from(s, p + 1);
            if q >= s.len() {
                seq![s.subrange(start, s.len() as int)]
            } else {
                let b = if q <= p + 2 {
                    p + 1
                } else {
                    p + 2
                };
                proof {
                    lemma_next_vowel_from_bounds(s, start);
                    lemma_next_vowel_from_bounds(s, p + 1);
                }
                seq![s.subrange(start, b)] + spec_syllab_from(s, b)
            }
        }
    }
}

/// The syllables of a whole word; empty input has no syllables.
pub open spec fn spec_syllabify(s: Seq<char>) -> Seq<Seq<char>> {
    spec_syllab_from(s, 0)
}

proof fn lemma_flatten_singleton(x: Seq<char>)
    ensures
        seq![x].flatten() == x,
{
    assert(seq![x].drop_first() =~= Seq::<Seq<char>>::empty());
    assert(Seq::<Seq<char>>::empty().flatten() =~= Seq::<char>::empty());
    assert(seq![x].flatten() =~= x);
}

/// The syllables of `s[start..]` concatenated give back `s[start..]`: the
/// syllabifier never drops, adds or reorders characters.
pub proof fn lemma_syllables_concat(s: Seq<char>, start: int)
    requires
        0 <= start <= s.len(),
    ensures
        spec_syllab_from(s, start).flatten() == s.subrange(start, s.len() as int),
    decreases s.len() - start,
{
    if start >= s.len() {
        assert(spec_syllab_from(s, start).flatten() =~= s.subrange(start, s.len() as int));
    } else {
        let p = next_vowel_from(s, start);
        lemma_next_vowel_from_bounds(s, start);
        if p >= s.len() {
            lemma_flatten_singleton(s.subrange(start, s.len() as int));
        } else {
            let q = next_vowel_from(s, p + 1);
            lemma_next_vowel_from_bounds(s, p + 1);
            if q >= s.len() {
                lemma_flatten_singleton(s.subrange(start, s.len() as int));
            } else {
                let b = if q <= p + 2 {
                    p + 1
                } else {
                    p + 2
                };
                lemma_syllables_concat(s, b);
                assert((seq![s.subrange(start, b)] + spec_syllab_from(s, b)).flatten()
                    == seq![s.subrange(start, b)].flatten() + spec_syllab_from(s, b).flatten()) by {
                    vstd::seq_lib::lemma_flatten_concat(
                        seq![s.subrange(start, b)],
                        spec_syllab_from(s, b),
                    );
                }
                lemma_flatten_singleton(s.subrange(start, b));
                assert(s.subrange(start, b) + s.subrange(b, s.len() as int) =~= s.subrange(
                    start,
                    s.len() as int,
                ));
            }
        }
    }
}

/// The position of the first vowel of `cs` at or after `i`, or the length
/// when there is none.
fn next_vowel_exec(cs: &Vec<char>, i: usize) -> (r: usize)
    requires
        i <= cs@.len(),
    ensures
        r as int == next_vowel_from(cs@, i as int),
        i <= r <= cs@.len(),
{
    proof {
        lemma_next_vowel_from_bounds(cs@, i as int);
    }
    let mut j: usize = i;
    while j < cs.len()
        invariant
            i <= j <= cs@.len(),
            next_vowel_from(cs@, i as int) == next_vowel_from(cs@, j as int),
            i as int <= next_vowel_from(cs@, i as int) <= cs@.len(),
        decreases cs@.len() - j,
    {
        let c = cs[j];
        if classify_is_vowel(c) {
            return j;
        }
        j = j + 1;
    }
    j
}

fn classify_is_vowel(c: char) -> (r: bool)
    ensures
        r == spec_is_vowel(c),
{
    c == 'e' || c == 'i' || c == 'ö' || c == 'ü' || c == 'a' || c == 'ı' || c == 'o' || c == 'u'
}

/// Splits a word into its syllables.
pub fn syllabify(word: &str) -> (r: Vec<String>)
    ensures
        r.deep_view() == spec_syllabify(word@),
{
    let cs = chars_vec(word);
    let mut out: Vec<String> = Vec::new();
    let mut start: usize = 0;
    while start < cs.len()
        invariant
            0 <= start <= cs@.len(),
            cs@ == word@,
            out.deep_view() + spec_syllab_from(cs@, start as int) == spec_syllabify(word@),
        decreases cs@.len() - start,
    {
        let p = next_vowel_exec(&cs, start);
        let b: usize;
        if p == cs.len() {
            b = cs.len();
        } else {
            let q = next_vowel_exec(&cs, p + 1);
            if q == cs.len() {
                b = cs.len();
            } else if q <= p + 2 {
                b = p + 1;
            } else {
                b = p + 2;
            }
        }
        let syl = string_from_range(&cs, start, b);
        out.push(syl);
        proof {
            assert(out.deep_view() =~= out.deep_view().drop_last().push(syl@));
            assert(out.deep_view() + spec_syllab_from(cs@, b as int) =~= spec_syllabify(word@));
        }
        start = b;
    }
    proof {
        assert(out.deep_view() + spec_syllab_from(cs@, start as int) =~= out.deep_view());
    }
    out
}

/// The number of syllables of a word.
pub fn syllable_count(word: &str) -> (r: usize)
    ensures
        r as int == spec_syllabify(word@).len(),
{
    let syls = syllabify(word);
    proof {
        assert(syls.deep_view().len() == syls@.len());
    }
    syls.len()
}

/// The parts joined left to right with `sep` between consecutive parts.
pub open spec fn spec_join_prefix(parts: Seq<Seq<char>>, sep: Seq<char>, i: int) -> Seq<char>
    decreases i when 0 <= i <= parts.len()
{
    if i <= 0 {
        Seq::empty()
    } else if i == 1 {
        parts[0]
    } else {
        spec_join_prefix(parts, sep, i - 1) + sep + parts[i - 1]
    }
}

/// The syllables of a word joined into one string with a separator.
pub fn syllabify_with_separator(word: &str, sep: &str) -> (r: String)
    ensures
        r@ == spec_join_prefix(
            spec_syllabify(word@),
            sep@,
            spec_syllabify(word@).len() as int,
        ),
{
    let syls = syllabify(word);
    let mut r = String::new();
    let mut i: usize = 0;
    while i < syls.len()
        invariant
            0 <= i <= syls@.len(),
            syls.deep_view() == spec_syllabify(word@),
            r@ == spec_join_prefix(spec_syllabify(word@), sep@, i as int),
        decreases syls@.len() - i,
    {
        if i > 0 {
            r.append(sep);
        }
        r.append(syls[i].as_str());
        i = i + 1;
    }
    r
}

} // verus!
