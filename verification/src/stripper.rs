//! Tier-two lemmatization: iterative removal of trailing suffixes. The
//! lenient stripper tries a small suffix list gated by length and vowel
//! harmony alone; the validated stripper tries a longer, categorized list
//! and strips only when the root validator, the vowel harmony check and the
//! morphotactic order all agree. Both restart the scan from the head of the
//! list after each successful strip and stop when a full pass removes
//! nothing, so the result is always a prefix of the input.

use vstd::prelude::*;

use crate::chars::{
    chars_vec, ends_with_chars, spec_ends_with, string_from_chars, subvec,
};
use crate::harmony::{
    first_vowel_class_vec, last_vowel_in_prefix, spec_check_harmony, spec_is_valid_suffix,
};
use crate::lemma::{
    default_pairs, dict_has_value, get_lemma_dict, lookup_lemma, spec_lookup, LemmaDict,
};
use crate::morphotactics::{spec_valid_sequence, MorphotacticClassifier, SuffixCategory};
use crate::root_validator::spec_is_valid_root;

verus! {

/// The lenient suffix list, in trial order.
pub open spec fn spec_basic_suffixes() -> Seq<Seq<char>> {
    seq![
        seq!['l', 'a', 'r'],
        seq!['l', 'e', 'r'],
        seq!['n', 'i', 'n'],
        seq!['n', 'ı', 'n'],
        seq!['d', 'e', 'n'],
        seq!['d', 'a', 'n'],
        seq!['d', 'u'],
        seq!['d', 'ü', 'n'],
    ]
}

/// The stem left when the `k`-th lenient suffix is removed from the end.
pub open spec fn spec_basic_stem(cur: Seq<char>, k: int) -> Seq<char> {
    cur.subrange(0, cur.len() - spec_basic_suffixes()[k].len())
}

/// Whether the `k`-th lenient suffix strips from `cur`: it must be a proper
/// ending, leave a stem of at least two characters, and harmonize with that
/// stem.
pub open spec fn spec_basic_strippable(cur: Seq<char>, k: int) -> bool {
    let sfx = spec_basic_suffixes()[k];
    spec_ends_with(cur, sfx) && spec_basic_stem(cur, k).len() >= 2 && spec_is_valid_suffix(
        spec_basic_stem(cur, k),
        sfx,
    )
}

/// The first lenient suffix at or after position `k` that strips, if any.
pub open spec fn find_basic_from(cur: Seq<char>, k: int) -> Option<int>
    decreases 8 - k when 0 <= k <= 8
{
    if k >= 8 {
        None
    } else if spec_basic_strippable(cur, k) {
        Some(k)
    } else {
        find_basic_from(cur, k + 1)
    }
}

pub proof fn lemma_basic_suffix_nonempty(j: int)
    requires
        0 <= j < 8,
    ensures
        1 <= spec_basic_suffixes()[j].len(),
{
    assert(spec_basic_suffixes()[0].len() == 3);
    assert(spec_basic_suffixes()[1].len() == 3);
    assert(spec_basic_suffixes()[2].len() == 3);
    assert(spec_basic_suffixes()[3].len() == 3);
    assert(spec_basic_suffixes()[4].len() == 3);
    assert(spec_basic_suffixes()[5].len() == 3);
    assert(spec_basic_suffixes()[6].len() == 2);
    assert(spec_basic_suffixes()[7].len() == 3);
}

pub proof fn lemma_find_basic_props(cur: Seq<char>, k: int)
    requires
        0 <= k <= 8,
    ensures
        match find_basic_from(cur, k) {
            Some(j) => k <= j < 8 && spec_basic_strippable(cur, j),
            None => forall|j: int| k <= j < 8 ==> !spec_basic_strippable(cur, j),
        },
    decreases 8 - k,
{
    if k < 8 && !spec_basic_strippable(cur, k) {
        lemma_find_basic_props(cur, k + 1);
    }
}

/// The result of lenient stripping: remove the first suffix of the list that
/// strips, and repeat until none does.
pub open spec fn spec_strip_basic(cur: Seq<char>) -> Seq<char>
    decreases cur.len(),
{
    match find_basic_from(cur, 0) {
        Option::None => cur,
        Option::Some(k) => {
            proof {
                lemma_find_basic_props(cur, 0);
                lemma_basic_suffix_nonempty(k);
            }
            spec_strip_basic(spec_basic_stem(cur, k))
        },
    }
}

fn make_basic_suffixes() -> (r: Vec<Vec<char>>)
    ensures
        r.deep_view() == spec_basic_suffixes(),
{
    let mut r: Vec<Vec<char>> = Vec::new();
    r.push(vec!['l', 'a', 'r']);
    r.push(vec!['l', 'e', 'r']);
    r.push(vec!['n', 'i', 'n']);
    r.push(vec!['n', 'ı', 'n']);
    r.push(vec!['d', 'e', 'n']);
    r.push(vec!['d', 'a', 'n']);
    r.push(vec!['d', 'u']);
    r.push(vec!['d', 'ü', 'n']);
    proof {
        assert(r.deep_view() =~~= spec_basic_suffixes());
    }
    r
}

fn find_basic_exec(sfxs: &Vec<Vec<char>>, cur: &Vec<char>) -> (r: Option<usize>)
    requires
        sfxs.deep_view() == spec_basic_suffixes(),
    ensures
        match r {
            Some(k) => find_basic_from(cur@, 0) == Some(k as int),
            None => find_basic_from(cur@, 0) is None,
        },
{
    let mut k: usize = 0;
    proof {
        assert(sfxs.deep_view().len() == sfxs@.len());
    }
    while k < sfxs.len()
        invariant
            sfxs.deep_view() == spec_basic_suffixes(),
            sfxs@.len() == 8,
            k <= 8,
            find_basic_from(cur@, 0) == find_basic_from(cur@, k as int),
        decreases 8 - k,
    {
        proof {
            assert(sfxs.deep_view()[k as int] == sfxs@[k as int]@);
        }
        let sfx = &sfxs[k];
        let mut hit: bool = false;
        if ends_with_chars(cur, sfx) {
            let stem_len = cur.len() - sfx.len();
            if stem_len >= 2 {
                let sv = last_vowel_in_prefix(cur, stem_len);
                proof {
                    assert(sfx@.subrange(0, sfx@.len() as int) =~= sfx@);
                }
                let fv = last_vowel_in_prefix(sfx, sfx.len());
                hit = match (sv, fv) {
                    (Some(x), Some(y)) => x == y,
                    (Some(_), None) => true,
                    _ => false,
                };
            }
        }
        if hit {
            proof {
                assert(spec_basic_strippable(cur@, k as int));
            }
            return Some(k);
        }
        proof {
            assert(!spec_basic_strippable(cur@, k as int));
        }
        k = k + 1;
    }
    None
}

/// Lenient suffix stripping: repeatedly removes the first suffix of a small
/// fixed list whose removal leaves a harmonizing stem of at least two
/// characters, and returns the word unchanged when none strips.
pub fn strip_suffixes(word: &str) -> (r: String)
    ensures
        r@ == spec_strip_basic(word@),
{
    let sfxs = make_basic_suffixes();
    let mut cur = chars_vec(word);
    proof {
        assert(sfxs.deep_view().len() == sfxs@.len());
    }
    loop
        invariant
            sfxs.deep_view() == spec_basic_suffixes(),
            sfxs@.len() == 8,
            spec_strip_basic(cur@) == spec_strip_basic(word@),
        ensures
            cur@ == spec_strip_basic(word@),
        decreases cur@.len(),
    {
        match find_basic_exec(&sfxs, &cur) {
            Some(k) => {
                proof {
                    lemma_find_basic_props(cur@, 0);
                    lemma_basic_suffix_nonempty(k as int);
                    assert(sfxs.deep_view()[k as int] == sfxs@[k as int]@);
                }
                let sl = sfxs[k].len();
                proof {
                    assert(sl == spec_basic_suffixes()[k as int].len());
                    assert(sl <= cur@.len());
                }
                cur = subvec(&cur, 0, cur.len() - sl);
            },
            None => {
                break;
            },
        }
    }
    string_from_chars(&cur)
}

/// Lenient stripping never grows or reorders characters: the result is a
/// prefix of the input.
pub proof fn lemma_basic_result_is_prefix(cur: Seq<char>)
    ensures
        spec_strip_basic(cur).is_prefix_of(cur),
    decreases cur.len(),
{
    lemma_find_basic_props(cur, 0);
    match find_basic_from(cur, 0) {
        Option::None => {
            assert(cur.is_prefix_of(cur)) by {
                assert(cur.subrange(0, cur.len() as int) =~= cur);
            }
        },
        Option::Some(k) => {
            lemma_basic_suffix_nonempty(k);
            let stem = spec_basic_stem(cur, k);
            lemma_basic_result_is_prefix(stem);
            let res = spec_strip_basic(stem);
            assert(stem.is_prefix_of(cur)) by {
                assert(cur.subrange(0, stem.len() as int) =~= stem);
            }
            assert(res =~= cur.subrange(0, res.len() as int));
        },
    }
}

/// The first half of the validated suffix table: compound suffixes first so
/// that the longest match is preferred, then plural, case and past forms.
pub open spec fn spec_table_a() -> Seq<(Seq<char>, SuffixCategory)> {
    seq![
        (seq!['l', 'a', 'r', 'd', 'a', 'n'], SuffixCategory::Case),
        (seq!['l', 'e', 'r', 'd', 'e', 'n'], SuffixCategory::Case),
        (seq!['l', 'a', 'r', 'ı', 'n'], SuffixCategory::Case),
        (seq!['l', 'e', 'r', 'i', 'n'], SuffixCategory::Case),
        (seq!['y', 'o', 'r', 'u', 'm'], SuffixCategory::Progressive),
        (seq!['y', 'o', 'r', 's', 'u', 'n'], SuffixCategory::Progressive),
        (seq!['y', 'o', 'r', 'u', 'z'], SuffixCategory::Progressive),
        (seq!['l', 'a', 'r'], SuffixCategory::Plural),
        (seq!['l', 'e', 'r'], SuffixCategory::Plural),
        (seq!['n', 'i', 'n'], SuffixCategory::Case),
        (seq!['n', 'ı', 'n'], SuffixCategory::Case),
        (seq!['d', 'e', 'n'], SuffixCategory::Case),
        (seq!['d', 'a', 'n'], SuffixCategory::Case),
        (seq!['t', 'a'], SuffixCategory::Case),
        (seq!['t', 'e'], SuffixCategory::Case),
        (seq!['d', 'a'], SuffixCategory::Case),
        (seq!['d', 'e'], SuffixCategory::Case),
        (seq!['ı', 'n'], SuffixCategory::Case),
        (seq!['i', 'n'], SuffixCategory::Case),
        (seq!['u', 'n'], SuffixCategory::Case),
        (seq!['ü', 'n'], SuffixCategory::Case),
        (seq!['d', 'u'], SuffixCategory::Past),
    ]
}

/// The second half of the validated suffix table: past, possessive, bare
/// vowel and verbal suffixes.
pub open spec fn spec_table_b() -> Seq<(Seq<char>, SuffixCategory)> {
    seq![
        (seq!['d', 'ü'], SuffixCategory::Past),
        (seq!['t', 'u'], SuffixCategory::Past),
        (seq!['t', 'ü'], SuffixCategory::Past),
        (seq!['ı', 'm'], SuffixCategory::Possessive),
        (seq!['i', 'm'], SuffixCategory::Possessive),
        (seq!['u', 'm'], SuffixCategory::Possessive),
        (seq!['ü', 'm'], SuffixCategory::Possessive),
        (seq!['ı'], SuffixCategory::Possessive),
        (seq!['i'], SuffixCategory::Possessive),
        (seq!['u'], SuffixCategory::Possessive),
        (seq!['ü'], SuffixCategory::Possessive),
        (seq!['y', 'o', 'r'], SuffixCategory::Progressive),
        (seq!['m', 'a', 'k'], SuffixCategory::Infinitive),
        (seq!['m', 'e', 'k'], SuffixCategory::Infinitive),
        (seq!['d', 'i', 'k'], SuffixCategory::Past),
        (seq!['d', 'ı', 'k'], SuffixCategory::Past),
        (seq!['d', 'u', 'k'], SuffixCategory::Past),
        (seq!['d', 'ü', 'k'], SuffixCategory::Past),
        (seq!['d', 'i'], SuffixCategory::Past),
        (seq!['d', 'ı'], SuffixCategory::Past),
        (seq!['t', 'i'], SuffixCategory::Past),
        (seq!['t', 'ı'], SuffixCategory::Past),
    ]
}

/// The validated suffix table, in trial order.
pub open spec fn spec_suffix_table() -> Seq<(Seq<char>, SuffixCategory)> {
    spec_table_a() + spec_table_b()
}

/// The stem left when the `k`-th table suffix is removed from the end.
pub open spec fn spec_table_stem(cur: Seq<char>, k: int) -> Seq<char> {
    cur.subrange(0, cur.len() - spec_suffix_table()[k].0.len())
}

/// Whether the `k`-th table suffix strips from `cur` after the suffixes whose
/// categories are `cats` (in stripping order) were already removed: it must
/// end the word, leave a stem the root validator accepts, harmonize with
/// that stem when harmony checking is on, and keep the hypothetical category
/// sequence, read root-to-surface, morphotactically valid.
pub open spec fn spec_strippable_at(
    cur: Seq<char>,
    cats: Seq<SuffixCategory>,
    k: int,
    min: int,
    strict: bool,
    harm: bool,
) -> bool {
    let sfx = spec_suffix_table()[k].0;
    let cat = spec_suffix_table()[k].1;
    let stem = spec_table_stem(cur, k);
    spec_ends_with(cur, sfx) && spec_is_valid_root(default_pairs(), stem, min, strict) && (!harm
        || spec_check_harmony(stem, sfx)) && spec_valid_sequence(seq![cat] + cats.reverse())
}

/// The first table suffix at or after position `k` that strips, if any.
pub open spec fn find_strip_from(
    cur: Seq<char>,
    cats: Seq<SuffixCategory>,
    k: int,
    min: int,
    strict: bool,
    harm: bool,
) -> Option<int>
    decreases 44 - k when 0 <= k <= 44
{
    if k >= 44 {
        None
    } else if spec_strippable_at(cur, cats, k, min, strict, harm) {
        Some(k)
    } else {
        find_strip_from(cur, cats, k + 1, min, strict, harm)
    }
}

pub proof fn lemma_table_suffix_nonempty(j: int)
    requires
        0 <= j < 44,
    ensures
        1 <= spec_suffix_table()[j].0.len(),
{
    assert(spec_suffix_table()[0].0.len() == 6);
    assert(spec_suffix_table()[1].0.len() == 6);
    assert(spec_suffix_table()[2].0.len() == 5);
    assert(spec_suffix_table()[3].0.len() == 5);
    assert(spec_suffix_table()[4].0.len() == 5);
    assert(spec_suffix_table()[5].0.len() == 6);
    assert(spec_suffix_table()[6].0.len() == 5);
    assert(spec_suffix_table()[7].0.len() == 3);
    assert(spec_suffix_table()[8].0.len() == 3);
    assert(spec_suffix_table()[9].0.len() == 3);
    assert(spec_suffix_table()[10].0.len() == 3);
    assert(spec_suffix_table()[11].0.len() == 3);
    assert(spec_suffix_table()[12].0.len() == 3);
    assert(spec_suffix_table()[13].0.len() == 2);
    assert(spec_suffix_table()[14].0.len() == 2);
    assert(spec_suffix_table()[15].0.len() == 2);
    assert(spec_suffix_table()[16].0.len() == 2);
    assert(spec_suffix_table()[17].0.len() == 2);
    assert(spec_suffix_table()[18].0.len() == 2);
    assert(spec_suffix_table()[19].0.len() == 2);
    assert(spec_suffix_table()[20].0.len() == 2);
    assert(spec_suffix_table()[21].0.len() == 2);
    assert(spec_suffix_table()[22].0.len() == 2);
    assert(spec_suffix_table()[23].0.len() == 2);
    assert(spec_suffix_table()[24].0.len() == 2);
    assert(spec_suffix_table()[25].0.len() == 2);
    assert(spec_suffix_table()[26].0.len() == 2);
    assert(spec_suffix_table()[27].0.len() == 2);
    assert(spec_suffix_table()[28].0.len() == 2);
    assert(spec_suffix_table()[29].0.len() == 1);
    assert(spec_suffix_table()[30].0.len() == 1);
    assert(spec_suffix_table()[31].0.len() == 1);
    assert(spec_suffix_table()[32].0.len() == 1);
    assert(spec_suffix_table()[33].0.len() == 3);
    assert(spec_suffix_table()[34].0.len() == 3);
    assert(spec_suffix_table()[35].0.len() == 3);
    assert(spec_suffix_table()[36].0.len() == 3);
    assert(spec_suffix_table()[37].0.len() == 3);
    assert(spec_suffix_table()[38].0.len() == 3);
    assert(spec_suffix_table()[39].0.len() == 3);
    assert(spec_suffix_table()[40].0.len() == 2);
    assert(spec_suffix_table()[41].0.len() == 2);
    assert(spec_suffix_table()[42].0.len() == 2);
    assert(spec_suffix_table()[43].0.len() == 2);
}

pub proof fn lemma_find_strip_props(
    cur: Seq<char>,
    cats: Seq<SuffixCategory>,
    k: int,
    min: int,
    strict: bool,
    harm: bool,
)
    requires
        0 <= k <= 44,
    ensures
        match find_strip_from(cur, cats, k, min, strict, harm) {
            Some(j) => k <= j < 44 && spec_strippable_at(cur, cats, j, min, strict, harm),
            None => forall|j: int|
                k <= j < 44 ==> !spec_strippable_at(cur, cats, j, min, strict, harm),
        },
    decreases 44 - k,
{
    if k < 44 && !spec_strippable_at(cur, cats, k, min, strict, harm) {
        lemma_find_strip_props(cur, cats, k + 1, min, strict, harm);
    }
}

/// The result of the validated stripping loop from a current form and the
/// categories already stripped: remove the first table suffix that passes
/// all three validators, record its category, and repeat until none does.
pub open spec fn spec_strip_iter(
    cur: Seq<char>,
    cats: Seq<SuffixCategory>,
    min: int,
    strict: bool,
    harm: bool,
) -> Seq<char>
    decreases cur.len(),
{
    match find_strip_from(cur, cats, 0, min, strict, harm) {
        Option::None => cur,
        Option::Some(k) => {
            proof {
                lemma_find_strip_props(cur, cats, 0, min, strict, harm);
                lemma_table_suffix_nonempty(k);
            }
            spec_strip_iter(
                spec_table_stem(cur, k),
                cats.push(spec_suffix_table()[k].1),
                min,
                strict,
                harm,
            )
        },
    }
}

/// The validated stripping result for a whole word: in strict mode a word
/// found in the dictionary returns its lemma at once; otherwise the word
/// goes through the validated stripping loop with no suffixes recorded yet.
pub open spec fn spec_strip_validated(w: Seq<char>, strict: bool, min: int, harm: bool) -> Seq<
    char,
> {
    if strict && spec_lookup(default_pairs(), w) is Some {
        spec_lookup(default_pairs(), w).unwrap()
    } else {
        spec_strip_iter(w, Seq::empty(), min, strict, harm)
    }
}

fn add_table_a(r: &mut Vec<(Vec<char>, SuffixCategory)>)
    ensures
        final(r).deep_view() == old(r).deep_view() + spec_table_a(),
{
    r.push((vec!['l', 'a', 'r', 'd', 'a', 'n'], SuffixCategory::Case));
    r.push((vec!['l', 'e', 'r', 'd', 'e', 'n'], SuffixCategory::Case));
    r.push((vec!['l', 'a', 'r', 'ı', 'n'], SuffixCategory::Case));
    r.push((vec!['l', 'e', 'r', 'i', 'n'], SuffixCategory::Case));
    r.push((vec!['y', 'o', 'r', 'u', 'm'], SuffixCategory::Progressive));
    r.push((vec!['y', 'o', 'r', 's', 'u', 'n'], SuffixCategory::Progressive));
    r.push((vec!['y', 'o', 'r', 'u', 'z'], SuffixCategory::Progressive));
    r.push((vec!['l', 'a', 'r'], SuffixCategory::Plural));
    r.push((vec!['l', 'e', 'r'], SuffixCategory::Plural));
    r.push((vec!['n', 'i', 'n'], SuffixCategory::Case));
    r.push((vec!['n', 'ı', 'n'], SuffixCategory::Case));
    r.push((vec!['d', 'e', 'n'], SuffixCategory::Case));
    r.push((vec!['d', 'a', 'n'], SuffixCategory::Case));
    r.push((vec!['t', 'a'], SuffixCategory::Case));
    r.push((vec!['t', 'e'], SuffixCategory::Case));
    r.push((vec!['d', 'a'], SuffixCategory::Case));
    r.push((vec!['d', 'e'], SuffixCategory::Case));
    r.push((vec!['ı', 'n'], SuffixCategory::Case));
    r.push((vec!['i', 'n'], SuffixCategory::Case));
    r.push((vec!['u', 'n'], SuffixCategory::Case));
    r.push((vec!['ü', 'n'], SuffixCategory::Case));
    r.push((vec!['d', 'u'], SuffixCategory::Past));
    proof {
        assert(r.deep_view() =~~= old(r).deep_view() + spec_table_a());
    }
}

fn add_table_b(r: &mut Vec<(Vec<char>, SuffixCategory)>)
    ensures
        final(r).deep_view() == old(r).deep_view() + spec_table_b(),
{
    r.push((vec!['d', 'ü'], SuffixCategory::Past));
    r.push((vec!['t', 'u'], SuffixCategory::Past));
    r.push((vec!['t', 'ü'], SuffixCategory::Past));
    r.push((vec!['ı', 'm'], SuffixCategory::Possessive));
    r.push((vec!['i', 'm'], SuffixCategory::Possessive));
    r.push((vec!['u', 'm'], SuffixCategory::Possessive));
    r.push((vec!['ü', 'm'], SuffixCategory::Possessive));
    r.push((vec!['ı'], SuffixCategory::Possessive));
    r.push((vec!['i'], SuffixCategory::Possessive));
    r.push((vec!['u'], SuffixCategory::Possessive));
    r.push((vec!['ü'], SuffixCategory::Possessive));
    r.push((vec!['y', 'o', 'r'], SuffixCategory::Progressive));
    r.push((vec!['m', 'a', 'k'], SuffixCategory::Infinitive));
    r.push((vec!['m', 'e', 'k'], SuffixCategory::Infinitive));
    r.push((vec!['d', 'i', 'k'], SuffixCategory::Past));
    r.push((vec!['d', 'ı', 'k'], SuffixCategory::Past));
    r.push((vec!['d', 'u', 'k'], SuffixCategory::Past));
    r.push((vec!['d', 'ü', 'k'], SuffixCategory::Past));
    r.push((vec!['d', 'i'], SuffixCategory::Past));
    r.push((vec!['d', 'ı'], SuffixCategory::Past));
    r.push((vec!['t', 'i'], SuffixCategory::Past));
    r.push((vec!['t', 'ı'], SuffixCategory::Past));
    proof {
        assert(r.deep_view() =~~= old(r).deep_view() + spec_table_b());
    }
}

fn make_suffix_table() -> (r: Vec<(Vec<char>, SuffixCategory)>)
    ensures
        r.deep_view() == spec_suffix_table(),
        r@.len() == 44,
{
    let mut r: Vec<(Vec<char>, SuffixCategory)> = Vec::new();
    add_table_a(&mut r);
    add_table_b(&mut r);
    proof {
        assert(r.deep_view() =~~= spec_suffix_table());
        assert(r.deep_view().len() == r@.len());
    }
    r
}

/// The hypothetical category sequence in root-to-surface order: the new,
/// innermost category first, then the already stripped ones from the newest
/// strip outward.
fn hypothetical_sequence(cat: SuffixCategory, cats: &Vec<SuffixCategory>) -> (r: Vec<
    SuffixCategory,
>)
    ensures
        r@ == seq![cat] + cats@.reverse(),
{
    let mut r: Vec<SuffixCategory> = Vec::new();
    r.push(cat);
    let mut j: usize = cats.len();
    proof {
        assert(r@ =~= seq![cat] + cats@.subrange(j as int, cats@.len() as int).reverse());
    }
    while j > 0
        invariant
            j <= cats@.len(),
            r@ == seq![cat] + cats@.subrange(j as int, cats@.len() as int).reverse(),
        decreases j,
    {
        j = j - 1;
        r.push(cats[j]);
        proof {
            assert(r@ =~= seq![cat] + cats@.subrange(j as int, cats@.len() as int).reverse());
        }
    }
    proof {
        assert(cats@.subrange(0, cats@.len() as int) =~= cats@);
    }
    r
}

fn check_strip_at(
    table: &Vec<(Vec<char>, SuffixCategory)>,
    k: usize,
    cur: &Vec<char>,
    cats: &Vec<SuffixCategory>,
    d: &LemmaDict,
    min: usize,
    strict: bool,
    harm: bool,
) -> (r: bool)
    requires
        table.deep_view() == spec_suffix_table(),
        table@.len() == 44,
        k < 44,
        d@ == default_pairs(),
    ensures
        r == spec_strippable_at(cur@, cats@, k as int, min as int, strict, harm),
{
    proof {
        assert(table.deep_view()[k as int] == (table@[k as int].0@, table@[k as int].1));
    }
    let sfx = &table[k].0;
    let cat = table[k].1;
    if !ends_with_chars(cur, sfx) {
        return false;
    }
    let stem_len = cur.len() - sfx.len();
    let stem = subvec(cur, 0, stem_len);
    if stem.len() < min {
        return false;
    }
    if strict && !dict_has_value(d, &stem) {
        return false;
    }
    if harm {
        let sv = last_vowel_in_prefix(cur, stem_len);
        let fv = first_vowel_class_vec(sfx);
        let h = match (sv, fv) {
            (Some(x), Some(y)) => x == y,
            _ => false,
        };
        if !h {
            return false;
        }
    }
    let hyp = hypothetical_sequence(cat, cats);
    let m = MorphotacticClassifier::new();
    m.validate_sequence(&hyp)
}

fn find_strip_exec(
    table: &Vec<(Vec<char>, SuffixCategory)>,
    cur: &Vec<char>,
    cats: &Vec<SuffixCategory>,
    d: &LemmaDict,
    min: usize,
    strict: bool,
    harm: bool,
) -> (r: Option<usize>)
    requires
        table.deep_view() == spec_suffix_table(),
        table@.len() == 44,
        d@ == default_pairs(),
    ensures
        match r {
            Some(k) => find_strip_from(cur@, cats@, 0, min as int, strict, harm) == Some(
                k as int,
            ),
            None => find_strip_from(cur@, cats@, 0, min as int, strict, harm) is None,
        },
{
    let mut k: usize = 0;
    while k < 44
        invariant
            table.deep_view() == spec_suffix_table(),
            table@.len() == 44,
            d@ == default_pairs(),
            k <= 44,
            find_strip_from(cur@, cats@, 0, min as int, strict, harm) == find_strip_from(
                cur@,
                cats@,
                k as int,
                min as int,
                strict,
                harm,
            ),
        decreases 44 - k,
    {
        if check_strip_at(table, k, cur, cats, d, min, strict, harm) {
            return Some(k);
        }
        k = k + 1;
    }
    None
}

/// Validated suffix stripping. In strict mode a word with an exact
/// dictionary entry returns its lemma immediately; otherwise suffixes from
/// the categorized table are removed iteratively, each strip gated by the
/// root validator, by vowel harmony when `check_harmony` is set, and by the
/// morphotactic order of all categories stripped so far. The word comes back
/// unchanged when nothing validly strips.
pub fn strip_suffixes_validated(
    word: &str,
    strict: bool,
    min_root_length: usize,
    check_harmony: bool,
) -> (r: String)
    ensures
        r@ == spec_strip_validated(word@, strict, min_root_length as int, check_harmony),
{
    if strict {
        let hit = lookup_lemma(word);
        match hit {
            Some(l) => {
                return l;
            },
            None => {},
        }
    }
    let d = get_lemma_dict();
    let table = make_suffix_table();
    let mut cur = chars_vec(word);
    let mut cats: Vec<SuffixCategory> = Vec::new();
    loop
        invariant
            table.deep_view() == spec_suffix_table(),
            table@.len() == 44,
            d@ == default_pairs(),
            spec_strip_iter(cur@, cats@, min_root_length as int, strict, check_harmony)
                == spec_strip_iter(
                word@,
                Seq::empty(),
                min_root_length as int,
                strict,
                check_harmony,
            ),
        ensures
            cur@ == spec_strip_iter(
                word@,
                Seq::empty(),
                min_root_length as int,
                strict,
                check_harmony,
            ),
        decreases cur@.len(),
    {
        match find_strip_exec(&table, &cur, &cats, &d, min_root_length, strict, check_harmony) {
            Some(k) => {
                proof {
                    lemma_find_strip_props(
                        cur@,
                        cats@,
                        0,
                        min_root_length as int,
                        strict,
                        check_harmony,
                    );
                    lemma_table_suffix_nonempty(k as int);
                    assert(table.deep_view()[k as int] == (table@[k as int].0@, table@[k as int].1));
                }
                let sl = table[k].0.len();
                proof {
                    assert(sl == spec_suffix_table()[k as int].0.len());
                    assert(sl <= cur@.len());
                }
                let cat = table[k].1;
                cur = subvec(&cur, 0, cur.len() - sl);
                cats.push(cat);
            },
            None => {
                break;
            },
        }
    }
    string_from_chars(&cur)
}

/// Dictionary words round-trip: when a word has a dictionary entry, strict
/// validated stripping returns exactly the stored lemma, whatever the
/// minimum root length and the harmony flag.
pub proof fn lemma_dictionary_round_trip(w: Seq<char>, min: int, harm: bool)
    requires
        spec_lookup(default_pairs(), w) is Some,
    ensures
        spec_strip_validated(w, true, min, harm) == spec_lookup(default_pairs(), w).unwrap(),
{
}

proof fn lemma_strip_iter_min(
    cur: Seq<char>,
    cats: Seq<SuffixCategory>,
    min: int,
    strict: bool,
    harm: bool,
)
    ensures
        spec_strip_iter(cur, cats, min, strict, harm) == cur || spec_strip_iter(
            cur,
            cats,
            min,
            strict,
            harm,
        ).len() >= min,
    decreases cur.len(),
{
    lemma_find_strip_props(cur, cats, 0, min, strict, harm);
    match find_strip_from(cur, cats, 0, min, strict, harm) {
        Option::None => {},
        Option::Some(k) => {
            lemma_table_suffix_nonempty(k);
            lemma_strip_iter_min(
                spec_table_stem(cur, k),
                cats.push(spec_suffix_table()[k].1),
                min,
                strict,
                harm,
            );
        },
    }
}

/// Minimum root length: a validated result that differs from the input came
/// from stripping, and every strip is gated by the root validator, so such a
/// result reaches the minimum root length. A word the dictionary resolves in
/// strict mode returns its stored lemma as is, and a word from which nothing
/// strips comes back unchanged, whatever its length.
pub proof fn lemma_min_root_length(w: Seq<char>, strict: bool, min: int, harm: bool)
    requires
        !(strict && spec_lookup(default_pairs(), w) is Some),
    ensures
        spec_strip_validated(w, strict, min, harm) == w || spec_strip_validated(
            w,
            strict,
            min,
            harm,
        ).len() >= min,
{
    lemma_strip_iter_min(w, Seq::empty(), min, strict, harm);
}

proof fn lemma_strip_iter_prefix(
    cur: Seq<char>,
    cats: Seq<SuffixCategory>,
    min: int,
    strict: bool,
    harm: bool,
)
    ensures
        spec_strip_iter(cur, cats, min, strict, harm).is_prefix_of(cur),
    decreases cur.len(),
{
    lemma_find_strip_props(cur, cats, 0, min, strict, harm);
    match find_strip_from(cur, cats, 0, min, strict, harm) {
        Option::None => {
            assert(cur.is_prefix_of(cur)) by {
                assert(cur.subrange(0, cur.len() as int) =~= cur);
            }
        },
        Option::Some(k) => {
            lemma_table_suffix_nonempty(k);
            let stem = spec_table_stem(cur, k);
            lemma_strip_iter_prefix(stem, cats.push(spec_suffix_table()[k].1), min, strict, harm);
            let res = spec_strip_iter(
                stem,
                cats.push(spec_suffix_table()[k].1),
                min,
                strict,
                harm,
            );
            assert(res.is_prefix_of(stem));
            assert(stem.is_prefix_of(cur)) by {
                assert(cur.subrange(0, stem.len() as int) =~= stem);
            }
            assert(res =~= cur.subrange(0, res.len() as int));
        },
    }
}

/// Results never grow or reorder characters: what the validated stripping
/// loop returns is a prefix of what went in.
pub proof fn lemma_validated_result_is_prefix(w: Seq<char>, strict: bool, min: int, harm: bool)
    requires
        !(strict && spec_lookup(default_pairs(), w) is Some),
    ensures
        spec_strip_validated(w, strict, min, harm).is_prefix_of(w),
{
    lemma_strip_iter_prefix(w, Seq::empty(), min, strict, harm);
}

} // verus!
