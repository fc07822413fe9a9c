//! Lexical segmentation of raw text into tokens with character offsets.
//!
//! At each scan position the lexical classes are tried in a fixed priority
//! order and the first that matches wins, taking its longest match: URLs,
//! emoticons, words with an optional apostrophe clitic, numbers with
//! grouping separators and an optional hyphenated range, and finally any
//! single character that is neither whitespace nor word-like, emitted as
//! punctuation. Whitespace and unmatched word-like characters (alphanumeric
//! characters outside the Turkish letter and digit classes, and the
//! underscore) are skipped and never emitted.

use vstd::prelude::*;

use crate::chars::{
    chars_vec, is_digit, is_tr_letter, is_ws, spec_is_digit, spec_is_tr_letter, spec_is_ws,
    string_from_range,
};

verus! {

/// Whether the character counts as alphabetic or numeric in Unicode. Only
/// `is_alnum` below gives this name a value.
pub uninterp spec fn unicode_alnum(c: char) -> bool;

/// Relies on `char::is_alphanumeric`: whether the character has the Unicode
/// `Alphabetic` property or is numeric; the result depends on the character
/// alone.
#[verifier::external_body]
fn is_alnum(c: char) -> (r: bool)
    ensures
        r == unicode_alnum(c),
{
    c.is_alphanumeric()
}

/// A word-like character that no lexical class matched: such characters are
/// skipped rather than emitted as punctuation.
pub open spec fn spec_is_wordlike(c: char) -> bool {
    unicode_alnum(c) || c == '_'
}

/// The end of the run of Turkish letters starting at `i`.
pub open spec fn letter_run_end(s: Seq<char>, i: int) -> int
    decreases s.len() - i when 0 <= i <= s.len()
{
    if i < s.len() && spec_is_tr_letter(s[i]) {
        letter_run_end(s, i + 1)
    } else {
        i
    }
}

/// The end of the run of digits starting at `i`.
pub open spec fn digit_run_end(s: Seq<char>, i: int) -> int
    decreases s.len() - i when 0 <= i <= s.len()
{
    if i < s.len() && spec_is_digit(s[i]) {
        digit_run_end(s, i + 1)
    } else {
        i
    }
}

/// The end of the run of non-whitespace characters starting at `i`.
pub open spec fn nonws_run_end(s: Seq<char>, i: int) -> int
    decreases s.len() - i when 0 <= i <= s.len()
{
    if i < s.len() && !spec_is_ws(s[i]) {
        nonws_run_end(s, i + 1)
    } else {
        i
    }
}

/// The end of a number body starting inside a digit run: digits, and
/// grouping or decimal separators each followed by another digit.
pub open spec fn num_body_end(s: Seq<char>, i: int) -> int
    decreases s.len() - i when 0 <= i <= s.len()
{
    if i < s.len() && spec_is_digit(s[i]) {
        num_body_end(s, i + 1)
    } else if i + 1 < s.len() && (s[i] == '.' || s[i] == ',') && spec_is_digit(s[i + 1]) {
        num_body_end(s, i + 2)
    } else {
        i
    }
}

pub proof fn lemma_letter_run_end_bounds(s: Seq<char>, i: int)
    requires
        0 <= i <= s.len(),
    ensures
        i <= letter_run_end(s, i) <= s.len(),
    decreases s.len() - i,
{
    if i < s.len() && spec_is_tr_letter(s[i]) {
        lemma_letter_run_end_bounds(s, i + 1);
    }
}

pub proof fn lemma_digit_run_end_bounds(s: Seq<char>, i: int)
    requires
        0 <= i <= s.len(),
    ensures
        i <= digit_run_end(s, i) <= s.len(),
    decreases s.len() - i,
{
    if i < s.len() && spec_is_digit(s[i]) {
        lemma_digit_run_end_bounds(s, i + 1);
    }
}

pub proof fn lemma_nonws_run_end_bounds(s: Seq<char>, i: int)
    requires
        0 <= i <= s.len(),
    ensures
        i <= nonws_run_end(s, i) <= s.len(),
    decreases s.len() - i,
{
    if i < s.len() && !spec_is_ws(s[i]) {
        lemma_nonws_run_end_bounds(s, i + 1);
    }
}

pub proof fn lemma_num_body_end_bounds(s: Seq<char>, i: int)
    requires
        0 <= i <= s.len(),
    ensures
        i <= num_body_end(s, i) <= s.len(),
    decreases s.len() - i,
{
    if i < s.len() && spec_is_digit(s[i]) {
        lemma_num_body_end_bounds(s, i + 1);
    } else if i + 1 < s.len() && (s[i] == '.' || s[i] == ',') && spec_is_digit(s[i + 1]) {
        lemma_num_body_end_bounds(s, i + 2);
    }
}

/// The literal `http://` at position `i`.
pub open spec fn spec_http_at(s: Seq<char>, i: int) -> bool {
    i + 7 <= s.len() && s[i] == 'h' && s[i + 1] == 't' && s[i + 2] == 't' && s[i + 3] == 'p' && s[i
        + 4] == ':' && s[i + 5] == '/' && s[i + 6] == '/'
}

/// The literal `https://` at position `i`.
pub open spec fn spec_https_at(s: Seq<char>, i: int) -> bool {
    i + 8 <= s.len() && s[i] == 'h' && s[i + 1] == 't' && s[i + 2] == 't' && s[i + 3] == 'p' && s[i
        + 4] == 's' && s[i + 5] == ':' && s[i + 6] == '/' && s[i + 7] == '/'
}

/// The literal `www.` at position `i`.
pub open spec fn spec_www_at(s: Seq<char>, i: int) -> bool {
    i + 4 <= s.len() && s[i] == 'w' && s[i + 1] == 'w' && s[i + 2] == 'w' && s[i + 3] == '.'
}

/// A URL match at `i`: one of the scheme prefixes followed by at least one
/// character, extending greedily to the next whitespace.
pub open spec fn url_match_at(s: Seq<char>, i: int) -> Option<int> {
    if spec_http_at(s, i) && i + 7 < s.len() && !spec_is_ws(s[i + 7]) {
        Some(nonws_run_end(s, i + 7))
    } else if spec_https_at(s, i) && i + 8 < s.len() && !spec_is_ws(s[i + 8]) {
        Some(nonws_run_end(s, i + 8))
    } else if spec_www_at(s, i) && i + 4 < s.len() && !spec_is_ws(s[i + 4]) {
        Some(nonws_run_end(s, i + 4))
    } else {
        None
    }
}

/// The characters an emoticon may start with.
pub open spec fn spec_emo_start(c: char) -> bool {
    c == ':' || c == ';' || c == '=' || c == '8'
}

/// The optional middle character of an emoticon.
pub open spec fn spec_emo_mid(c: char) -> bool {
    c == '-' || c == '^' || c == '\''
}

/// The characters an emoticon may end with.
pub open spec fn spec_emo_end(c: char) -> bool {
    c == ')' || c == 'D' || c == 'P' || c == 'O' || c == 'o' || c == '(' || c == '[' || c == '/'
        || c == '\\'
}

/// An emoticon match at `i`: a start character, an optional middle and a
/// closing character, preferring the three-character form.
pub open spec fn emoticon_match_at(s: Seq<char>, i: int) -> Option<int> {
    if i < s.len() && spec_emo_start(s[i]) {
        if i + 2 < s.len() && spec_emo_mid(s[i + 1]) && spec_emo_end(s[i + 2]) {
            Some(i + 3)
        } else if i + 1 < s.len() && spec_emo_end(s[i + 1]) {
            Some(i + 2)
        } else {
            None
        }
    } else {
        None
    }
}

/// A word match at `i`: a run of Turkish letters, optionally continued by an
/// apostrophe and a further letter run, which keeps clitics attached.
pub open spec fn apword_match_at(s: Seq<char>, i: int) -> Option<int> {
    if i < s.len() && spec_is_tr_letter(s[i]) {
        let j = letter_run_end(s, i);
        if j < s.len() && s[j] == '\'' && j + 1 < s.len() && spec_is_tr_letter(s[j + 1]) {
            Some(letter_run_end(s, j + 1))
        } else {
            Some(j)
        }
    } else {
        None
    }
}

/// A number match at `i`: a digit run with grouping or decimal separators,
/// optionally continued by a hyphen or en dash and a closing digit run.
pub open spec fn number_match_at(s: Seq<char>, i: int) -> Option<int> {
    if i < s.len() && spec_is_digit(s[i]) {
        let j = num_body_end(s, i);
        if j < s.len() && (s[j] == '-' || s[j] == '–') && j + 1 < s.len() && spec_is_digit(
            s[j + 1],
        ) {
            Some(digit_run_end(s, j + 1))
        } else {
            Some(j)
        }
    } else {
        None
    }
}

/// The first lexical class that matches at `i`, in priority order: URL,
/// emoticon, apostrophed word, number.
pub open spec fn match_at(s: Seq<char>, i: int) -> Option<int> {
    if url_match_at(s, i) is Some {
        url_match_at(s, i)
    } else if emoticon_match_at(s, i) is Some {
        emoticon_match_at(s, i)
    } else if apword_match_at(s, i) is Some {
        apword_match_at(s, i)
    } else {
        number_match_at(s, i)
    }
}

/// Any match ends strictly after where it starts and inside the text.
pub proof fn lemma_match_at_bounds(s: Seq<char>, i: int)
    requires
        0 <= i <= s.len(),
    ensures
        match match_at(s, i) {
            Some(j) => i < j <= s.len(),
            None => true,
        },
{
    if url_match_at(s, i) is Some {
        if spec_http_at(s, i) && i + 7 < s.len() && !spec_is_ws(s[i + 7]) {
            lemma_nonws_run_end_bounds(s, i + 7);
        } else if spec_https_at(s, i) && i + 8 < s.len() && !spec_is_ws(s[i + 8]) {
            lemma_nonws_run_end_bounds(s, i + 8);
        } else {
            lemma_nonws_run_end_bounds(s, i + 4);
        }
    } else if emoticon_match_at(s, i) is Some {
    } else if apword_match_at(s, i) is Some {
        assert(spec_is_tr_letter(s[i]));
        let j = letter_run_end(s, i);
        lemma_letter_run_end_bounds(s, i + 1);
        assert(j == letter_run_end(s, i + 1));
        if j < s.len() && s[j] == '\'' && j + 1 < s.len() && spec_is_tr_letter(s[j + 1]) {
            lemma_letter_run_end_bounds(s, j + 1);
        }
    } else if number_match_at(s, i) is Some {
        assert(spec_is_digit(s[i]));
        let j = num_body_end(s, i);
        lemma_num_body_end_bounds(s, i + 1);
        assert(j == num_body_end(s, i + 1));
        if j < s.len() && (s[j] == '-' || s[j] == '–') && j + 1 < s.len() && spec_is_digit(
            s[j + 1],
        ) {
            lemma_digit_run_end_bounds(s, j + 1);
        }
    }
}

/// The token sequence of `s` from position `i` on: the first match at each
/// position becomes a token with its character offsets, an unmatched
/// character that is neither whitespace nor word-like becomes a one-character
/// punctuation token, and everything else is skipped.
pub open spec fn spec_tokenize_from(s: Seq<char>, i: int) -> Seq<(Seq<char>, int, int)>
    decreases s.len() - i when 0 <= i <= s.len()
{
    if i >= s.len() {
        Seq::empty()
    } else {
        match match_at(s, i) {
            Option::Some(j) => {
                proof {
                    lemma_match_at_bounds(s, i);
                }
                seq![(s.subrange(i, j), i, j)] + spec_tokenize_from(s, j)
            },
            Option::None => {
                if !spec_is_ws(s[i]) && !spec_is_wordlike(s[i]) {
                    seq![(s.subrange(i, i + 1), i, i + 1)] + spec_tokenize_from(s, i + 1)
                } else {
                    spec_tokenize_from(s, i + 1)
                }
            },
        }
    }
}

/// The token sequence of a whole text.
pub open spec fn spec_tokenize(s: Seq<char>) -> Seq<(Seq<char>, int, int)> {
    spec_tokenize_from(s, 0)
}

/// Offsets are sound: every token lies inside the text, in order, and its
/// text is exactly the slice of the input between its offsets.
pub proof fn lemma_tokenize_offsets(s: Seq<char>, i: int)
    requires
        0 <= i <= s.len(),
    ensures
        forall|k: int|
            0 <= k < spec_tokenize_from(s, i).len() ==> {
                let t = #[trigger] spec_tokenize_from(s, i)[k];
                i <= t.1 < t.2 <= s.len() && t.0 == s.subrange(t.1, t.2)
            },
    decreases s.len() - i,
{
    if i < s.len() {
        let ts = spec_tokenize_from(s, i);
        match match_at(s, i) {
            Option::Some(j) => {
                lemma_match_at_bounds(s, i);
                lemma_tokenize_offsets(s, j);
                let rest = spec_tokenize_from(s, j);
                assert forall|k: int| 0 <= k < ts.len() implies {
                    let t = #[trigger] ts[k];
                    i <= t.1 < t.2 <= s.len() && t.0 == s.subrange(t.1, t.2)
                } by {
                    if k > 0 {
                        assert(ts[k] == rest[k - 1]);
                    }
                }
            },
            Option::None => {
                lemma_tokenize_offsets(s, i + 1);
                let rest = spec_tokenize_from(s, i + 1);
                if !spec_is_ws(s[i]) && !spec_is_wordlike(s[i]) {
                    assert forall|k: int| 0 <= k < ts.len() implies {
                        let t = #[trigger] ts[k];
                        i <= t.1 < t.2 <= s.len() && t.0 == s.subrange(t.1, t.2)
                    } by {
                        if k > 0 {
                            assert(ts[k] == rest[k - 1]);
                        }
                    }
                }
            },
        }
    }
}

/// The view of an emitted token vector: each token's text as a character
/// sequence with its offsets as mathematical integers.
pub open spec fn tokens_view(v: Seq<(String, usize, usize)>) -> Seq<(Seq<char>, int, int)> {
    Seq::new(v.len(), |k: int| (v[k].0@, v[k].1 as int, v[k].2 as int))
}

fn url_match_exec(cs: &Vec<char>, i: usize) -> (r: Option<usize>)
    requires
        i < cs@.len(),
    ensures
        match r {
            Some(j) => url_match_at(cs@, i as int) == Some(j as int),
            None => url_match_at(cs@, i as int) is None,
        },
{
    let n = cs.len();
    let http = n - i >= 7 && cs[i] == 'h' && cs[i + 1] == 't' && cs[i + 2] == 't' && cs[i + 3]
        == 'p' && cs[i + 4] == ':' && cs[i + 5] == '/' && cs[i + 6] == '/';
    if http && n - i > 7 && !is_ws(cs[i + 7]) {
        return Some(nonws_run_end_exec(cs, i + 7));
    }
    let https = n - i >= 8 && cs[i] == 'h' && cs[i + 1] == 't' && cs[i + 2] == 't' && cs[i + 3]
        == 'p' && cs[i + 4] == 's' && cs[i + 5] == ':' && cs[i + 6] == '/' && cs[i + 7] == '/';
    if https && n - i > 8 && !is_ws(cs[i + 8]) {
        return Some(nonws_run_end_exec(cs, i + 8));
    }
    let www = n - i >= 4 && cs[i] == 'w' && cs[i + 1] == 'w' && cs[i + 2] == 'w' && cs[i + 3]
        == '.';
    if www && n - i > 4 && !is_ws(cs[i + 4]) {
        return Some(nonws_run_end_exec(cs, i + 4));
    }
    None
}

fn nonws_run_end_exec(cs: &Vec<char>, i: usize) -> (r: usize)
    requires
        i <= cs@.len(),
    ensures
        r as int == nonws_run_end(cs@, i as int),
        i <= r <= cs@.len(),
{
    proof {
        lemma_nonws_run_end_bounds(cs@, i as int);
    }
    let mut j: usize = i;
    while j < cs.len() && !is_ws(cs[j])
        invariant
            i <= j <= cs@.len(),
            nonws_run_end(cs@, i as int) == nonws_run_end(cs@, j as int),
            i as int <= nonws_run_end(cs@, i as int) <= cs@.len(),
        decreases cs@.len() - j,
    {
        j = j + 1;
    }
    j
}

fn letter_run_end_exec(cs: &Vec<char>, i: usize) -> (r: usize)
    requires
        i <= cs@.len(),
    ensures
        r as int == letter_run_end(cs@, i as int),
        i <= r <= cs@.len(),
{
    proof {
        lemma_letter_run_end_bounds(cs@, i as int);
    }
    let mut j: usize = i;
    while j < cs.len() && is_tr_letter(cs[j])
        invariant
            i <= j <= cs@.len(),
            letter_run_end(cs@, i as int) == letter_run_end(cs@, j as int),
            i as int <= letter_run_end(cs@, i as int) <= cs@.len(),
        decreases cs@.len() - j,
    {
        j = j + 1;
    }
    j
}

fn digit_run_end_exec(cs: &Vec<char>, i: usize) -> (r: usize)
    requires
        i <= cs@.len(),
    ensures
        r as int == digit_run_end(cs@, i as int),
        i <= r <= cs@.len(),
{
    proof {
        lemma_digit_run_end_bounds(cs@, i as int);
    }
    let mut j: usize = i;
    while j < cs.len() && is_digit(cs[j])
        invariant
            i <= j <= cs@.len(),
            digit_run_end(cs@, i as int) == digit_run_end(cs@, j as int),
            i as int <= digit_run_end(cs@, i as int) <= cs@.len(),
        decreases cs@.len() - j,
    {
        j = j + 1;
    }
    j
}

fn num_body_end_exec(cs: &Vec<char>, i: usize) -> (r: usize)
    requires
        i <= cs@.len(),
    ensures
        r as int == num_body_end(cs@, i as int),
        i <= r <= cs@.len(),
{
    proof {
        lemma_num_body_end_bounds(cs@, i as int);
    }
    let mut j: usize = i;
    loop
        invariant
            i <= j <= cs@.len(),
            num_body_end(cs@, i as int) == num_body_end(cs@, j as int),
            i as int <= num_body_end(cs@, i as int) <= cs@.len(),
        ensures
            j as int == num_body_end(cs@, i as int),
        decreases cs@.len() - j,
    {
        if j < cs.len() && is_digit(cs[j]) {
            j = j + 1;
        } else if j < cs.len() && j + 1 < cs.len() && (cs[j] == '.' || cs[j] == ',') && is_digit(
            cs[j + 1],
        ) {
            j = j + 2;
        } else {
            break;
        }
    }
    j
}

fn emo_start(c: char) -> (r: bool)
    ensures
        r == spec_emo_start(c),
{
    c == ':' || c == ';' || c == '=' || c == '8'
}

fn emo_mid(c: char) -> (r: bool)
    ensures
        r == spec_emo_mid(c),
{
    c == '-' || c == '^' || c == '\''
}

fn emo_end(c: char) -> (r: bool)
    ensures
        r == spec_emo_end(c),
{
    c == ')' || c == 'D' || c == 'P' || c == 'O' || c == 'o' || c == '(' || c == '[' || c == '/'
        || c == '\\'
}

fn match_at_exec(cs: &Vec<char>, i: usize) -> (r: Option<usize>)
    requires
        i < cs@.len(),
    ensures
        match r {
            Some(j) => match_at(cs@, i as int) == Some(j as int) && i < j <= cs@.len(),
            None => match_at(cs@, i as int) is None,
        },
{
    proof {
        lemma_match_at_bounds(cs@, i as int);
    }
    if let Some(j) = url_match_exec(cs, i) {
        return Some(j);
    }
    let n = cs.len();
    if emo_start(cs[i]) {
        if n - i > 2 && emo_mid(cs[i + 1]) && emo_end(cs[i + 2]) {
            return Some(i + 3);
        }
        if n - i > 1 && emo_end(cs[i + 1]) {
            return Some(i + 2);
        }
    }
    if is_tr_letter(cs[i]) {
        let j = letter_run_end_exec(cs, i);
        if j < n && cs[j] == '\'' && j + 1 < n && is_tr_letter(cs[j + 1]) {
            return Some(letter_run_end_exec(cs, j + 1));
        }
        return Some(j);
    }
    if is_digit(cs[i]) {
        let j = num_body_end_exec(cs, i);
        if j < n && (cs[j] == '-' || cs[j] == '–') && j + 1 < n && is_digit(cs[j + 1]) {
            return Some(digit_run_end_exec(cs, j + 1));
        }
        return Some(j);
    }
    None
}

/// Segments the text into tokens with their start and end character offsets.
/// The offsets index characters of the original text, and the text of every
/// token is exactly the slice of the input between its offsets.
pub fn tokenize_with_offsets(text: &str) -> (r: Vec<(String, usize, usize)>)
    ensures
        tokens_view(r@) == spec_tokenize(text@),
        forall|k: int|
            0 <= k < r@.len() ==> {
                let t = #[trigger] r@[k];
                t.1 < t.2 <= text@.len() && t.0@ == text@.subrange(t.1 as int, t.2 as int)
            },
{
    let cs = chars_vec(text);
    let mut out: Vec<(String, usize, usize)> = Vec::new();
    let mut i: usize = 0;
    proof {
        assert(tokens_view(out@) =~= Seq::<(Seq<char>, int, int)>::empty());
    }
    while i < cs.len()
        invariant
            i <= cs@.len(),
            cs@ == text@,
            tokens_view(out@) + spec_tokenize_from(cs@, i as int) == spec_tokenize(text@),
        decreases cs@.len() - i,
    {
        match match_at_exec(&cs, i) {
            Some(j) => {
                let tok = string_from_range(&cs, i, j);
                out.push((tok, i, j));
                proof {
                    assert(tokens_view(out@) =~= tokens_view(out@.drop_last()).push(
                        (out@.last().0@, out@.last().1 as int, out@.last().2 as int),
                    ));
                    assert(tokens_view(out@) + spec_tokenize_from(cs@, j as int)
                        =~= spec_tokenize(text@));
                }
                i = j;
            },
            None => {
                if !is_ws(cs[i]) && !is_alnum(cs[i]) && cs[i] != '_' {
                    let tok = string_from_range(&cs, i, i + 1);
                    out.push((tok, i, i + 1));
                    proof {
                        assert(tokens_view(out@) =~= tokens_view(out@.drop_last()).push(
                            (out@.last().0@, out@.last().1 as int, out@.last().2 as int),
                        ));
                        assert(tokens_view(out@) + spec_tokenize_from(cs@, i as int + 1)
                            =~= spec_tokenize(text@));
                    }
                }
                i = i + 1;
            },
        }
    }
    proof {
        assert(tokens_view(out@) + spec_tokenize_from(cs@, i as int) =~= tokens_view(out@));
        lemma_tokenize_offsets(text@, 0);
        assert forall|k: int| 0 <= k < out@.len() implies {
            let t = #[trigger] out@[k];
            t.1 < t.2 <= text@.len() && t.0@ == text@.subrange(t.1 as int, t.2 as int)
        } by {
            assert(tokens_view(out@)[k] == spec_tokenize(text@)[k]);
        }
    }
    out
}

/// The token texts alone, in order.
pub open spec fn spec_token_texts(s: Seq<char>) -> Seq<Seq<char>> {
    spec_tokenize(s).map_values(|t: (Seq<char>, int, int)| t.0)
}

/// Segments the text into tokens, discarding the offsets.
pub fn tokenize(text: &str) -> (r: Vec<String>)
    ensures
        r.deep_view() == spec_token_texts(text@),
{
    let with_offsets = tokenize_with_offsets(text);
    let mut out: Vec<String> = Vec::new();
    let mut i: usize = 0;
    while i < with_offsets.len()
        invariant
            i <= with_offsets@.len(),
            tokens_view(with_offsets@) == spec_tokenize(text@),
            out.deep_view() == spec_token_texts(text@).take(i as int),
        decreases with_offsets@.len() - i,
    {
        let ghost i0 = i as int;
        proof {
            assert(tokens_view(with_offsets@).len() == with_offsets@.len());
            assert(spec_token_texts(text@).len() == spec_tokenize(text@).len());
            assert(out.deep_view().len() == out@.len());
            assert(out@.len() == i0);
            assert(tokens_view(with_offsets@)[i0] == spec_tokenize(text@)[i0]);
            assert(spec_token_texts(text@)[i0] == spec_tokenize(text@)[i0].0);
        }
        out.push(with_offsets[i].0.clone());
        i = i + 1;
        proof {
            assert(out@[i0]@ == with_offsets@[i0].0@);
            assert(out.deep_view()[i0] == out@[i0]@);
            assert(out.deep_view() =~= spec_token_texts(text@).take(i as int));
        }
    }
    proof {
        assert(spec_token_texts(text@).take(with_offsets@.len() as int) =~= spec_token_texts(
            text@,
        ));
    }
    out
}

/// The tokens with each text folded to Turkish lowercase, offsets still
/// pointing at the original text.
pub open spec fn spec_tokenize_normalized(s: Seq<char>) -> Seq<(Seq<char>, int, int)> {
    spec_tokenize(s).map_values(
        |t: (Seq<char>, int, int)| (crate::normalize::spec_normalize(t.0), t.1, t.2),
    )
}

/// Segments the text and folds each token to Turkish lowercase; the offsets
/// keep pointing at the original, unfolded text.
pub fn tokenize_with_normalized_offsets(text: &str) -> (r: Vec<(String, usize, usize)>)
    ensures
        tokens_view(r@) == spec_tokenize_normalized(text@),
{
    let with_offsets = tokenize_with_offsets(text);
    let mut out: Vec<(String, usize, usize)> = Vec::new();
    let mut i: usize = 0;
    while i < with_offsets.len()
        invariant
            i <= with_offsets@.len(),
            tokens_view(with_offsets@) == spec_tokenize(text@),
            tokens_view(out@) == spec_tokenize_normalized(text@).take(i as int),
        decreases with_offsets@.len() - i,
    {
        let ghost i0 = i as int;
        proof {
            assert(tokens_view(with_offsets@).len() == with_offsets@.len());
            assert(spec_tokenize_normalized(text@).len() == spec_tokenize(text@).len());
            assert(tokens_view(out@).len() == out@.len());
            assert(out@.len() == i0);
            assert(tokens_view(with_offsets@)[i0] == spec_tokenize(text@)[i0]);
            assert(spec_tokenize_normalized(text@)[i0] == (
                crate::normalize::spec_normalize(spec_tokenize(text@)[i0].0),
                spec_tokenize(text@)[i0].1,
                spec_tokenize(text@)[i0].2,
            ));
        }
        let t = &with_offsets[i];
        let folded = crate::normalize::fast_normalize(t.0.as_str());
        out.push((folded, t.1, t.2));
        i = i + 1;
        proof {
            assert(tokens_view(out@)[i0] == (out@[i0].0@, out@[i0].1 as int, out@[i0].2 as int));
            assert(tokens_view(out@) =~= spec_tokenize_normalized(text@).take(i as int));
        }
    }
    proof {
        assert(spec_tokenize_normalized(text@).take(with_offsets@.len() as int)
            =~= spec_tokenize_normalized(text@));
    }
    out
}

} // verus!
