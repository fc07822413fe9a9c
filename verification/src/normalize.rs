//! Turkish-aware case folding.
//!
//! Each character is folded independently: the capital dotted İ becomes the
//! dotted i, the capital dotless I becomes the Turkish dotless ı, and every
//! other character goes through standard Unicode lowercasing, keeping the
//! first character when the lowercase expansion has more than one.

use vstd::prelude::*;

use crate::chars::{chars_vec, string_from_chars};

verus! {

/// The first character of the Unicode lowercase mapping of `c`, or `c` itself
/// when it has none. Only `lower_first` below gives this name a value.
pub uninterp spec fn lower_first_of(c: char) -> char;

/// Relies on `char::to_lowercase`: it yields the lowercase mapping of the
/// character, or the character itself when there is none, and depends on the
/// character alone.
#[verifier::external_body]
fn lower_first(c: char) -> (r: char)
    ensures
        r == lower_first_of(c),
{
    c.to_lowercase().next().unwrap_or(c)
}

/// How one character is folded. The two Turkish exceptions come first; the
/// ASCII letters and the special Turkish letters are folded directly, other
/// ASCII characters have no lowercase mapping and stay as they are, and
/// everything else goes through Unicode lowercasing.
pub open spec fn fold_char(c: char) -> char {
    if c == 'İ' {
        'i'
    } else if c == 'I' {
        'ı'
    } else if c == 'A' {
        'a'
    } else if c == 'B' {
        'b'
    } else if c == 'C' {
        'c'
    } else if c == 'D' {
        'd'
    } else if c == 'E' {
        'e'
    } else if c == 'F' {
        'f'
    } else if c == 'G' {
        'g'
    } else if c == 'H' {
        'h'
    } else if c == 'J' {
        'j'
    } else if c == 'K' {
        'k'
    } else if c == 'L' {
        'l'
    } else if c == 'M' {
        'm'
    } else if c == 'N' {
        'n'
    } else if c == 'O' {
        'o'
    } else if c == 'P' {
        'p'
    } else if c == 'Q' {
        'q'
    } else if c == 'R' {
        'r'
    } else if c == 'S' {
        's'
    } else if c == 'T' {
        't'
    } else if c == 'U' {
        'u'
    } else if c == 'V' {
        'v'
    } else if c == 'W' {
        'w'
    } else if c == 'X' {
        'x'
    } else if c == 'Y' {
        'y'
    } else if c == 'Z' {
        'z'
    } else if c == 'Ç' {
        'ç'
    } else if c == 'Ğ' {
        'ğ'
    } else if c == 'Ö' {
        'ö'
    } else if c == 'Ş' {
        'ş'
    } else if c == 'Ü' {
        'ü'
    } else if (c as u32) < 128 {
        c
    } else if c == 'ç' || c == 'ğ' || c == 'ı' || c == 'ö' || c == 'ş' || c == 'ü' {
        c
    } else {
        lower_first_of(c)
    }
}

/// The fold of a whole text, character by character.
pub open spec fn spec_normalize(s: Seq<char>) -> Seq<char> {
    s.map_values(|c: char| fold_char(c))
}

fn fold_char_exec(c: char) -> (r: char)
    ensures
        r == fold_char(c),
{
    match c {
        'İ' => 'i',
        'I' => 'ı',
        'A' => 'a',
        'B' => 'b',
        'C' => 'c',
        'D' => 'd',
        'E' => 'e',
        'F' => 'f',
        'G' => 'g',
        'H' => 'h',
        'J' => 'j',
        'K' => 'k',
        'L' => 'l',
        'M' => 'm',
        'N' => 'n',
        'O' => 'o',
        'P' => 'p',
        'Q' => 'q',
        'R' => 'r',
        'S' => 's',
        'T' => 't',
        'U' => 'u',
        'V' => 'v',
        'W' => 'w',
        'X' => 'x',
        'Y' => 'y',
        'Z' => 'z',
        'Ç' => 'ç',
        'Ğ' => 'ğ',
        'Ö' => 'ö',
        'Ş' => 'ş',
        'Ü' => 'ü',
        _ => {
            if (c as u32) < 128 || c == 'ç' || c == 'ğ' || c == 'ı' || c == 'ö' || c == 'ş' || c
                == 'ü' {
                c
            } else {
                lower_first(c)
            }
        },
    }
}

/// Folds a text to Turkish lowercase, character by character.
pub fn fast_normalize(text: &str) -> (r: String)
    ensures
        r@ == spec_normalize(text@),
{
    let cs = chars_vec(text);
    let mut out: Vec<char> = Vec::new();
    let mut i: usize = 0;
    while i < cs.len()
        invariant
            i <= cs.len(),
            cs@ == text@,
            out@ == spec_normalize(text@.subrange(0, i as int)),
        decreases cs.len() - i,
    {
        let f = fold_char_exec(cs[i]);
        out.push(f);
        i = i + 1;
        proof {
            assert(out@ =~= spec_normalize(text@.subrange(0, i as int)));
        }
    }
    proof {
        assert(text@.subrange(0, text@.len() as int) =~= text@);
    }
    string_from_chars(&out)
}

/// A character of the scripts this library is about: ASCII or one of the
/// Turkish letters. On such characters the fold is known exactly.
pub open spec fn tame_char(c: char) -> bool {
    (c as u32) < 128 || c == 'İ' || c == 'ı' || c == 'Ç' || c == 'ç' || c == 'Ğ' || c == 'ğ' || c
        == 'Ö' || c == 'ö' || c == 'Ş' || c == 'ş' || c == 'Ü' || c == 'ü'
}

proof fn lemma_fold_char_idempotent(c: char)
    requires
        tame_char(c),
    ensures
        fold_char(fold_char(c)) == fold_char(c),
{
}

/// Normalization is idempotent: folding an already folded text changes
/// nothing. Stated for texts of ASCII and Turkish characters, where the fold
/// of every character is pinned down.
pub proof fn lemma_normalize_idempotent(s: Seq<char>)
    requires
        forall|i: int| 0 <= i < s.len() ==> tame_char(s[i]),
    ensures
        spec_normalize(spec_normalize(s)) == spec_normalize(s),
{
    let t = spec_normalize(s);
    assert forall|i: int| 0 <= i < t.len() implies #[trigger] fold_char(t[i]) == t[i] by {
        lemma_fold_char_idempotent(s[i]);
    }
    assert(spec_normalize(t) =~= t);
}

} // verus!
