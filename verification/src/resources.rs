//! Static word lists: detached suffixes, stopword lists and their metadata.
//! The lists are built once from static data and read-only afterwards; blank
//! lines and comment lines of the original newline-delimited sources have no
//! counterpart here, every entry is a word.

use vstd::prelude::*;

verus! {

fn push_word(v: &mut Vec<String>, w: &str)
    ensures
        final(v).deep_view() == old(v).deep_view().push(w@),
{
    v.push(String::from_str(w));
    proof {
        assert(v.deep_view() =~= old(v).deep_view().push(w@));
    }
}

/// The suffixes that Turkish writes as separate words.
pub open spec fn spec_detached_suffixes() -> Seq<Seq<char>> {
    seq![
        "de"@,
        "da"@,
        "ki"@,
        "mi"@,
        "mı"@,
        "mu"@,
        "mü"@,
        "ise"@,
        "ile"@,
        "iken"@,
        "değil"@,
    ]
}

/// The detached suffix list, in order.
pub fn get_detached_suffixes() -> (r: Vec<String>)
    ensures
        r.deep_view() == spec_detached_suffixes(),
{
    let mut v: Vec<String> = Vec::new();
    push_word(&mut v, "de");
    push_word(&mut v, "da");
    push_word(&mut v, "ki");
    push_word(&mut v, "mi");
    push_word(&mut v, "mı");
    push_word(&mut v, "mu");
    push_word(&mut v, "mü");
    push_word(&mut v, "ise");
    push_word(&mut v, "ile");
    push_word(&mut v, "iken");
    push_word(&mut v, "değil");
    proof {
        assert(v.deep_view() =~= spec_detached_suffixes());
    }
    v
}

/// The base Turkish stopword list.
pub open spec fn spec_stopwords_base() -> Seq<Seq<char>> {
    seq![
        "acaba"@,
        "ama"@,
        "ancak"@,
        "artık"@,
        "bana"@,
        "bazı"@,
        "belki"@,
        "ben"@,
        "bile"@,
        "bir"@,
        "biraz"@,
        "birkaç"@,
        "biz"@,
        "bu"@,
        "çok"@,
        "çünkü"@,
        "da"@,
        "daha"@,
        "de"@,
        "değil"@,
        "diye"@,
        "eğer"@,
        "en"@,
        "gibi"@,
        "hem"@,
        "henüz"@,
        "hep"@,
        "hiç"@,
        "için"@,
        "ile"@,
        "ise"@,
        "kadar"@,
        "ki"@,
        "kim"@,
        "mi"@,
        "mı"@,
        "mu"@,
        "mü"@,
        "nasıl"@,
        "ne"@,
        "neden"@,
        "o"@,
        "şey"@,
        "şu"@,
        "ve"@,
        "veya"@,
        "ya"@,
        "yani"@,
    ]
}

/// The base Turkish stopwords, in order.
pub fn get_stopwords_base() -> (r: Vec<String>)
    ensures
        r.deep_view() == spec_stopwords_base(),
{
    let mut v: Vec<String> = Vec::new();
    push_word(&mut v, "acaba");
    push_word(&mut v, "ama");
    push_word(&mut v, "ancak");
    push_word(&mut v, "artık");
    push_word(&mut v, "bana");
    push_word(&mut v, "bazı");
    push_word(&mut v, "belki");
    push_word(&mut v, "ben");
    push_word(&mut v, "bile");
    push_word(&mut v, "bir");
    push_word(&mut v, "biraz");
    push_word(&mut v, "birkaç");
    push_word(&mut v, "biz");
    push_word(&mut v, "bu");
    push_word(&mut v, "çok");
    push_word(&mut v, "çünkü");
    push_word(&mut v, "da");
    push_word(&mut v, "daha");
    push_word(&mut v, "de");
    push_word(&mut v, "değil");
    push_word(&mut v, "diye");
    push_word(&mut v, "eğer");
    push_word(&mut v, "en");
    push_word(&mut v, "gibi");
    push_word(&mut v, "hem");
    push_word(&mut v, "henüz");
    push_word(&mut v, "hep");
    push_word(&mut v, "hiç");
    push_word(&mut v, "için");
    push_word(&mut v, "ile");
    push_word(&mut v, "ise");
    push_word(&mut v, "kadar");
    push_word(&mut v, "ki");
    push_word(&mut v, "kim");
    push_word(&mut v, "mi");
    push_word(&mut v, "mı");
    push_word(&mut v, "mu");
    push_word(&mut v, "mü");
    push_word(&mut v, "nasıl");
    push_word(&mut v, "ne");
    push_word(&mut v, "neden");
    push_word(&mut v, "o");
    push_word(&mut v, "şey");
    push_word(&mut v, "şu");
    push_word(&mut v, "ve");
    push_word(&mut v, "veya");
    push_word(&mut v, "ya");
    push_word(&mut v, "yani");
    proof {
        assert(v.deep_view() =~= spec_stopwords_base());
    }
    v
}

/// The social media stopword list.
pub open spec fn spec_stopwords_social_media() -> Seq<Seq<char>> {
    seq![
        "rt"@,
        "dm"@,
        "via"@,
        "link"@,
        "bio"@,
        "takip"@,
        "paylaşım"@,
        "beğeni"@,
        "hashtag"@,
        "story"@,
    ]
}

/// The social media stopwords, in order.
pub fn get_stopwords_social_media() -> (r: Vec<String>)
    ensures
        r.deep_view() == spec_stopwords_social_media(),
{
    let mut v: Vec<String> = Vec::new();
    push_word(&mut v, "rt");
    push_word(&mut v, "dm");
    push_word(&mut v, "via");
    push_word(&mut v, "link");
    push_word(&mut v, "bio");
    push_word(&mut v, "takip");
    push_word(&mut v, "paylaşım");
    push_word(&mut v, "beğeni");
    push_word(&mut v, "hashtag");
    push_word(&mut v, "story");
    proof {
        assert(v.deep_view() =~= spec_stopwords_social_media());
    }
    v
}

/// The stopword metadata, as the JSON text that describes the lists.
pub fn get_stopwords_metadata() -> (r: String)
    ensures
        r@
            == "{\"language\":\"tr\",\"categories\":[\"base\",\"social_media\"],\"format\":\"newline-delimited\",\"comment_prefix\":\"#\"}"@,
{
    String::from_str(
        "{\"language\":\"tr\",\"categories\":[\"base\",\"social_media\"],\"format\":\"newline-delimited\",\"comment_prefix\":\"#\"}",
    )
}

} // verus!
