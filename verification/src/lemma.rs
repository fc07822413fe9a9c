//! The lemma dictionary: an exact, case-sensitive mapping from inflected
//! surface forms to their lemmas, built once from static data and read-only
//! afterwards. Lookup is tier one of the lemmatization pipeline; the
//! dictionary's values also serve as the accepted-roots set of the strict
//! root validator.

use vstd::prelude::*;

use crate::chars::{chars_eq, chars_vec};

verus! {

/// A read-only dictionary of (inflected form, lemma) pairs.
pub struct LemmaDict {
    pub entries: Vec<(String, String)>,
}

impl View for LemmaDict {
    type V = Seq<(Seq<char>, Seq<char>)>;

    open spec fn view(&self) -> Seq<(Seq<char>, Seq<char>)> {
        self.entries.deep_view()
    }
}

/// The lemma of the first pair whose inflected form equals `w`, if any.
pub open spec fn spec_lookup(pairs: Seq<(Seq<char>, Seq<char>)>, w: Seq<char>) -> Option<
    Seq<char>,
>
    decreases pairs.len(),
{
    if pairs.len() == 0 {
        None
    } else if pairs[0].0 == w {
        Some(pairs[0].1)
    } else {
        spec_lookup(pairs.drop_first(), w)
    }
}

/// Whether `w` appears among the lemmas (the values) of the dictionary.
pub open spec fn spec_contains_value(pairs: Seq<(Seq<char>, Seq<char>)>, w: Seq<char>) -> bool {
    exists|k: int| 0 <= k < pairs.len() && pairs[k].1 == w
}

/// Plural noun forms, first part.
pub open spec fn pairs_a() -> Seq<(Seq<char>, Seq<char>)> {
    seq![
        ("kitaplar"@, "kitap"@),
        ("evler"@, "ev"@),
        ("insanlar"@, "insan"@),
        ("arabalar"@, "araba"@),
        ("çocuklar"@, "çocuk"@),
        ("adamlar"@, "adam"@),
        ("şehirler"@, "şehir"@),
        ("masalar"@, "masa"@),
        ("kadınlar"@, "kadın"@),
        ("erkekler"@, "erkek"@),
        ("öğrenciler"@, "öğrenci"@),
        ("öğretmenler"@, "öğretmen"@),
        ("okullar"@, "okul"@),
        ("yollar"@, "yol"@),
        ("günler"@, "gün"@),
        ("geceler"@, "gece"@),
        ("yıllar"@, "yıl"@),
        ("aylar"@, "ay"@),
        ("haftalar"@, "hafta"@),
        ("saatler"@, "saat"@),
        ("dakikalar"@, "dakika"@),
        ("sokaklar"@, "sokak"@),
    ]
}

/// Plural noun forms, second part.
pub open spec fn pairs_b() -> Seq<(Seq<char>, Seq<char>)> {
    seq![
        ("köyler"@, "köy"@),
        ("ülkeler"@, "ülke"@),
        ("diller"@, "dil"@),
        ("kelimeler"@, "kelime"@),
        ("cümleler"@, "cümle"@),
        ("sayfalar"@, "sayfa"@),
        ("kalemler"@, "kalem"@),
        ("defterler"@, "defter"@),
        ("çantalar"@, "çanta"@),
        ("kapılar"@, "kapı"@),
        ("pencereler"@, "pencere"@),
        ("odalar"@, "oda"@),
        ("bahçeler"@, "bahçe"@),
        ("ağaçlar"@, "ağaç"@),
        ("çiçekler"@, "çiçek"@),
        ("kuşlar"@, "kuş"@),
        ("kediler"@, "kedi"@),
        ("köpekler"@, "köpek"@),
        ("balıklar"@, "balık"@),
        ("atlar"@, "at"@),
        ("dağlar"@, "dağ"@),
        ("denizler"@, "deniz"@),
    ]
}

/// Plural noun forms, third part.
pub open spec fn pairs_c() -> Seq<(Seq<char>, Seq<char>)> {
    seq![
        ("göller"@, "göl"@),
        ("nehirler"@, "nehir"@),
        ("ormanlar"@, "orman"@),
        ("taşlar"@, "taş"@),
        ("yıldızlar"@, "yıldız"@),
        ("bulutlar"@, "bulut"@),
        ("eller"@, "el"@),
        ("gözler"@, "göz"@),
        ("kulaklar"@, "kulak"@),
        ("dişler"@, "diş"@),
        ("saçlar"@, "saç"@),
        ("ayaklar"@, "ayak"@),
        ("parmaklar"@, "parmak"@),
        ("kollar"@, "kol"@),
        ("kalpler"@, "kalp"@),
        ("anneler"@, "anne"@),
        ("babalar"@, "baba"@),
        ("kardeşler"@, "kardeş"@),
        ("arkadaşlar"@, "arkadaş"@),
        ("dostlar"@, "dost"@),
        ("komşular"@, "komşu"@),
        ("misafirler"@, "misafir"@),
    ]
}

/// Case and possessive forms.
pub open spec fn pairs_d() -> Seq<(Seq<char>, Seq<char>)> {
    seq![
        ("evden"@, "ev"@),
        ("evde"@, "ev"@),
        ("eve"@, "ev"@),
        ("evimiz"@, "ev"@),
        ("kitabı"@, "kitap"@),
        ("kitabım"@, "kitap"@),
        ("kitapta"@, "kitap"@),
        ("okulda"@, "okul"@),
        ("okuldan"@, "okul"@),
        ("işte"@, "iş"@),
        ("işten"@, "iş"@),
        ("sudan"@, "su"@),
        ("suda"@, "su"@),
        ("denizde"@, "deniz"@),
        ("yolda"@, "yol"@),
        ("şehirde"@, "şehir"@),
        ("şehirden"@, "şehir"@),
        ("köyde"@, "köy"@),
        ("dağda"@, "dağ"@),
        ("elinde"@, "el"@),
        ("gözünde"@, "göz"@),
        ("sokakta"@, "sokak"@),
    ]
}

/// Verb forms, first part.
pub open spec fn pairs_e() -> Seq<(Seq<char>, Seq<char>)> {
    seq![
        ("geliyorum"@, "gel"@),
        ("gittim"@, "git"@),
        ("yapıyorum"@, "yap"@),
        ("söyledi"@, "söyle"@),
        ("geldi"@, "gel"@),
        ("gitti"@, "git"@),
        ("yaptı"@, "yap"@),
        ("gidiyorum"@, "git"@),
        ("geliyor"@, "gel"@),
        ("gidiyor"@, "git"@),
        ("yapıyor"@, "yap"@),
        ("söylüyor"@, "söyle"@),
        ("okudum"@, "oku"@),
        ("okuyor"@, "oku"@),
        ("yazdı"@, "yaz"@),
        ("yazıyor"@, "yaz"@),
        ("gördüm"@, "gör"@),
        ("görüyor"@, "gör"@),
        ("bildi"@, "bil"@),
        ("biliyor"@, "bil"@),
        ("geldik"@, "gel"@),
        ("gittik"@, "git"@),
    ]
}

/// Verb forms, second part.
pub open spec fn pairs_f() -> Seq<(Seq<char>, Seq<char>)> {
    seq![
        ("aldı"@, "al"@),
        ("alıyor"@, "al"@),
        ("verdi"@, "ver"@),
        ("veriyor"@, "ver"@),
        ("konuştu"@, "konuş"@),
        ("konuşuyor"@, "konuş"@),
        ("çalıştı"@, "çalış"@),
        ("çalışıyor"@, "çalış"@),
        ("başladı"@, "başla"@),
        ("başlıyor"@, "başla"@),
        ("bitti"@, "bit"@),
        ("bitiyor"@, "bit"@),
        ("sevdi"@, "sev"@),
        ("seviyor"@, "sev"@),
        ("istedi"@, "iste"@),
        ("istiyor"@, "iste"@),
        ("bekledi"@, "bekle"@),
        ("bekliyor"@, "bekle"@),
        ("düşündü"@, "düşün"@),
        ("düşünüyor"@, "düşün"@),
        ("anladı"@, "anla"@),
        ("anlıyor"@, "anla"@),
    ]
}

/// The full static dictionary, in lookup order.
pub open spec fn default_pairs() -> Seq<(Seq<char>, Seq<char>)> {
    pairs_a() + pairs_b() + pairs_c() + pairs_d() + pairs_e() + pairs_f()
}

fn push_pair(v: &mut Vec<(String, String)>, k: &str, val: &str)
    ensures
        final(v).deep_view() == old(v).deep_view().push((k@, val@)),
{
    v.push((String::from_str(k), String::from_str(val)));
    proof {
        assert(v.deep_view() =~= old(v).deep_view().push((k@, val@)));
    }
}

fn add_pairs_a(v: &mut Vec<(String, String)>)
    ensures
        final(v).deep_view() == old(v).deep_view() + pairs_a(),
{
    push_pair(v, "kitaplar", "kitap");
    push_pair(v, "evler", "ev");
    push_pair(v, "insanlar", "insan");
    push_pair(v, "arabalar", "araba");
    push_pair(v, "çocuklar", "çocuk");
    push_pair(v, "adamlar", "adam");
    push_pair(v, "şehirler", "şehir");
    push_pair(v, "masalar", "masa");
    push_pair(v, "kadınlar", "kadın");
    push_pair(v, "erkekler", "erkek");
    push_pair(v, "öğrenciler", "öğrenci");
    push_pair(v, "öğretmenler", "öğretmen");
    push_pair(v, "okullar", "okul");
    push_pair(v, "yollar", "yol");
    push_pair(v, "günler", "gün");
    push_pair(v, "geceler", "gece");
    push_pair(v, "yıllar", "yıl");
    push_pair(v, "aylar", "ay");
    push_pair(v, "haftalar", "hafta");
    push_pair(v, "saatler", "saat");
    push_pair(v, "dakikalar", "dakika");
    push_pair(v, "sokaklar", "sokak");
    proof {
        assert(v.deep_view() =~= old(v).deep_view() + pairs_a());
    }
}

fn add_pairs_b(v: &mut Vec<(String, String)>)
    ensures
        final(v).deep_view() == old(v).deep_view() + pairs_b(),
{
    push_pair(v, "köyler", "köy");
    push_pair(v, "ülkeler", "ülke");
    push_pair(v, "diller", "dil");
    push_pair(v, "kelimeler", "kelime");
    push_pair(v, "cümleler", "cümle");
    push_pair(v, "sayfalar", "sayfa");
    push_pair(v, "kalemler", "kalem");
    push_pair(v, "defterler", "defter");
    push_pair(v, "çantalar", "çanta");
    push_pair(v, "kapılar", "kapı");
    push_pair(v, "pencereler", "pencere");
    push_pair(v, "odalar", "oda");
    push_pair(v, "bahçeler", "bahçe");
    push_pair(v, "ağaçlar", "ağaç");
    push_pair(v, "çiçekler", "çiçek");
    push_pair(v, "kuşlar", "kuş");
    push_pair(v, "kediler", "kedi");
    push_pair(v, "köpekler", "köpek");
    push_pair(v, "balıklar", "balık");
    push_pair(v, "atlar", "at");
    push_pair(v, "dağlar", "dağ");
    push_pair(v, "denizler", "deniz");
    proof {
        assert(v.deep_view() =~= old(v).deep_view() + pairs_b());
    }
}

fn add_pairs_c(v: &mut Vec<(String, String)>)
    ensures
        final(v).deep_view() == old(v).deep_view() + pairs_c(),
{
    push_pair(v, "göller", "göl");
    push_pair(v, "nehirler", "nehir");
    push_pair(v, "ormanlar", "orman");
    push_pair(v, "taşlar", "taş");
    push_pair(v, "yıldızlar", "yıldız");
    push_pair(v, "bulutlar", "bulut");
    push_pair(v, "eller", "el");
    push_pair(v, "gözler", "göz");
    push_pair(v, "kulaklar", "kulak");
    push_pair(v, "dişler", "diş");
    push_pair(v, "saçlar", "saç");
    push_pair(v, "ayaklar", "ayak");
    push_pair(v, "parmaklar", "parmak");
    push_pair(v, "kollar", "kol");
    push_pair(v, "kalpler", "kalp");
    push_pair(v, "anneler", "anne");
    push_pair(v, "babalar", "baba");
    push_pair(v, "kardeşler", "kardeş");
    push_pair(v, "arkadaşlar", "arkadaş");
    push_pair(v, "dostlar", "dost");
    push_pair(v, "komşular", "komşu");
    push_pair(v, "misafirler", "misafir");
    proof {
        assert(v.deep_view() =~= old(v).deep_view() + pairs_c());
    }
}

fn add_pairs_d(v: &mut Vec<(String, String)>)
    ensures
        final(v).deep_view() == old(v).deep_view() + pairs_d(),
{
    push_pair(v, "evden", "ev");
    push_pair(v, "evde", "ev");
    push_pair(v, "eve", "ev");
    push_pair(v, "evimiz", "ev");
    push_pair(v, "kitabı", "kitap");
    push_pair(v, "kitabım", "kitap");
    push_pair(v, "kitapta", "kitap");
    push_pair(v, "okulda", "okul");
    push_pair(v, "okuldan", "okul");
    push_pair(v, "işte", "iş");
    push_pair(v, "işten", "iş");
    push_pair(v, "sudan", "su");
    push_pair(v, "suda", "su");
    push_pair(v, "denizde", "deniz");
    push_pair(v, "yolda", "yol");
    push_pair(v, "şehirde", "şehir");
    push_pair(v, "şehirden", "şehir");
    push_pair(v, "köyde", "köy");
    push_pair(v, "dağda", "dağ");
    push_pair(v, "elinde", "el");
    push_pair(v, "gözünde", "göz");
    push_pair(v, "sokakta", "sokak");
    proof {
        assert(v.deep_view() =~= old(v).deep_view() + pairs_d());
    }
}

fn add_pairs_e(v: &mut Vec<(String, String)>)
    ensures
        final(v).deep_view() == old(v).deep_view() + pairs_e(),
{
    push_pair(v, "geliyorum", "gel");
    push_pair(v, "gittim", "git");
    push_pair(v, "yapıyorum", "yap");
    push_pair(v, "söyledi", "söyle");
    push_pair(v, "geldi", "gel");
    push_pair(v, "gitti", "git");
    push_pair(v, "yaptı", "yap");
    push_pair(v, "gidiyorum", "git");
    push_pair(v, "geliyor", "gel");
    push_pair(v, "gidiyor", "git");
    push_pair(v, "yapıyor", "yap");
    push_pair(v, "söylüyor", "söyle");
    push_pair(v, "okudum", "oku");
    push_pair(v, "okuyor", "oku");
    push_pair(v, "yazdı", "yaz");
    push_pair(v, "yazıyor", "yaz");
    push_pair(v, "gördüm", "gör");
    push_pair(v, "görüyor", "gör");
    push_pair(v, "bildi", "bil");
    push_pair(v, "biliyor", "bil");
    push_pair(v, "geldik", "gel");
    push_pair(v, "gittik", "git");
    proof {
        assert(v.deep_view() =~= old(v).deep_view() + pairs_e());
    }
}

fn add_pairs_f(v: &mut Vec<(String, String)>)
    ensures
        final(v).deep_view() == old(v).deep_view() + pairs_f(),
{
    push_pair(v, "aldı", "al");
    push_pair(v, "alıyor", "al");
    push_pair(v, "verdi", "ver");
    push_pair(v, "veriyor", "ver");
    push_pair(v, "konuştu", "konuş");
    push_pair(v, "konuşuyor", "konuş");
    push_pair(v, "çalıştı", "çalış");
    push_pair(v, "çalışıyor", "çalış");
    push_pair(v, "başladı", "başla");
    push_pair(v, "başlıyor", "başla");
    push_pair(v, "bitti", "bit");
    push_pair(v, "bitiyor", "bit");
    push_pair(v, "sevdi", "sev");
    push_pair(v, "seviyor", "sev");
    push_pair(v, "istedi", "iste");
    push_pair(v, "istiyor", "iste");
    push_pair(v, "bekledi", "bekle");
    push_pair(v, "bekliyor", "bekle");
    push_pair(v, "düşündü", "düşün");
    push_pair(v, "düşünüyor", "düşün");
    push_pair(v, "anladı", "anla");
    push_pair(v, "anlıyor", "anla");
    proof {
        assert(v.deep_view() =~= old(v).deep_view() + pairs_f());
    }
}

/// Builds the static lemma dictionary.
pub fn get_lemma_dict() -> (d: LemmaDict)
    ensures
        d@ == default_pairs(),
{
    let mut v: Vec<(String, String)> = Vec::new();
    add_pairs_a(&mut v);
    add_pairs_b(&mut v);
    add_pairs_c(&mut v);
    add_pairs_d(&mut v);
    add_pairs_e(&mut v);
    add_pairs_f(&mut v);
    proof {
        assert(v.deep_view() =~= default_pairs());
    }
    LemmaDict { entries: v }
}

/// Looks a word up in a dictionary: the lemma of the first pair whose
/// inflected form matches exactly, or nothing.
pub fn lookup_in(d: &LemmaDict, word: &str) -> (r: Option<String>)
    ensures
        r is Some <==> spec_lookup(d@, word@) is Some,
        r is Some ==> r.unwrap()@ == spec_lookup(d@, word@).unwrap(),
{
    let wcs = chars_vec(word);
    let mut i: usize = 0;
    proof {
        assert(d@.skip(0) =~= d@);
    }
    while i < d.entries.len()
        invariant
            i <= d.entries@.len(),
            wcs@ == word@,
            spec_lookup(d@, word@) == spec_lookup(d@.skip(i as int), word@),
        decreases d.entries@.len() - i,
    {
        proof {
            assert(d@[i as int] == (d.entries@[i as int].0@, d.entries@[i as int].1@));
            assert(d@.skip(i as int)[0] == d@[i as int]);
        }
        let kcs = chars_vec(d.entries[i].0.as_str());
        if chars_eq(&kcs, &wcs) {
            return Some(d.entries[i].1.clone());
        }
        proof {
            assert(d@.skip(i as int).drop_first() =~= d@.skip(i as int + 1));
        }
        i = i + 1;
    }
    proof {
        assert(d@.skip(d@.len() as int) =~= Seq::<(Seq<char>, Seq<char>)>::empty());
    }
    None
}

/// Tier one of lemmatization: exact lookup in the static dictionary.
pub fn lookup_lemma(word: &str) -> (r: Option<String>)
    ensures
        r is Some <==> spec_lookup(default_pairs(), word@) is Some,
        r is Some ==> r.unwrap()@ == spec_lookup(default_pairs(), word@).unwrap(),
{
    let d = get_lemma_dict();
    lookup_in(&d, word)
}

/// Whether `cand` is one of the lemmas of the dictionary.
pub fn dict_has_value(d: &LemmaDict, cand: &Vec<char>) -> (r: bool)
    ensures
        r == spec_contains_value(d@, cand@),
{
    let mut i: usize = 0;
    while i < d.entries.len()
        invariant
            i <= d.entries@.len(),
            forall|k: int| 0 <= k < i ==> d@[k].1 != cand@,
        decreases d.entries@.len() - i,
    {
        proof {
            assert(d@[i as int] == (d.entries@[i as int].0@, d.entries@[i as int].1@));
        }
        let vcs = chars_vec(d.entries[i].1.as_str());
        if chars_eq(&vcs, &cand) {
            return true;
        }
        i = i + 1;
    }
    false
}

} // verus!
