use durak::{syllabify, syllabify_with_separator, syllable_count};

#[test]
fn test_syllabify_basic_words() {
    assert_eq!(syllabify("kitap"), vec!["ki", "tap"]);
    assert_eq!(syllabify("merhaba"), vec!["mer", "ha", "ba"]);
}

#[test]
fn test_syllable_count() {
    assert_eq!(syllable_count("merhaba"), 3);
    assert_eq!(syllable_count("kitap"), 2);
    assert_eq!(syllable_count("ev"), 1);
}

#[test]
fn test_syllabify_vowel_patterns() {
    // Two vowels in a row break between them.
    assert_eq!(syllabify("saat"), vec!["sa", "at"]);
    // One consonant between vowels joins the following syllable.
    assert_eq!(syllabify("araba"), vec!["a", "ra", "ba"]);
    // Two consonants between vowels split after the first.
    assert_eq!(syllabify("merhaba"), vec!["mer", "ha", "ba"]);
    // Three consonants also keep only the first with the closing syllable.
    assert_eq!(syllabify("türkçe"), vec!["tür", "kçe"]);
}

#[test]
fn test_syllabify_edge_cases() {
    assert!(syllabify("").is_empty());
    assert_eq!(syllabify("a"), vec!["a"]);
    assert_eq!(syllabify("k"), vec!["k"]);
    // A word without vowels stays one syllable.
    assert_eq!(syllabify("krk"), vec!["krk"]);
}

#[test]
fn test_syllables_concatenate_to_word() {
    for word in ["kitap", "merhaba", "araba", "istanbul", "çekoslovakya"] {
        let joined: String = syllabify(word).concat();
        assert_eq!(joined, word);
    }
}

#[test]
fn test_syllabify_with_separator() {
    assert_eq!(syllabify_with_separator("merhaba", "-"), "mer-ha-ba");
    assert_eq!(syllabify_with_separator("kitap", "."), "ki.tap");
    assert_eq!(syllabify_with_separator("ev", "-"), "ev");
    assert_eq!(syllabify_with_separator("", "-"), "");
}
