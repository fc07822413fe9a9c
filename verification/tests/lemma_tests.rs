use durak::{get_lemma_dict, lookup_lemma};

#[test]
fn test_lemma_dict_loading() {
    let dict = get_lemma_dict();

    assert!(!dict.entries.is_empty(), "Lemma dictionary should not be empty");

    assert!(
        dict.entries.len() > 100,
        "Dictionary should contain more than 100 entries, got {}",
        dict.entries.len()
    );

    println!("✓ Loaded {} lemma entries", dict.entries.len());
}

#[test]
fn test_lookup_lemma_high_frequency_nouns() {
    let test_cases = vec![
        ("kitaplar", Some("kitap")),
        ("evler", Some("ev")),
        ("insanlar", Some("insan")),
        ("arabalar", Some("araba")),
        ("çocuklar", Some("çocuk")),
        ("adamlar", Some("adam")),
        ("şehirler", Some("şehir")),
    ];

    for (inflected, expected) in test_cases {
        let result = lookup_lemma(inflected);
        let expected_str = expected.map(|s| s.to_string());
        assert_eq!(
            result, expected_str,
            "Failed: {} -> {:?} (expected: {:?})",
            inflected, result, expected_str
        );
    }
}

#[test]
fn test_lookup_lemma_high_frequency_verbs() {
    let test_cases = vec![
        ("geliyorum", Some("gel")),
        ("gittim", Some("git")),
        ("yapıyorum", Some("yap")),
        ("söyledi", Some("söyle")),
    ];

    for (inflected, expected) in test_cases {
        let result = lookup_lemma(inflected);
        let expected_str = expected.map(|s| s.to_string());
        assert_eq!(
            result, expected_str,
            "Failed: {} -> {:?} (expected: {:?})",
            inflected, result, expected_str
        );
    }
}

#[test]
fn test_lookup_lemma_oov_words() {
    let oov_words = vec!["bilgisayar", "internet", "xyz123", "nonexistent"];

    for word in oov_words {
        let result = lookup_lemma(word);
        assert_eq!(
            result, None,
            "OOV word '{}' should return None, got: {:?}",
            word, result
        );
    }
}

#[test]
fn test_lemma_dict_format_validation() {
    let dict = get_lemma_dict();

    for (inflected, lemma) in dict.entries.iter().take(10) {
        assert!(!inflected.is_empty(), "Inflected form should not be empty");
        assert!(!lemma.is_empty(), "Lemma should not be empty");
        assert!(!inflected.contains('\t'), "Inflected form should not contain tabs");
        assert!(!lemma.contains('\t'), "Lemma should not contain tabs");
    }
}

#[test]
fn test_lookup_lemma_is_case_sensitive() {
    // Lookup is exact: callers normalize before looking up if they want
    // case-insensitive behavior.
    assert_eq!(lookup_lemma("kitaplar"), Some("kitap".to_string()));
    assert_eq!(lookup_lemma("Kitaplar"), None);
    assert_eq!(lookup_lemma("KİTAPLAR"), None);
}
