use durak::root_validator::RootValidator;
use durak::{lookup_lemma, strip_suffixes, strip_suffixes_validated};

#[test]
fn test_strip_suffixes_vowel_harmony() {
    // Valid harmony cases - should strip
    assert_eq!(strip_suffixes("kitaplar"), "kitap");
    assert_eq!(strip_suffixes("evler"), "ev");
    assert_eq!(strip_suffixes("masadan"), "masa");
    assert_eq!(strip_suffixes("şehirden"), "şehir");

    // Invalid harmony cases - should NOT strip
    assert_eq!(strip_suffixes("kitapler"), "kitapler");
    assert_eq!(strip_suffixes("evlar"), "evlar");

    // Multiple suffix stripping with harmony
    assert_eq!(strip_suffixes("kitaplardan"), "kitap");

    // Edge cases
    assert_eq!(strip_suffixes("ev"), "ev");
    assert_eq!(strip_suffixes("a"), "a");
}

#[test]
fn test_strip_suffixes_basic() {
    let test_cases = vec![
        ("kitaplar", "kitap"),
        ("evler", "ev"),
        ("insanlar", "insan"),
    ];

    for (word, expected_contains) in test_cases {
        let result = strip_suffixes(word);
        assert!(
            result.contains(expected_contains),
            "strip_suffixes({}) = '{}' should contain '{}'",
            word,
            result,
            expected_contains
        );
    }
}

#[test]
fn test_strip_suffixes_validated_lenient() {
    let test_cases = vec![
        ("kitaplar", "kitap"),
        ("evlerden", "ev"),
        ("insanların", "insan"),
    ];

    for (word, expected) in test_cases {
        let result = strip_suffixes_validated(word, false, 2, true);
        assert_eq!(
            result, expected,
            "strip_suffixes_validated({}, lenient) should be '{}'",
            word, expected
        );
    }
}

#[test]
fn test_strip_suffixes_validated_strict() {
    let test_cases = vec![
        ("kitaplar", "kitap"),
        ("evler", "ev"),
        ("geliyorum", "gel"),
        ("gittim", "git"),
    ];

    for (word, expected) in test_cases {
        let result = strip_suffixes_validated(word, true, 2, true);
        assert_eq!(
            result, expected,
            "strip_suffixes_validated({}, strict) should be '{}'",
            word, expected
        );
    }
}

#[test]
fn test_validated_prevents_overstripping() {
    let word = "kitaplardan";
    let validated_result = strip_suffixes_validated(word, true, 2, true);

    assert!(validated_result.len() >= 2, "Validated result should respect min length");
    assert_eq!(validated_result, "kitap", "Should stop at known root 'kitap', not overstrip");
}

#[test]
fn test_validated_min_length() {
    let validator_strict = RootValidator::new(3, false);

    assert!(!validator_strict.is_valid_root("ev"));

    assert!(validator_strict.is_valid_root("kitap"));
}

#[test]
fn test_morphotactic_validation() {
    // Valid sequences should strip down toward the root
    let valid_cases = vec![
        ("kitaplarımda", "kitap"),
        ("evlerimizden", "ev"),
    ];

    for (word, expected_root) in valid_cases {
        let result = strip_suffixes_validated(word, false, 2, true);
        assert!(
            result.contains(expected_root),
            "Valid sequence: {} should lemmatize to contain '{}', got '{}'",
            word,
            expected_root,
            result
        );
    }
}

#[test]
fn test_validated_vs_naive_comparison() {
    let test_words = vec!["kitaplardan", "evlerden", "insanların"];

    for word in test_words {
        let naive = strip_suffixes(word);
        let validated = strip_suffixes_validated(word, true, 2, true);

        println!("Word: {} | Naive: {} | Validated: {}", word, naive, validated);

        assert!(
            validated.len() >= 2,
            "Validated root '{}' should meet minimum length",
            validated
        );
    }
}

#[test]
fn test_vowel_harmony_integration() {
    let valid_cases = vec![
        ("kitaplar", "kitap"),
        ("evler", "ev"),
        ("masalar", "masa"),
        ("şehirler", "şehir"),
    ];

    for (word, expected) in valid_cases {
        let result = strip_suffixes_validated(word, false, 2, true);
        assert_eq!(result, expected, "Vowel harmony should allow {} -> {}", word, expected);
    }
}

#[test]
fn test_harmony_flag_control() {
    let word = "kitaplar";

    let with_harmony = strip_suffixes_validated(word, false, 2, true);

    let without_harmony = strip_suffixes_validated(word, false, 2, false);

    assert_eq!(with_harmony, "kitap");
    assert_eq!(without_harmony, "kitap");

    println!("Harmony check can be toggled: with={}, without={}", with_harmony, without_harmony);
}

#[test]
fn test_vowel_harmony_prevents_overstripping() {
    let test_word = "kitaplardan";

    let with_harmony = strip_suffixes_validated(test_word, false, 2, true);

    assert!(with_harmony.len() >= 2);
    assert_eq!(with_harmony, "kitap");

    println!("Harmony validation: {} -> {}", test_word, with_harmony);
}

#[test]
fn test_dictionary_hit_round_trip() {
    // Whenever the dictionary resolves a word, strict stripping returns
    // exactly that lemma.
    for word in ["kitaplar", "gittim", "söyledi", "komşular", "düşünüyor"] {
        let lemma = lookup_lemma(word).expect("word should be in the dictionary");
        assert_eq!(strip_suffixes_validated(word, true, 2, true), lemma);
        assert_eq!(strip_suffixes_validated(word, true, 7, false), lemma);
    }
}

#[test]
fn test_min_root_length_blocks_short_stems() {
    // With a minimum root length of 6 the stem "kitap" is too short to
    // accept, so stripping stops at "kitaplar".
    let result = strip_suffixes_validated("kitaplardan", false, 6, true);
    assert_eq!(result, "kitaplar");
    assert!(result.chars().count() >= 6);
}

#[test]
fn test_strip_without_vowels_unchanged() {
    // A stem without a vowel cannot pass the harmony check, so nothing strips.
    assert_eq!(strip_suffixes_validated("krklar", false, 2, true), "krklar");
}

#[test]
fn test_strip_empty_and_short_words() {
    assert_eq!(strip_suffixes_validated("", false, 2, true), "");
    assert_eq!(strip_suffixes_validated("a", false, 2, true), "a");
    assert_eq!(strip_suffixes_validated("ı", false, 2, true), "ı");
}
