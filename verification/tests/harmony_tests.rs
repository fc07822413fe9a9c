use durak::check_vowel_harmony;
use durak::harmony::{classify_vowel, get_last_vowel_class, is_valid_suffix, VowelClass};

#[test]
fn test_classify_vowel() {
    // Front vowels
    assert_eq!(classify_vowel('e'), Some(VowelClass::Front));
    assert_eq!(classify_vowel('i'), Some(VowelClass::Front));
    assert_eq!(classify_vowel('ö'), Some(VowelClass::Front));
    assert_eq!(classify_vowel('ü'), Some(VowelClass::Front));

    // Back vowels
    assert_eq!(classify_vowel('a'), Some(VowelClass::Back));
    assert_eq!(classify_vowel('ı'), Some(VowelClass::Back));
    assert_eq!(classify_vowel('o'), Some(VowelClass::Back));
    assert_eq!(classify_vowel('u'), Some(VowelClass::Back));

    // Consonants
    assert_eq!(classify_vowel('k'), None);
    assert_eq!(classify_vowel('t'), None);
    assert_eq!(classify_vowel('p'), None);
}

#[test]
fn test_get_last_vowel_class() {
    // Words with back vowels
    assert_eq!(get_last_vowel_class("kitap"), Some(VowelClass::Back));
    assert_eq!(get_last_vowel_class("masa"), Some(VowelClass::Back));
    assert_eq!(get_last_vowel_class("adam"), Some(VowelClass::Back));

    // Words with front vowels
    assert_eq!(get_last_vowel_class("ev"), Some(VowelClass::Front));
    assert_eq!(get_last_vowel_class("şehir"), Some(VowelClass::Front));
    assert_eq!(get_last_vowel_class("gül"), Some(VowelClass::Front));

    // Words ending in consonants
    assert_eq!(get_last_vowel_class("kitaplar"), Some(VowelClass::Back));
    assert_eq!(get_last_vowel_class("evler"), Some(VowelClass::Front));

    // Edge cases
    assert_eq!(get_last_vowel_class("krk"), None);
    assert_eq!(get_last_vowel_class(""), None);
}

#[test]
fn test_is_valid_suffix() {
    // Valid combinations (harmony respected)
    assert!(is_valid_suffix("kitap", "lar"));
    assert!(is_valid_suffix("ev", "ler"));
    assert!(is_valid_suffix("masa", "dan"));
    assert!(is_valid_suffix("şehir", "den"));

    // Invalid combinations (harmony violated)
    assert!(!is_valid_suffix("kitap", "ler"));
    assert!(!is_valid_suffix("ev", "lar"));
    assert!(!is_valid_suffix("masa", "den"));
    assert!(!is_valid_suffix("şehir", "dan"));

    // Edge cases
    assert!(!is_valid_suffix("krk", "lar"));
    assert!(is_valid_suffix("masa", "n"));
}

#[test]
fn test_check_vowel_harmony_classes() {
    assert_eq!(check_vowel_harmony("kitap", "lar"), true);
    assert_eq!(check_vowel_harmony("kitap", "ler"), false);
    assert_eq!(check_vowel_harmony("ev", "ler"), true);
    assert_eq!(check_vowel_harmony("ev", "lar"), false);
}

#[test]
fn test_check_vowel_harmony_missing_vowels() {
    // A stem or suffix without a vowel cannot be verified, so the check fails.
    assert_eq!(check_vowel_harmony("krk", "lar"), false);
    assert_eq!(check_vowel_harmony("kitap", "n"), false);
    assert_eq!(check_vowel_harmony("", "lar"), false);
    assert_eq!(check_vowel_harmony("kitap", ""), false);
}
