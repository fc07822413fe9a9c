use durak::fast_normalize;

#[test]
fn test_normalize_basic() {
    assert_eq!(fast_normalize("MERHABA"), "merhaba");
}

#[test]
fn test_normalize_turkish_i() {
    assert_eq!(fast_normalize("İSTANBUL"), "istanbul");
}

#[test]
fn test_normalize_turkish_dotless_i() {
    assert_eq!(fast_normalize("IŞIK"), "ışık");
}

#[test]
fn test_normalize_mixed_turkish_chars() {
    let result = fast_normalize("İzmir'de IĞDIR'a GİDİYORUM");
    assert!(result.contains("izmir"));
    assert!(result.contains("ığdır"));
    assert!(result.contains("gidiyorum"));
}

#[test]
fn test_normalize_turkish_uppercase_word() {
    assert_eq!(fast_normalize("TÜRKÇE"), "türkçe");
}

#[test]
fn test_normalize_idempotent_on_sample() {
    for text in ["İSTANBUL", "IŞIK", "Merhaba Dünya! 2023", "ÇĞİÖŞÜ çğıöşü", ""] {
        let once = fast_normalize(text);
        let twice = fast_normalize(&once);
        assert_eq!(twice, once, "normalizing '{}' twice changed it", text);
    }
}

#[test]
fn test_normalize_keeps_punctuation_and_digits() {
    assert_eq!(fast_normalize("A1, B2; C3!"), "a1, b2; c3!");
}

#[test]
fn test_normalize_unicode_fallback() {
    // Characters outside ASCII and the Turkish letters go through standard
    // Unicode lowercasing.
    assert_eq!(fast_normalize("ÉCOLE"), "école");
    assert_eq!(fast_normalize("ÆØÅ"), "æøå");
}
