use durak::{
    get_detached_suffixes, get_stopwords_base, get_stopwords_metadata, get_stopwords_social_media,
};

#[test]
fn test_detached_suffixes_list() {
    let suffixes = get_detached_suffixes();
    assert!(!suffixes.is_empty());
    assert!(suffixes.iter().any(|s| s == "mi"));
    assert!(suffixes.iter().any(|s| s == "ki"));
    for s in &suffixes {
        assert!(!s.is_empty());
        assert!(!s.starts_with('#'));
    }
}

#[test]
fn test_stopwords_base_list() {
    let stopwords = get_stopwords_base();
    assert!(stopwords.len() >= 40);
    assert!(stopwords.iter().any(|s| s == "ve"));
    assert!(stopwords.iter().any(|s| s == "bir"));
    assert!(stopwords.iter().any(|s| s == "için"));
    for s in &stopwords {
        assert!(!s.is_empty());
        assert!(!s.starts_with('#'));
    }
}

#[test]
fn test_stopwords_social_media_list() {
    let stopwords = get_stopwords_social_media();
    assert!(!stopwords.is_empty());
    assert!(stopwords.iter().any(|s| s == "rt"));
    for s in &stopwords {
        assert!(!s.is_empty());
        assert!(!s.starts_with('#'));
    }
}

#[test]
fn test_stopwords_metadata_is_json() {
    let meta = get_stopwords_metadata();
    let parsed: serde_json::Value =
        serde_json::from_str(&meta).expect("metadata should be valid JSON");
    assert_eq!(parsed.get("language").and_then(|v| v.as_str()), Some("tr"));
}
