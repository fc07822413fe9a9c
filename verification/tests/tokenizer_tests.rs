use durak::{tokenize, tokenize_with_normalized_offsets, tokenize_with_offsets};

#[test]
fn test_tokenize_simple() {
    let tokens = tokenize("Merhaba dünya!");
    assert!(tokens.iter().any(|t| t == "Merhaba"));
    assert!(tokens.iter().any(|t| t == "dünya"));
}

#[test]
fn test_tokenize_turkish_apostrophe() {
    let tokens = tokenize("İstanbul'a gittik.");
    assert!(tokens.iter().any(|t| t == "İstanbul'a"));
    assert!(tokens.iter().any(|t| t == "gittik"));
}

#[test]
fn test_apostrophe_token_sequence() {
    assert_eq!(tokenize("İstanbul'a gittik."), vec!["İstanbul'a", "gittik", "."]);
}

#[test]
fn test_tokenize_with_offsets() {
    let tokens = tokenize_with_offsets("Merhaba dünya");
    assert_eq!(tokens[0], ("Merhaba".to_string(), 0, 7));
    assert_eq!(tokens[1], ("dünya".to_string(), 8, 13));
}

#[test]
fn test_tokenize_empty_input() {
    assert!(tokenize("").is_empty());
    assert!(tokenize("   \t\n").is_empty());
}

#[test]
fn test_tokenize_complex_sentence() {
    let tokens = tokenize("Ankara'da 2023 yılında çok güzel bir konferans vardı.");
    assert!(tokens.iter().any(|t| t == "Ankara'da"));
    assert!(tokens.iter().any(|t| t == "2023"));
    assert!(tokens.iter().any(|t| t == "konferans"));
}

#[test]
fn test_tokenize_url_preservation() {
    let tokens = tokenize("Check https://example.com for more info");
    assert!(tokens.iter().any(|t| t == "https://example.com"));
}

#[test]
fn test_tokenize_emoticon_preservation() {
    let tokens = tokenize("Merhaba :) nasılsın?");
    assert!(tokens.iter().any(|t| t == ":)"));
}

#[test]
fn test_url_and_emoticon_are_single_tokens() {
    assert_eq!(
        tokenize("Check https://example.com :)"),
        vec!["Check", "https://example.com", ":)"]
    );
}

#[test]
fn test_tokenize_deterministic() {
    let text = "Ankara'da 2023 yılında :) https://example.com vardı.";
    assert_eq!(tokenize_with_offsets(text), tokenize_with_offsets(text));
    assert_eq!(tokenize(text), tokenize(text));
}

#[test]
fn test_offsets_slice_original_text() {
    // Offsets are character positions: slicing the input by characters
    // reproduces each token exactly, also after multi-byte characters.
    let text = "İstanbul'a gittik. 12,5 :)";
    let chars: Vec<char> = text.chars().collect();
    let tokens = tokenize_with_offsets(text);
    assert!(!tokens.is_empty());
    for (tok, start, end) in tokens {
        assert!(start < end && end <= chars.len());
        let slice: String = chars[start..end].iter().collect();
        assert_eq!(slice, tok);
    }
}

#[test]
fn test_offsets_exact_turkish() {
    assert_eq!(
        tokenize_with_offsets("İstanbul'a gittik."),
        vec![
            ("İstanbul'a".to_string(), 0, 10),
            ("gittik".to_string(), 11, 17),
            (".".to_string(), 17, 18),
        ]
    );
}

#[test]
fn test_tokenize_numbers() {
    assert_eq!(tokenize("12,5 3.14 10-20 2023"), vec!["12,5", "3.14", "10-20", "2023"]);
    // A trailing separator is not part of the number.
    assert_eq!(tokenize("12."), vec!["12", "."]);
}

#[test]
fn test_tokenize_hyphenated_words_split() {
    // A letter run is taken first, so hyphenated compounds split at the
    // hyphen, which becomes a punctuation token.
    assert_eq!(tokenize("kırmızı-beyaz"), vec!["kırmızı", "-", "beyaz"]);
}

#[test]
fn test_tokenize_emoticon_forms() {
    assert_eq!(tokenize(";-D =) 8-["), vec![";-D", "=)", "8-["]);
    // A lone colon is punctuation, not an emoticon.
    assert_eq!(tokenize("saat: 5"), vec!["saat", ":", "5"]);
}

#[test]
fn test_tokenize_incomplete_url_falls_back() {
    // Without anything after the scheme there is no URL token: the letters
    // are a word, ":/" is read as an emoticon and the rest is punctuation.
    assert_eq!(tokenize("http://"), vec!["http", ":/", "/"]);
    assert_eq!(tokenize("www."), vec!["www", "."]);
}

#[test]
fn test_tokenize_skips_foreign_word_characters() {
    // An alphanumeric character outside the Turkish letter and digit classes
    // is skipped: it is word-like, so it is not punctuation either.
    assert_eq!(tokenize("ev π kitap"), vec!["ev", "kitap"]);
    assert_eq!(tokenize("a_b"), vec!["a", "b"]);
}

#[test]
fn test_tokenize_with_normalized_offsets_folds_tokens() {
    let tokens = tokenize_with_normalized_offsets("İstanbul'a GİTTİK.");
    assert_eq!(
        tokens,
        vec![
            ("istanbul'a".to_string(), 0, 10),
            ("gittik".to_string(), 11, 17),
            (".".to_string(), 17, 18),
        ]
    );
}
