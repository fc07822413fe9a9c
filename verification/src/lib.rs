//! Rule-based Turkish morphological text processing: tokenization,
//! Turkish-aware case folding, tiered suffix-stripping lemmatization with
//! phonological and morphotactic validation, and syllabification.

pub mod chars;
pub mod harmony;
pub mod lemma;
pub mod morphotactics;
pub mod normalize;
pub mod resources;
pub mod root_validator;
pub mod stripper;
pub mod syllable;
pub mod tokenizer;

pub use harmony::{check_vowel_harmony, classify_vowel, get_last_vowel_class, is_valid_suffix,
    VowelClass};
pub use lemma::{get_lemma_dict, lookup_lemma, LemmaDict};
pub use morphotactics::{MorphotacticClassifier, SuffixCategory};
pub use normalize::fast_normalize;
pub use resources::{
    get_detached_suffixes, get_stopwords_base, get_stopwords_metadata, get_stopwords_social_media,
};
pub use root_validator::RootValidator;
pub use stripper::{strip_suffixes, strip_suffixes_validated};
pub use syllable::{syllabify, syllabify_with_separator, syllable_count};
pub use tokenizer::{tokenize, tokenize_with_normalized_offsets, tokenize_with_offsets};
