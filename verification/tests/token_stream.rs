use ahash::AHashMap;
use tokenizers::models::wordlevel::WordLevel;
use tokenizers::Tokenizer;

use wax_core::error::WaxError;
use wax_core::token_stream::{released_text, TokenOutputStream};

fn tokenizer() -> Tokenizer {
    let vocab = AHashMap::from([
        ("Hello".to_string(), 0),
        ("world".to_string(), 1),
        ("!".to_string(), 2),
        ("[UNK]".to_string(), 3),
    ]);
    let model = WordLevel::builder()
        .vocab(vocab)
        .unk_token("[UNK]".to_string())
        .build()
        .unwrap();
    Tokenizer::new(model)
}

#[test]
fn streams_alphanumeric_tokens_and_flushes_punctuation_at_end() {
    let mut stream = TokenOutputStream::new(tokenizer());

    assert_eq!(stream.next_token(0).unwrap(), Some("Hello".to_string()));
    assert_eq!(stream.next_token(1).unwrap(), Some(" world".to_string()));
    assert_eq!(stream.next_token(2).unwrap(), None);
    assert_eq!(stream.decode_rest().unwrap(), Some(" !".to_string()));
}

#[test]
fn empty_stream_has_nothing_to_flush() {
    let stream = TokenOutputStream::new(tokenizer());

    assert_eq!(stream.decode_rest().unwrap(), None);
}

#[test]
fn released_text_is_the_grown_suffix() {
    assert_eq!(
        released_text("Hello", "Hello world", true).unwrap(),
        Some(" world".to_string())
    );
    assert_eq!(released_text("world", "world !", true).unwrap(), None);
    assert_eq!(
        released_text("world", "world !", false).unwrap(),
        Some(" !".to_string())
    );
    assert_eq!(released_text("same", "same", false).unwrap(), None);
    assert_eq!(released_text("longer", "long", false).unwrap(), None);
}

#[test]
fn released_text_accepts_non_ascii_letters() {
    assert_eq!(
        released_text("caf", "café", true).unwrap(),
        Some("é".to_string())
    );
}

#[test]
fn released_text_refuses_a_split_character() {
    let err = released_text("é", "aé", false).unwrap_err();

    assert!(matches!(err, WaxError::Tokenizer(_)));
}
