use ahash::AHashMap;
use tokenizers::models::wordlevel::WordLevel;
use tokenizers::Tokenizer;

use wax_core::error::WaxError;
use wax_core::engine::{eos_token_ids, EosTokens};
use wax_core::generation::{checked_prompt_ids, encode_prompt, GenerationState};
use wax_core::stats::StopReason;

const HELLO: u32 = 0;
const WORLD: u32 = 1;
const BANG: u32 = 2;
const STOP: u32 = 4;
const LT: u32 = 5;

fn tokenizer() -> Tokenizer {
    let vocab = AHashMap::from([
        ("Hello".to_string(), HELLO),
        ("world".to_string(), WORLD),
        ("!".to_string(), BANG),
        ("[UNK]".to_string(), 3),
        ("<stop>".to_string(), STOP),
        ("<".to_string(), LT),
    ]);
    let model = WordLevel::builder()
        .vocab(vocab)
        .unk_token("[UNK]".to_string())
        .build()
        .unwrap();
    Tokenizer::new(model)
}

fn state(max_new_tokens: usize, stream: bool) -> GenerationState {
    GenerationState::new(
        max_new_tokens,
        vec!["<stop>".to_string()],
        vec![BANG],
        Vec::new(),
        stream,
    )
}

#[test]
fn streamed_pieces_add_up_to_the_text_cut_at_the_stop_sequence() {
    let tok = tokenizer();
    let mut gen = state(10, true);
    let mut streamed = String::new();

    for token in [HELLO, WORLD, STOP] {
        assert!(!gen.is_finished());
        if let Some(piece) = gen.accept_token(&tok, token).unwrap() {
            streamed.push_str(&piece);
        }
    }

    assert!(gen.is_finished());
    assert_eq!(gen.stop_reason(), StopReason::StopSequence);
    assert_eq!(gen.text(), "Hello world ");
    assert_eq!(gen.finish().unwrap(), None);
    assert_eq!(streamed, "Hello world ");
    assert!(!streamed.contains("<stop>"));
    assert_eq!(gen.generated_tokens(), 3);
}

#[test]
fn each_token_streams_its_own_piece() {
    let tok = tokenizer();
    let mut gen = state(10, true);

    assert_eq!(gen.accept_token(&tok, HELLO).unwrap(), Some("Hello".to_string()));
    assert_eq!(gen.accept_token(&tok, WORLD).unwrap(), Some(" world".to_string()));
}

#[test]
fn end_of_sequence_token_stops_without_text() {
    let tok = tokenizer();
    let mut gen = state(10, true);

    gen.accept_token(&tok, HELLO).unwrap();
    assert_eq!(gen.accept_token(&tok, BANG).unwrap(), None);

    assert!(gen.is_finished());
    assert_eq!(gen.stop_reason(), StopReason::Eos);
    assert_eq!(gen.generated_tokens(), 2);
    assert_eq!(gen.text(), "Hello");
    assert_eq!(gen.finish().unwrap(), None);
}

#[test]
fn request_end_of_sequence_ids_also_stop() {
    let tok = tokenizer();
    let mut gen = GenerationState::new(10, Vec::new(), Vec::new(), vec![WORLD], true);

    assert!(gen.is_eos(WORLD));
    assert!(!gen.is_eos(HELLO));
    gen.accept_token(&tok, HELLO).unwrap();
    assert_eq!(gen.accept_token(&tok, WORLD).unwrap(), None);
    assert_eq!(gen.stop_reason(), StopReason::Eos);
}

#[test]
fn generation_stops_at_max_new_tokens() {
    let tok = tokenizer();
    let mut gen = state(2, true);

    gen.accept_token(&tok, HELLO).unwrap();
    assert!(!gen.is_finished());
    gen.accept_token(&tok, WORLD).unwrap();

    assert!(gen.is_finished());
    assert_eq!(gen.stop_reason(), StopReason::MaxTokens);
    assert_eq!(gen.generated_tokens(), 2);
    assert_eq!(gen.text(), "Hello world");
}

#[test]
fn zero_max_new_tokens_is_finished_at_once() {
    let gen = state(0, true);

    assert!(gen.is_finished());
    assert_eq!(gen.generated_tokens(), 0);
}

#[test]
fn possible_stop_prefix_is_held_until_the_end() {
    let tok = tokenizer();
    let mut gen = state(10, true);

    assert_eq!(gen.accept_token(&tok, HELLO).unwrap(), Some("Hello".to_string()));
    assert_eq!(gen.accept_token(&tok, LT).unwrap(), Some(" ".to_string()));
    assert_eq!(gen.finish().unwrap(), Some("<".to_string()));
    assert_eq!(gen.text(), "Hello <");
}

#[test]
fn without_streaming_nothing_is_handed_out() {
    let tok = tokenizer();
    let mut gen = state(10, false);

    assert_eq!(gen.accept_token(&tok, HELLO).unwrap(), None);
    assert_eq!(gen.accept_token(&tok, WORLD).unwrap(), None);
    assert_eq!(gen.finish().unwrap(), None);
    assert_eq!(gen.text(), "Hello world");
}

#[test]
fn observed_text_is_cut_at_the_earliest_stop() {
    let mut gen = GenerationState::new(
        10,
        vec!["ignored".to_string(), "<stop>".to_string()],
        Vec::new(),
        Vec::new(),
        true,
    );

    assert_eq!(
        gen.observe_text("hello <stop> ignored").unwrap(),
        Some("hello ".to_string())
    );
    assert!(gen.is_finished());
    assert_eq!(gen.stop_reason(), StopReason::StopSequence);
    assert_eq!(gen.text(), "hello ");
}

#[test]
fn observed_text_that_rewrites_a_streamed_character_is_refused() {
    let mut gen = GenerationState::new(10, Vec::new(), Vec::new(), Vec::new(), true);

    assert_eq!(gen.observe_text("é").unwrap(), Some("é".to_string()));
    let err = gen.observe_text("aéb").unwrap_err();

    assert!(matches!(err, WaxError::InvalidRequest(msg) if msg == "invalid UTF-8 stream boundary"));
}

#[test]
fn prompt_is_encoded_by_the_tokenizer() {
    let tok = tokenizer();

    assert_eq!(encode_prompt(&tok, "Hello", true).unwrap(), vec![HELLO]);
}

#[test]
fn prompt_without_tokens_is_refused() {
    let tok = tokenizer();

    let err = encode_prompt(&tok, "", true).unwrap_err();

    assert!(matches!(err, WaxError::InvalidRequest(msg) if msg == "prompt produced no tokens"));
}

#[test]
fn checked_prompt_ids_keeps_ids_and_reports_errors() {
    assert_eq!(checked_prompt_ids(Ok(vec![5, 6])).unwrap(), vec![5, 6]);
    assert!(matches!(
        checked_prompt_ids(Ok(Vec::new())),
        Err(WaxError::InvalidRequest(msg)) if msg == "prompt produced no tokens"
    ));
    assert!(matches!(
        checked_prompt_ids(Err("bad input".to_string())),
        Err(WaxError::Tokenizer(msg)) if msg == "bad input"
    ));
}

#[test]
fn eos_ids_come_from_config_then_tokenizer() {
    let vocab = AHashMap::from([
        ("Hello".to_string(), 0),
        ("</s>".to_string(), 7),
        ("<|endoftext|>".to_string(), 2),
        ("[UNK]".to_string(), 3),
    ]);
    let model = WordLevel::builder()
        .vocab(vocab)
        .unk_token("[UNK]".to_string())
        .build()
        .unwrap();
    let tok = Tokenizer::new(model);

    assert_eq!(eos_token_ids(&tok, Some(&EosTokens::Single(2))), vec![2, 7]);
    assert_eq!(eos_token_ids(&tok, None), vec![7, 2]);
}

#[test]
fn accept_token_decodes_all_generated_ids() {
    let tok = tokenizer();
    let mut gen = GenerationState::new(10, vec!["Hello world".to_string()], Vec::new(), Vec::new(), true);

    assert_eq!(gen.accept_token(&tok, HELLO).unwrap(), None);
    assert_eq!(gen.accept_token(&tok, WORLD).unwrap(), None);
    assert_eq!(gen.stop_reason(), StopReason::StopSequence);
    assert_eq!(gen.text(), "");
}
