use wax_core::device::{DTypeChoice, DeviceChoice};
use wax_core::engine::{
    merge_eos_token_ids, model_display_name, validate_generate_request, validate_model_path,
    EngineConfig, EosTokens,
};
use wax_core::error::WaxError;
use wax_core::loader::ModelFiles;
use wax_core::stopping::{apply_stop_sequences, streamable_len};

fn model_path(path: &str, is_file: bool, is_dir: bool) -> ModelFiles {
    ModelFiles {
        path: path.to_string(),
        is_file,
        is_dir,
        regular_files: Vec::new(),
        entries: Ok(Vec::new()),
        config_text: None,
        index_bytes: Err("not read".to_string()),
    }
}

#[test]
fn request_validation_rejects_empty_prompt() {
    let err = validate_generate_request("", 1, &[]).unwrap_err();

    assert!(err.message().contains("prompt"));
}

#[test]
fn request_validation_rejects_zero_max_new_tokens() {
    let err = validate_generate_request("hello", 0, &[]).unwrap_err();

    assert_eq!(err.message(), "invalid generation request: max-new-tokens must be > 0");
}

#[test]
fn request_validation_rejects_empty_stop_string() {
    let err = validate_generate_request("hello", 4, &["</s>".to_string(), String::new()])
        .unwrap_err();

    assert!(matches!(err, WaxError::InvalidRequest(ref m) if m == "stop strings must not be empty"));
}

#[test]
fn request_validation_accepts_plain_request() {
    assert!(validate_generate_request("hello", 64, &["<stop>".to_string()]).is_ok());
}

#[test]
fn directory_model_name_preserves_version_suffix() {
    assert_eq!(
        model_display_name("/tmp/TinyLlama-1.1B-Chat-v1.0", false),
        "TinyLlama-1.1B-Chat-v1.0"
    );
}

#[test]
fn gguf_file_model_name_removes_extension() {
    assert_eq!(model_display_name("/tmp/models/model-q8_0.gguf", true), "model-q8_0");
}

#[test]
fn model_name_falls_back_to_local() {
    assert_eq!(model_display_name("/", false), "local");
}

#[test]
fn stop_sequence_truncates_at_earliest_match() {
    let (text, stopped) = apply_stop_sequences(
        "hello <stop> ignored",
        &["ignored".to_string(), "<stop>".to_string()],
    );

    assert!(stopped);
    assert_eq!(text, "hello ");
}

#[test]
fn stop_sequence_absent_keeps_text() {
    let (text, stopped) = apply_stop_sequences("hello world", &["<stop>".to_string()]);

    assert!(!stopped);
    assert_eq!(text, "hello world");
}

#[test]
fn stop_sequence_cut_text_is_stop_free() {
    let stops = ["lo".to_string(), "wor".to_string()];
    let (text, stopped) = apply_stop_sequences("hello world", &stops);
    assert!(stopped);
    assert_eq!(text, "hel");
    let (again, stopped_again) = apply_stop_sequences(&text, &stops);
    assert!(!stopped_again);
    assert_eq!(again, text);
}

#[test]
fn stop_sequence_cut_respects_multibyte_text() {
    let (text, stopped) = apply_stop_sequences("héllo→stop", &["→".to_string()]);

    assert!(stopped);
    assert_eq!(text, "héllo");
}

#[test]
fn streamable_len_holds_possible_stop_prefix() {
    assert_eq!(streamable_len("hello <st", &["<stop>".to_string()]), 6);
    assert_eq!(streamable_len("hello <", &["<stop>".to_string()]), 6);
    assert_eq!(
        streamable_len("hello world", &["<stop>".to_string()]),
        "hello world".len()
    );
}

#[test]
fn streamable_len_holds_longest_prefix_over_all_stops() {
    let stops = ["ab".to_string(), "xabc".to_string()];
    assert_eq!(streamable_len("zzxab", &stops), 2);
    assert_eq!(streamable_len("zza", &stops), 2);
}

#[test]
fn streamable_len_never_splits_a_character() {
    let stops = ["é!".to_string()];
    let text = "café";
    let n = streamable_len(text, &stops);
    assert_eq!(n, text.len() - "é".len());
    assert!(text.is_char_boundary(n));
}

#[test]
fn engine_config_defaults_to_auto() {
    let config = EngineConfig::new("./models/tiny");

    assert_eq!(config.model_dir, "./models/tiny");
    assert_eq!(config.device, DeviceChoice::Auto);
    assert_eq!(config.dtype, DTypeChoice::Auto);
}

#[test]
fn model_path_must_exist() {
    let err = validate_model_path(&model_path("/nowhere", false, false)).unwrap_err();

    assert_eq!(
        err.message(),
        "invalid model folder /nowhere: path is not a directory or .gguf file"
    );
}

#[test]
fn model_file_must_be_gguf() {
    let err = validate_model_path(&model_path("/models/weights.bin", true, false)).unwrap_err();

    assert!(matches!(err, WaxError::InvalidModelFolder { ref reason, .. } if reason == "file model paths must have a .gguf extension"));
    assert!(validate_model_path(&model_path("/models/tiny.gguf", true, false)).is_ok());
    assert!(validate_model_path(&model_path("/models/tiny", false, true)).is_ok());
}

#[test]
fn eos_ids_merge_config_and_special_tokens() {
    let ids = merge_eos_token_ids(
        Some(&EosTokens::Multiple(vec![2, 7])),
        &[Some(7), None, Some(9)],
    );
    assert_eq!(ids, vec![2, 7, 9]);

    let ids = merge_eos_token_ids(Some(&EosTokens::Single(1)), &[Some(3), Some(3)]);
    assert_eq!(ids, vec![1, 3]);

    let ids = merge_eos_token_ids(None, &[None, None, None]);
    assert!(ids.is_empty());
}

#[test]
fn appending_text_never_shrinks_the_streamable_length() {
    let stops = vec!["<stop>".to_string()];
    let mut text = String::new();
    let mut last = 0;
    for piece in ["hello", " <", "st", "ill", " here"] {
        text.push_str(piece);
        let now = streamable_len(&text, &stops);
        assert!(now >= last);
        last = now;
    }
    assert_eq!(last, text.len());
}
