use wax_core::error::WaxError;
use wax_core::loader::{
    weight_map_shard_paths,
    resolve_gguf_file, resolve_model_source, resolve_safetensors_files, validate_architectures,
    DirEntry, ModelFiles, ModelSource,
};

const DIR: &str = "/models/tiny";

fn under(name: &str) -> String {
    format!("{DIR}/{name}")
}

/// A model folder holding the given regular files.
fn folder(names: &[&str], config: Option<&str>, index: Option<&str>) -> ModelFiles {
    ModelFiles {
        path: DIR.to_string(),
        is_file: false,
        is_dir: true,
        regular_files: names.iter().map(|name| under(name)).collect(),
        entries: Ok(names
            .iter()
            .map(|name| DirEntry {
                name: name.to_string(),
                utf8: true,
            })
            .collect()),
        config_text: config.map(|c| c.to_string()),
        index_bytes: match index {
            Some(text) => Ok(text.as_bytes().to_vec()),
            None => Err("No such file or directory (os error 2)".to_string()),
        },
    }
}

#[test]
fn resolves_single_safetensors_file() {
    let files = resolve_safetensors_files(&folder(&["model.safetensors"], None, None)).unwrap();

    assert_eq!(files, vec![under("model.safetensors")]);
}

#[test]
fn resolves_single_gguf_file() {
    let source = resolve_model_source(&folder(&["tiny.gguf"], None, None)).unwrap();

    assert!(matches!(source, ModelSource::Gguf { file } if file == under("tiny.gguf")));
}

#[test]
fn resolves_direct_gguf_file_path() {
    let file = under("tiny.gguf");
    let files = ModelFiles {
        path: file.clone(),
        is_file: true,
        is_dir: false,
        regular_files: vec![file.clone()],
        entries: Err("Not a directory (os error 20)".to_string()),
        config_text: None,
        index_bytes: Err("Not a directory (os error 20)".to_string()),
    };

    let source = resolve_model_source(&files).unwrap();

    assert!(matches!(source, ModelSource::Gguf { file: f } if f == file));
}

#[test]
fn rejects_ambiguous_gguf_files() {
    let err = resolve_model_source(&folder(&["a.gguf", "b.gguf"], None, None)).unwrap_err();

    assert!(err.message().contains("multiple .gguf"));
}

#[test]
fn prefers_model_gguf_over_other_gguf_files() {
    let file = resolve_gguf_file(&folder(&["a.gguf", "model.gguf", "b.gguf"], None, None)).unwrap();

    assert_eq!(file, Some(under("model.gguf")));
}

#[test]
fn unreadable_folder_reports_io_error() {
    let mut files = folder(&[], None, None);
    files.entries = Err("Permission denied (os error 13)".to_string());

    let err = resolve_model_source(&files).unwrap_err();

    assert!(matches!(err, WaxError::Io(ref m) if m == "Permission denied (os error 13)"));
    assert_eq!(err.message(), "I/O error: Permission denied (os error 13)");
}

#[test]
fn detects_mlx_model_folder_before_safetensors() {
    let files = folder(
        &["config.json", "model.safetensors.index.json"],
        Some(r#"{"model_type":"mlx"}"#),
        Some("{}"),
    );

    let source = resolve_model_source(&files).unwrap();

    assert!(matches!(source, ModelSource::Mlx { path } if path == DIR));
}

#[test]
fn detects_mlx_weight_npz_folder() {
    let source = resolve_model_source(&folder(&["weights.npz"], None, None)).unwrap();

    assert!(matches!(source, ModelSource::Mlx { path } if path == DIR));
}

#[test]
fn detects_mlx_safetensors_weight_shards() {
    let source = resolve_model_source(&folder(&["weights.00.safetensors"], None, None)).unwrap();

    assert!(matches!(source, ModelSource::Mlx { path } if path == DIR));
}

#[test]
fn non_utf8_shard_names_are_not_mlx() {
    let mut files = folder(&[], None, None);
    files.entries = Ok(vec![DirEntry {
        name: "weights.\u{fffd}.npz".to_string(),
        utf8: false,
    }]);

    let err = resolve_model_source(&files).unwrap_err();

    assert!(matches!(err, WaxError::InvalidModelFolder { .. }));
}

#[test]
fn resolves_indexed_safetensors_files_in_stable_order() {
    let files = folder(
        &["a.safetensors", "b.safetensors", "model.safetensors.index.json"],
        None,
        Some(r#"{"weight_map":{"z":"b.safetensors","a":"a.safetensors","b":"b.safetensors"}}"#),
    );

    let files = resolve_safetensors_files(&files).unwrap();

    assert_eq!(files, vec![under("a.safetensors"), under("b.safetensors")]);
}

#[test]
fn indexed_safetensors_reports_missing_shard() {
    let files = folder(
        &["model.safetensors.index.json"],
        None,
        Some(r#"{"weight_map":{"model.embed_tokens.weight":"missing.safetensors"}}"#),
    );

    let err = resolve_safetensors_files(&files).unwrap_err();

    assert!(matches!(err, WaxError::MissingModelFile(path) if path.ends_with("missing.safetensors")));
}

#[test]
fn indexed_safetensors_requires_weight_map_object() {
    let files = folder(&["model.safetensors.index.json"], None, Some(r#"{"metadata":{}}"#));

    let err = resolve_safetensors_files(&files).unwrap_err();

    assert!(err.message().contains("weight_map"));
}

#[test]
fn indexed_safetensors_rejects_non_string_values() {
    let files = folder(
        &["model.safetensors.index.json"],
        None,
        Some(r#"{"weight_map":{"a":"a.safetensors","b":3}}"#),
    );

    let err = resolve_safetensors_files(&files).unwrap_err();

    assert!(matches!(err, WaxError::InvalidModelFolder { ref reason, .. } if reason == "weight_map values must be safetensors filenames"));
}

#[test]
fn indexed_safetensors_reports_invalid_json() {
    let files = folder(&["model.safetensors.index.json"], None, Some("{not json"));

    let err = resolve_safetensors_files(&files).unwrap_err();

    assert!(matches!(err, WaxError::Json(_)));
    assert!(err.message().starts_with("JSON error: "));
}

#[test]
fn folder_without_weights_is_rejected() {
    let err = resolve_model_source(&folder(&["config.json"], None, None)).unwrap_err();

    assert_eq!(
        err.message(),
        "invalid model folder /models/tiny: expected model.safetensors or model.safetensors.index.json"
    );
}

#[test]
fn accepts_llama_architecture() {
    assert!(validate_architectures(&["LlamaForCausalLM".to_string()]).is_ok());
    assert!(validate_architectures(&["MistralForCausalLM".to_string()]).is_ok());
    assert!(validate_architectures(&["MyTinyLlamaModel".to_string()]).is_ok());
}

#[test]
fn accepts_missing_architecture_for_hf_compatible_llama_configs() {
    assert!(validate_architectures(&[]).is_ok());
}

#[test]
fn rejects_unsupported_architecture() {
    let err = validate_architectures(&["Qwen2ForCausalLM".to_string()]).unwrap_err();

    assert!(matches!(err, WaxError::UnsupportedArchitecture { .. }));
    assert!(err.message().contains("Qwen2ForCausalLM"));
}

#[test]
fn unsupported_architectures_are_listed_together() {
    let err = validate_architectures(&["Qwen2ForCausalLM".to_string(), "GPT2".to_string()])
        .unwrap_err();

    assert_eq!(
        err.message(),
        "unsupported architecture: Qwen2ForCausalLM, GPT2. This engine currently supports only Llama-like causal LM models."
    );
}

#[test]
fn weight_map_values_become_sorted_unique_paths() {
    let files = folder(&[], None, None);
    let values = vec![
        Some("b.safetensors".to_string()),
        Some("a.safetensors".to_string()),
        Some("b.safetensors".to_string()),
    ];

    let paths = weight_map_shard_paths(&files, "idx", Some(values)).unwrap();

    assert_eq!(paths, vec![under("a.safetensors"), under("b.safetensors")]);
}

#[test]
fn weight_map_must_exist_and_hold_strings() {
    let files = folder(&[], None, None);

    let missing = weight_map_shard_paths(&files, "idx", None).unwrap_err();
    assert!(matches!(missing, WaxError::InvalidModelFolder { reason, .. } if reason == "idx does not contain a weight_map object"));

    let bad = weight_map_shard_paths(&files, "idx", Some(vec![Some("a.safetensors".to_string()), None])).unwrap_err();
    assert!(matches!(bad, WaxError::InvalidModelFolder { reason, .. } if reason == "weight_map values must be safetensors filenames"));
}
