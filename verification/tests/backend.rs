use wax_core::backend::{
    model_config_path, plan_backend, plan_load, plan_load_on, tokenizer_json_path, BackendPlan,
    TokenizerSource,
};
use wax_core::device::{DTypeChoice, DTypeKind, DeviceChoice, DeviceKind};
use wax_core::error::WaxError;
use wax_core::loader::{DirEntry, ModelFiles, ModelSource};

const DIR: &str = "/models/tiny";

fn under(name: &str) -> String {
    format!("{DIR}/{name}")
}

/// A model folder holding the given regular files.
fn folder(names: &[&str]) -> ModelFiles {
    ModelFiles {
        path: DIR.to_string(),
        is_file: false,
        is_dir: true,
        regular_files: names.iter().map(|name| under(name)).collect(),
        entries: Ok(names
            .iter()
            .map(|name| DirEntry {
                name: name.to_string(),
                utf8: true,
            })
            .collect()),
        config_text: None,
        index_bytes: Err("No such file or directory (os error 2)".to_string()),
    }
}

/// A GGUF model file inside the folder, next to the given regular files.
fn gguf_file(names: &[&str]) -> ModelFiles {
    let file = under("tiny.gguf");
    let mut regular_files: Vec<String> = names.iter().map(|name| under(name)).collect();
    regular_files.push(file.clone());
    ModelFiles {
        path: file,
        is_file: true,
        is_dir: false,
        regular_files,
        entries: Err("Not a directory (os error 20)".to_string()),
        config_text: None,
        index_bytes: Err("Not a directory (os error 20)".to_string()),
    }
}

#[test]
fn reports_missing_config_path() {
    let err = model_config_path(&folder(&[])).unwrap_err();

    assert!(matches!(err, WaxError::MissingModelFile(path) if path.ends_with("config.json")));
}

#[test]
fn config_path_is_inside_the_model_folder() {
    let path = model_config_path(&folder(&["config.json"])).unwrap();

    assert_eq!(path, under("config.json"));
}

#[test]
fn missing_tokenizer_json_names_the_expected_path() {
    let err = tokenizer_json_path(&folder(&["config.json"]), DIR).unwrap_err();

    assert!(matches!(err, WaxError::MissingModelFile(path) if path == under("tokenizer.json")));
}

#[test]
fn safetensors_plan_reads_the_folder_tokenizer() {
    let files = folder(&["model.safetensors", "tokenizer.json", "config.json"]);
    let source = ModelSource::Safetensors {
        files: vec![under("model.safetensors")],
    };

    let plan = plan_backend(&files, source, DTypeKind::F16).unwrap();

    match plan {
        BackendPlan::Safetensors {
            files,
            tokenizer,
            dtype_label,
        } => {
            assert_eq!(files, vec![under("model.safetensors")]);
            assert_eq!(tokenizer, under("tokenizer.json"));
            assert_eq!(dtype_label, "f16");
        }
        other => panic!("unexpected plan {other:?}"),
    }
}

#[test]
fn safetensors_plan_requires_tokenizer_json() {
    let files = folder(&["model.safetensors", "config.json"]);
    let source = ModelSource::Safetensors {
        files: vec![under("model.safetensors")],
    };

    let err = plan_backend(&files, source, DTypeKind::F32).unwrap_err();

    assert!(matches!(err, WaxError::MissingModelFile(path) if path == under("tokenizer.json")));
}

#[test]
fn gguf_file_plan_uses_tokenizer_json_beside_it() {
    let files = gguf_file(&["tokenizer.json"]);
    let source = ModelSource::Gguf {
        file: under("tiny.gguf"),
    };

    let plan = plan_backend(&files, source, DTypeKind::F32).unwrap();

    match plan {
        BackendPlan::Gguf {
            file,
            tokenizer,
            dtype_label,
        } => {
            assert_eq!(file, under("tiny.gguf"));
            assert!(matches!(tokenizer, TokenizerSource::Json(p) if p == under("tokenizer.json")));
            assert_eq!(dtype_label, "gguf");
        }
        other => panic!("unexpected plan {other:?}"),
    }
}

#[test]
fn gguf_plan_falls_back_to_the_embedded_tokenizer() {
    let files = folder(&["tiny.gguf"]);
    let source = ModelSource::Gguf {
        file: under("tiny.gguf"),
    };

    let plan = plan_backend(&files, source, DTypeKind::F32).unwrap();

    assert!(matches!(
        plan,
        BackendPlan::Gguf {
            tokenizer: TokenizerSource::Gguf,
            ..
        }
    ));
}

#[test]
fn mlx_folders_are_refused_with_conversion_advice() {
    let err = plan_backend(
        &folder(&["weights.npz"]),
        ModelSource::Mlx {
            path: DIR.to_string(),
        },
        DTypeKind::F32,
    )
    .unwrap_err();

    assert!(err.message().starts_with("unsupported model format: mlx"));
    assert!(err.message().contains("Convert the model"));
}

#[test]
fn load_plan_picks_source_device_dtype_and_name() {
    let files = folder(&["model.safetensors", "tokenizer.json", "config.json"]);

    let plan = plan_load_on(&files, DeviceChoice::Auto, DTypeChoice::Auto, false, true).unwrap();

    assert!(matches!(plan.source, ModelSource::Safetensors { ref files } if files == &vec![under("model.safetensors")]));
    assert_eq!(plan.device, DeviceKind::Metal);
    assert_eq!(plan.dtype, DTypeKind::F16);
    assert_eq!(plan.model_name, "tiny");
}

#[test]
fn load_plan_reports_path_problems_first() {
    let mut files = folder(&[]);
    files.is_dir = false;

    let err = plan_load_on(&files, DeviceChoice::Cuda, DTypeChoice::Auto, false, false).unwrap_err();

    assert!(matches!(err, WaxError::InvalidModelFolder { reason, .. } if reason == "path is not a directory or .gguf file"));
}

#[test]
fn load_plan_reports_missing_weights_before_the_device() {
    let err = plan_load_on(&folder(&["config.json"]), DeviceChoice::Cuda, DTypeChoice::Auto, false, false)
        .unwrap_err();

    assert!(matches!(err, WaxError::InvalidModelFolder { reason, .. } if reason == "expected model.safetensors or model.safetensors.index.json"));
}

#[test]
fn load_plan_reports_an_unavailable_device() {
    let files = folder(&["model.safetensors"]);

    let err = plan_load_on(&files, DeviceChoice::Cuda, DTypeChoice::Auto, false, true).unwrap_err();

    assert!(matches!(err, WaxError::InvalidRequest(msg) if msg == "CUDA was requested but is not available in this build/runtime"));
}

#[test]
fn load_plan_on_this_build_uses_the_cpu_when_asked() {
    let files = folder(&["model.safetensors"]);

    let plan = plan_load(&files, DeviceChoice::Cpu, DTypeChoice::BF16).unwrap();

    assert_eq!(plan.device, DeviceKind::Cpu);
    assert_eq!(plan.dtype, DTypeKind::BF16);
}

#[test]
fn run_reports_mlx_conversion_requirement() {
    let mut files = folder(&["config.json", "model.safetensors.index.json"]);
    files.config_text = Some(r#"{"model_type":"mlx"}"#.to_string());

    let plan = plan_load_on(&files, DeviceChoice::Cpu, DTypeChoice::Auto, false, false).unwrap();
    let err = plan_backend(&files, plan.source, plan.dtype).unwrap_err();

    assert!(err.message().contains("unsupported model format: mlx"));
    assert!(err.message().contains("Convert the model"));
}
