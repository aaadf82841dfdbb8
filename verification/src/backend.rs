//! What loading a model reads, once its weights are found: where the tokenizer
//! and the configuration come from, and the label the model's element type is
//! reported under. MLX folders are refused here, with advice to convert them.
use vstd::prelude::*;
use vstd::string::*;

use crate::device::{
    choose_device, cuda_available, device_choice_result, device_for, dtype_for, dtype_label,
    dtype_text, metal_available, select_dtype, DTypeChoice, DTypeKind, DeviceChoice, DeviceKind,
};
use crate::engine::{display_name, is_folder_error, model_display_name, validate_model_path};
use crate::error::WaxError;
use crate::loader::{
    is_regular_file, lists_file, resolve_model_source, source_result, ModelFiles, ModelSource,
};
use crate::paths::{join_path, parent_of, path_extension, path_join, path_parent};

verus! {

/// What is decided about a model before its files are read: where its weights
/// are, the device and element type it runs with, and the name it is reported
/// under.
#[derive(Debug, Clone)]
pub struct LoadPlan {
    pub source: ModelSource,
    pub device: DeviceKind,
    pub dtype: DTypeKind,
    pub model_name: String,
}

/// Why the model path cannot hold a model: it is neither a directory nor a
/// file, or it is a file without the `.gguf` extension.
pub open spec fn model_path_problem(files: ModelFiles) -> Option<Seq<char>> {
    if !files.is_dir && !files.is_file {
        Some("path is not a directory or .gguf file"@)
    } else if files.is_file && path_extension(files.path@) != Some("gguf"@) {
        Some("file model paths must have a .gguf extension"@)
    } else {
        None
    }
}

/// `r` is what preparing to load the model gives when CUDA and Metal are (or are
/// not) available: the path's problem, else the error resolving its weights,
/// else the error choosing the device, else the plan with the element type for
/// that device and the model's display name.
pub open spec fn load_plan_result(
    files: ModelFiles,
    device: DeviceChoice,
    dtype: DTypeChoice,
    cuda: bool,
    metal: bool,
    r: Result<LoadPlan, WaxError>,
) -> bool {
    match model_path_problem(files) {
        Some(reason) => r matches Err(e) && is_folder_error(e, files.path@, reason),
        None => exists|s: Result<ModelSource, WaxError>|
            {
                &&& #[trigger] source_result(files, s)
                &&& match s {
                    Err(e) => r == Err::<LoadPlan, WaxError>(e),
                    Ok(src) => match device_for(device, cuda, metal) {
                        None => r matches Err(e) && device_choice_result(
                            device,
                            cuda,
                            metal,
                            Err::<DeviceKind, WaxError>(e),
                        ),
                        Some(kind) => r matches Ok(p) && p.source == src && p.device == kind
                            && p.dtype == dtype_for(dtype, kind) && p.model_name@ == display_name(
                            files.path@,
                            files.is_file,
                        ),
                    },
                }
            },
    }
}

/// Prepares to load the model at `files.path`, given whether CUDA and Metal are
/// available.
pub fn plan_load_on(
    files: &ModelFiles,
    device: DeviceChoice,
    dtype: DTypeChoice,
    cuda: bool,
    metal: bool,
) -> (r: Result<LoadPlan, WaxError>)
    ensures
        load_plan_result(*files, device, dtype, cuda, metal, r),
{
    match validate_model_path(files) {
        Err(e) => {
            return Err(e);
        },
        Ok(()) => {},
    }
    let resolved = resolve_model_source(files);
    let ghost s = resolved;
    let source = match resolved {
        Err(e) => {
            assert(source_result(*files, s));
            return Err(e);
        },
        Ok(source) => source,
    };
    let kind = match choose_device(device, cuda, metal) {
        Err(e) => {
            assert(source_result(*files, s));
            return Err(e);
        },
        Ok(kind) => kind,
    };
    let dt = select_dtype(dtype, kind);
    let model_name = model_display_name(files.path.as_str(), files.is_file);
    assert(source_result(*files, s));
    Ok(LoadPlan { source, device: kind, dtype: dt, model_name })
}

/// Prepares to load the model at `files.path` on this build of Candle.
pub fn plan_load(files: &ModelFiles, device: DeviceChoice, dtype: DTypeChoice) -> (r: Result<
    LoadPlan,
    WaxError,
>)
    ensures
        exists|cuda: bool, metal: bool| load_plan_result(*files, device, dtype, cuda, metal, r),
{
    let cuda = cuda_available();
    let metal = metal_available();
    plan_load_on(files, device, dtype, cuda, metal)
}

/// Where a tokenizer is read from.
#[derive(Debug, Clone)]
pub enum TokenizerSource {
    /// A `tokenizer.json` file.
    Json(String),
    /// The metadata of the GGUF file itself.
    Gguf,
}

/// What to read to load a model.
#[derive(Debug, Clone)]
pub enum BackendPlan {
    /// Llama weights in safetensors files, with the folder's `tokenizer.json`.
    Safetensors { files: Vec<String>, tokenizer: String, dtype_label: String },
    /// A quantized GGUF file.
    Gguf { file: String, tokenizer: TokenizerSource, dtype_label: String },
}

/// The advice given for an MLX folder.
pub open spec fn mlx_advice() -> Seq<char> {
    "MLX model folders are not directly executable by Candle. Convert the model to Hugging Face safetensors or GGUF, then load that converted folder/file with wax."@
}

/// `r` is `name` in the folder `dir` when that is a regular file, and otherwise
/// the missing-file error for that path.
pub open spec fn required_file_result(
    files: ModelFiles,
    dir: Seq<char>,
    name: Seq<char>,
    r: Result<String, WaxError>,
) -> bool {
    let p = path_join(dir, name);
    if lists_file(files, p) {
        r matches Ok(s) && s@ == p
    } else {
        r matches Err(WaxError::MissingModelFile(m)) && m@ == p
    }
}

/// The file `name` in the folder `dir`, which must be a regular file.
pub fn required_file(files: &ModelFiles, dir: &str, name: &str) -> (r: Result<String, WaxError>)
    ensures
        required_file_result(*files, dir@, name@, r),
{
    let path = join_path(dir, name);
    if is_regular_file(files, path.as_str()) {
        Ok(path)
    } else {
        Err(WaxError::MissingModelFile(path))
    }
}

/// The `tokenizer.json` of the folder `dir`, which must exist.
pub fn tokenizer_json_path(files: &ModelFiles, dir: &str) -> (r: Result<String, WaxError>)
    ensures
        required_file_result(*files, dir@, "tokenizer.json"@, r),
{
    required_file(files, dir, "tokenizer.json")
}

/// The `config.json` of the model folder, which must exist.
pub fn model_config_path(files: &ModelFiles) -> (r: Result<String, WaxError>)
    ensures
        required_file_result(*files, files.path@, "config.json"@, r),
{
    required_file(files, files.path.as_str(), "config.json")
}

/// The folder a GGUF model's `tokenizer.json` may sit in: the model folder, or
/// for a model file the folder holding `file` (`.` when it has none).
pub open spec fn gguf_tokenizer_dir(files: ModelFiles, file: Seq<char>) -> Seq<char> {
    if files.is_file {
        match path_parent(file) {
            Some(p) => p,
            None => "."@,
        }
    } else {
        files.path@
    }
}

/// `r` is what loading the model from `source` reads: for safetensors, the
/// weight files and the folder's `tokenizer.json` (an error when it is missing),
/// reported under the element type's label; for GGUF, the file and a
/// `tokenizer.json` beside it when there is one, else the file's own tokenizer,
/// reported as `gguf`; for MLX, the unsupported-format error.
pub open spec fn plan_result(
    files: ModelFiles,
    source: ModelSource,
    dtype: DTypeKind,
    r: Result<BackendPlan, WaxError>,
) -> bool {
    match source {
        ModelSource::Safetensors { files: weights } => {
            let tok = path_join(files.path@, "tokenizer.json"@);
            if lists_file(files, tok) {
                r matches Ok(BackendPlan::Safetensors { files: w, tokenizer, dtype_label })
                    && w@ == weights@ && tokenizer@ == tok && dtype_label@ == dtype_text(dtype)
            } else {
                r matches Err(WaxError::MissingModelFile(m)) && m@ == tok
            }
        },
        ModelSource::Gguf { file } => {
            let tok = path_join(gguf_tokenizer_dir(files, file@), "tokenizer.json"@);
            &&& r matches Ok(BackendPlan::Gguf { file: f, tokenizer, dtype_label })
            &&& r->Ok_0->Gguf_file@ == file@
            &&& r->Ok_0->Gguf_dtype_label@ == "gguf"@
            &&& if lists_file(files, tok) {
                r->Ok_0->Gguf_tokenizer matches TokenizerSource::Json(p) && p@ == tok
            } else {
                r->Ok_0->Gguf_tokenizer is Gguf
            }
        },
        ModelSource::Mlx { .. } => r matches Err(
            WaxError::UnsupportedModelFormat { format, message },
        ) && format@ == "mlx"@ && message@ == mlx_advice(),
    }
}

/// Works out what to read to load the model found at `source`.
pub fn plan_backend(files: &ModelFiles, source: ModelSource, dtype: DTypeKind) -> (r: Result<
    BackendPlan,
    WaxError,
>)
    ensures
        plan_result(*files, source, dtype, r),
{
    match source {
        ModelSource::Safetensors { files: weights } => {
            let tokenizer = tokenizer_json_path(files, files.path.as_str())?;
            Ok(BackendPlan::Safetensors { files: weights, tokenizer, dtype_label: dtype_label(dtype) })
        },
        ModelSource::Gguf { file } => {
            let dir = if files.is_file {
                match parent_of(file.as_str()) {
                    Some(parent) => parent,
                    None => String::from_str("."),
                }
            } else {
                files.path.clone()
            };
            let tokenizer = match tokenizer_json_path(files, dir.as_str()) {
                Ok(path) => TokenizerSource::Json(path),
                Err(_) => TokenizerSource::Gguf,
            };
            Ok(BackendPlan::Gguf { file, tokenizer, dtype_label: String::from_str("gguf") })
        },
        ModelSource::Mlx { .. } => Err(
            WaxError::UnsupportedModelFormat {
                format: String::from_str("mlx"),
                message: String::from_str(
                    "MLX model folders are not directly executable by Candle. Convert the model to Hugging Face safetensors or GGUF, then load that converted folder/file with wax.",
                ),
            },
        ),
    }
}

/// Law: a load plan runs on the device asked for when it is available: Metal
/// asked for with Metal available plans Metal (with `F16` under `Auto`), CUDA
/// likewise, and the CPU always plans the CPU (with `F32` under `Auto`).
pub proof fn law_plan_honours_device(
    files: ModelFiles,
    device: DeviceChoice,
    dtype: DTypeChoice,
    cuda: bool,
    metal: bool,
    r: Result<LoadPlan, WaxError>,
)
    requires
        load_plan_result(files, device, dtype, cuda, metal, r),
        r is Ok,
    ensures
        device == DeviceChoice::Metal ==> metal && r->Ok_0.device == DeviceKind::Metal,
        device == DeviceChoice::Cuda ==> cuda && r->Ok_0.device == DeviceKind::Cuda,
        device == DeviceChoice::Cpu ==> r->Ok_0.device == DeviceKind::Cpu,
        device == DeviceChoice::Metal && dtype == DTypeChoice::Auto ==> r->Ok_0.dtype
            == DTypeKind::F16,
        device == DeviceChoice::Cuda && dtype == DTypeChoice::Auto ==> r->Ok_0.dtype
            == DTypeKind::F16,
        device == DeviceChoice::Cpu && dtype == DTypeChoice::Auto ==> r->Ok_0.dtype
            == DTypeKind::F32,
{
}

/// Law: a GGUF model reads the `tokenizer.json` beside it (in the model folder,
/// or in the folder holding a model file) when there is one and its own
/// tokenizer otherwise, reported as `gguf`; a safetensors model needs the
/// folder's `tokenizer.json` and is reported under its element type; an MLX
/// folder is refused with the advice to convert it.
pub proof fn law_backend_plan(
    files: ModelFiles,
    source: ModelSource,
    dtype: DTypeKind,
    r: Result<BackendPlan, WaxError>,
)
    requires
        plan_result(files, source, dtype, r),
    ensures
        source is Gguf && !files.is_file ==> (r matches Ok(BackendPlan::Gguf { tokenizer, dtype_label, .. })
            && dtype_label@ == "gguf"@ && (lists_file(
            files,
            path_join(files.path@, "tokenizer.json"@),
        ) ==> (tokenizer matches TokenizerSource::Json(p) && p@ == path_join(
            files.path@,
            "tokenizer.json"@,
        ))) && (!lists_file(files, path_join(files.path@, "tokenizer.json"@))
            ==> tokenizer is Gguf)),
        source is Gguf && files.is_file && path_parent(source->Gguf_file@) is Some && lists_file(
            files,
            path_join(path_parent(source->Gguf_file@)->Some_0, "tokenizer.json"@),
        ) ==> (r matches Ok(BackendPlan::Gguf { tokenizer: TokenizerSource::Json(p), .. }) && p@
            == path_join(path_parent(source->Gguf_file@)->Some_0, "tokenizer.json"@)),
        source is Safetensors ==> (lists_file(files, path_join(files.path@, "tokenizer.json"@))
            <==> r is Ok),
        source is Safetensors && r is Ok ==> (r matches Ok(BackendPlan::Safetensors { dtype_label, .. })
            && dtype_label@ == dtype_text(dtype)),
        source is Mlx ==> (r matches Err(WaxError::UnsupportedModelFormat { format, .. }) && format@
            == "mlx"@),
{
}

} // verus!
