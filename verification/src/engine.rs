//! Engine configuration and the checks made before a model is loaded or a
//! generation starts.
use vstd::prelude::*;
use vstd::string::*;

use tokenizers::Tokenizer;

use crate::device::{DTypeChoice, DeviceChoice};
use crate::error::{invalid_request, WaxError};
use crate::loader::ModelFiles;
use crate::paths::{extension_of, file_name_of, file_stem_of, path_extension, path_file_name, path_file_stem};
use crate::text::same_text;
use crate::tokenizer::{token_id, token_id_of};

verus! {

/// Receives the generated text piece by piece while it is streamed.
pub trait StreamSink {
    /// Takes the next piece of text; an error aborts the generation.
    fn token(&mut self, text: &str) -> Result<(), WaxError>;
}

/// Where the model is and what it should run on.
#[derive(Debug, Clone)]
pub struct EngineConfig {
    pub model_dir: String,
    pub device: DeviceChoice,
    pub dtype: DTypeChoice,
}

impl EngineConfig {
    /// A configuration for the model at `model_dir`, with device and element
    /// type chosen automatically.
    pub fn new(model_dir: &str) -> (c: Self)
        ensures
            c.model_dir@ == model_dir@,
            c.device == DeviceChoice::Auto,
            c.dtype == DTypeChoice::Auto,
    {
        EngineConfig {
            model_dir: String::from_str(model_dir),
            device: DeviceChoice::Auto,
            dtype: DTypeChoice::Auto,
        }
    }
}

/// `e` is an invalid-model-folder error for `path` with the given reason.
pub open spec fn is_folder_error(e: WaxError, path: Seq<char>, reason: Seq<char>) -> bool {
    e matches WaxError::InvalidModelFolder { path: p, reason: r } && p@ == path && r@ == reason
}

/// The model path names a directory, or a file with the `.gguf` extension.
pub fn validate_model_path(files: &ModelFiles) -> (r: Result<(), WaxError>)
    ensures
        !files.is_dir && !files.is_file ==> (r matches Err(e) && is_folder_error(
            e,
            files.path@,
            "path is not a directory or .gguf file"@,
        )),
        (files.is_dir || files.is_file) && files.is_file && path_extension(files.path@) != Some(
            "gguf"@,
        ) ==> (r matches Err(e) && is_folder_error(
            e,
            files.path@,
            "file model paths must have a .gguf extension"@,
        )),
        (files.is_dir || files.is_file) && !(files.is_file && path_extension(files.path@) != Some(
            "gguf"@,
        )) ==> r is Ok,
{
    if !files.is_dir && !files.is_file {
        return Err(
            WaxError::InvalidModelFolder {
                path: files.path.clone(),
                reason: String::from_str("path is not a directory or .gguf file"),
            },
        );
    }
    if files.is_file {
        let is_gguf = match extension_of(files.path.as_str()) {
            Some(ext) => same_text(ext.as_str(), "gguf"),
            None => false,
        };
        if !is_gguf {
            return Err(
                WaxError::InvalidModelFolder {
                    path: files.path.clone(),
                    reason: String::from_str("file model paths must have a .gguf extension"),
                },
            );
        }
    }
    Ok(())
}

/// The name a model is reported under: the file name without extension for a
/// model file, the directory name for a model folder, "local" when the path has
/// no final component.
pub open spec fn display_name(path: Seq<char>, is_file: bool) -> Seq<char> {
    let name = if is_file {
        path_file_stem(path)
    } else {
        path_file_name(path)
    };
    match name {
        Some(n) => n,
        None => "local"@,
    }
}

/// The name a model is reported under.
pub fn model_display_name(model_path: &str, is_file: bool) -> (s: String)
    ensures
        s@ == display_name(model_path@, is_file),
{
    let name = if is_file {
        file_stem_of(model_path)
    } else {
        file_name_of(model_path)
    };
    match name {
        Some(n) => n,
        None => String::from_str("local"),
    }
}

/// Why a generation request is refused (before its sampling settings are checked).
pub open spec fn request_problem(prompt: Seq<char>, max_new_tokens: usize, stop: Seq<String>) -> Option<
    Seq<char>,
> {
    if prompt.len() == 0 {
        Some("prompt must not be empty"@)
    } else if max_new_tokens == 0 {
        Some("max-new-tokens must be > 0"@)
    } else if exists|k: int| 0 <= k < stop.len() && (#[trigger] stop[k])@.len() == 0 {
        Some("stop strings must not be empty"@)
    } else {
        None
    }
}

/// `r` is what checking a request gives: the refusal of its first problem, or `Ok`.
pub open spec fn request_check_result(
    prompt: Seq<char>,
    max_new_tokens: usize,
    stop: Seq<String>,
    r: Result<(), WaxError>,
) -> bool {
    match request_problem(prompt, max_new_tokens, stop) {
        Some(reason) => r matches Err(WaxError::InvalidRequest(msg)) && msg@ == reason,
        None => r is Ok,
    }
}

/// Checks the prompt, the token budget and the stop strings of a request.
pub fn validate_generate_request(prompt: &str, max_new_tokens: usize, stop: &[String]) -> (r: Result<
    (),
    WaxError,
>)
    ensures
        request_check_result(prompt@, max_new_tokens, stop@, r),
{
    if prompt.is_empty() {
        return Err(invalid_request("prompt must not be empty"));
    }
    if max_new_tokens == 0 {
        return Err(invalid_request("max-new-tokens must be > 0"));
    }
    let mut k: usize = 0;
    while k < stop.len()
        invariant
            k <= stop@.len(),
            prompt@.len() > 0,
            max_new_tokens > 0,
            forall|j: int| 0 <= j < k ==> (#[trigger] stop@[j])@.len() > 0,
        decreases stop@.len() - k,
    {
        if stop[k].as_str().is_empty() {
            assert((stop@[k as int])@.len() == 0);
            assert(exists|j: int| 0 <= j < stop@.len() && (#[trigger] stop@[j])@.len() == 0);
            return Err(invalid_request("stop strings must not be empty"));
        }
        k = k + 1;
    }
    Ok(())
}

/// End-of-sequence ids a model configuration declares.
#[derive(Debug, Clone)]
pub enum EosTokens {
    Single(u32),
    Multiple(Vec<u32>),
}

/// The ids `config` declares, in order.
pub open spec fn declared_eos(config: Option<EosTokens>) -> Seq<u32> {
    match config {
        Some(EosTokens::Single(id)) => seq![id],
        Some(EosTokens::Multiple(ids)) => ids@,
        None => Seq::empty(),
    }
}

/// `ids` with `found` appended when it is an id not yet among them.
pub open spec fn with_found_id(ids: Seq<u32>, found: Option<u32>) -> Seq<u32> {
    match found {
        Some(id) => if ids.contains(id) {
            ids
        } else {
            ids.push(id)
        },
        None => ids,
    }
}

/// The declared ids followed by the ids found for the special tokens, without repeats
/// among the added ones.
pub open spec fn merged_eos(declared: Seq<u32>, found: Seq<Option<u32>>) -> Seq<u32>
    decreases found.len(),
{
    if found.len() == 0 {
        declared
    } else {
        with_found_id(merged_eos(declared, found.drop_last()), found.last())
    }
}

/// Whether `v` holds `x`.
fn contains_id(v: &Vec<u32>, x: u32) -> (b: bool)
    ensures
        b == v@.contains(x),
{
    let mut i: usize = 0;
    while i < v.len()
        invariant
            i <= v@.len(),
            forall|j: int| 0 <= j < i ==> v@[j] != x,
        decreases v@.len() - i,
    {
        if v[i] == x {
            return true;
        }
        i = i + 1;
    }
    false
}

/// The end-of-sequence ids: those the configuration declares, then the ids the
/// tokenizer has for the special end tokens, in the order looked up.
pub fn merge_eos_token_ids(config_eos: Option<&EosTokens>, found: &[Option<u32>]) -> (ids: Vec<u32>)
    ensures
        ids@ == merged_eos(
            declared_eos(
                match config_eos {
                    Some(c) => Some(*c),
                    None => None,
                },
            ),
            found@,
        ),
{
    let mut ids: Vec<u32> = match config_eos {
        Some(EosTokens::Single(id)) => vec![*id],
        Some(EosTokens::Multiple(list)) => list.clone(),
        None => Vec::new(),
    };
    let ghost declared = ids@;
    assert(declared == declared_eos(
        match config_eos {
            Some(c) => Some(*c),
            None => None,
        },
    ));
    let mut k: usize = 0;
    while k < found.len()
        invariant
            k <= found@.len(),
            ids@ == merged_eos(declared, found@.take(k as int)),
        decreases found@.len() - k,
    {
        proof {
            assert(found@.take(k + 1).drop_last() =~= found@.take(k as int));
        }
        if let Some(id) = found[k] {
            if !contains_id(&ids, id) {
                ids.push(id);
            }
        }
        k = k + 1;
    }
    proof {
        assert(found@.take(found@.len() as int) =~= found@);
    }
    ids
}

/// The end-of-sequence ids of a model: those its configuration declares, then
/// the ids its tokenizer has for `</s>`, `<|end_of_text|>` and `<|endoftext|>`.
pub fn eos_token_ids(tokenizer: &Tokenizer, config_eos: Option<&EosTokens>) -> (ids: Vec<u32>)
    ensures
        ids@ == merged_eos(
            declared_eos(
                match config_eos {
                    Some(c) => Some(*c),
                    None => None,
                },
            ),
            seq![
                token_id_of(*tokenizer, "</s>"@),
                token_id_of(*tokenizer, "<|end_of_text|>"@),
                token_id_of(*tokenizer, "<|endoftext|>"@),
            ],
        ),
{
    let mut found: Vec<Option<u32>> = Vec::new();
    found.push(token_id(tokenizer, "</s>"));
    found.push(token_id(tokenizer, "<|end_of_text|>"));
    found.push(token_id(tokenizer, "<|endoftext|>"));
    assert(found@ =~= seq![
        token_id_of(*tokenizer, "</s>"@),
        token_id_of(*tokenizer, "<|end_of_text|>"@),
        token_id_of(*tokenizer, "<|endoftext|>"@),
    ]);
    merge_eos_token_ids(config_eos, found.as_slice())
}

/// Law: a request is accepted exactly when its prompt is not empty, its token
/// budget is positive and none of its stop strings is empty (a stop string of
/// one character, such as a newline, is fine); a refusal is an invalid-request
/// error.
pub proof fn law_request_check(
    prompt: Seq<char>,
    max_new_tokens: usize,
    stop: Seq<String>,
    r: Result<(), WaxError>,
)
    requires
        request_check_result(prompt, max_new_tokens, stop, r),
    ensures
        r is Ok <==> (prompt.len() > 0 && max_new_tokens > 0 && forall|k: int|
            0 <= k < stop.len() ==> (#[trigger] stop[k])@.len() >= 1),
        r is Err ==> r matches Err(WaxError::InvalidRequest(_)),
{
    if prompt.len() > 0 && max_new_tokens > 0 && exists|k: int|
        0 <= k < stop.len() && (#[trigger] stop[k])@.len() == 0 {
        let k = choose|k: int| 0 <= k < stop.len() && (#[trigger] stop[k])@.len() == 0;
        assert(!(stop[k]@.len() >= 1));
    }
}

/// Law: the end-of-sequence ids start with the declared ones, in order; every
/// id found for a special token is among them; every id is declared or found;
/// and an id found is added at most once and only when not already there.
pub proof fn law_merged_eos(declared: Seq<u32>, found: Seq<Option<u32>>)
    ensures
        merged_eos(declared, found).len() >= declared.len(),
        merged_eos(declared, found).subrange(0, declared.len() as int) == declared,
        forall|id: u32| found.contains(Some(id)) ==> #[trigger] merged_eos(declared, found).contains(
            id,
        ),
        forall|j: int|
            0 <= j < merged_eos(declared, found).len() ==> declared.contains(
                #[trigger] merged_eos(declared, found)[j],
            ) || found.contains(Some(merged_eos(declared, found)[j])),
        forall|a: int, b: int|
            declared.len() <= a < b < merged_eos(declared, found).len() ==> #[trigger] merged_eos(
                declared,
                found,
            )[a] != #[trigger] merged_eos(declared, found)[b],
        forall|a: int, b: int|
            0 <= a < declared.len() <= b < merged_eos(declared, found).len() ==> #[trigger] declared[a]
                != #[trigger] merged_eos(declared, found)[b],
    decreases found.len(),
{
    if found.len() > 0 {
        let rest = found.drop_last();
        law_merged_eos(declared, rest);
        let prev = merged_eos(declared, rest);
        let cur = merged_eos(declared, found);
        assert forall|k: int| 0 <= k < rest.len() implies #[trigger] rest[k] == found[k] by {}
        assert(found[found.len() - 1] == found.last());
        match found.last() {
            Some(id) => {
                if !prev.contains(id) {
                    assert(cur == prev.push(id));
                    assert(cur.subrange(0, declared.len() as int) =~= prev.subrange(
                        0,
                        declared.len() as int,
                    ));
                    assert(cur[prev.len() as int] == id);
                    assert forall|a: int| 0 <= a < prev.len() implies cur[a] != id by {
                        assert(prev[a] == cur[a]);
                    }
                }
            },
            None => {},
        }
        assert forall|x: u32| found.contains(Some(x)) implies #[trigger] cur.contains(x) by {
            let k = choose|k: int| 0 <= k < found.len() && found[k] == Some(x);
            if k < rest.len() {
                assert(rest[k] == Some(x));
                assert(rest.contains(Some(x)));
                assert(prev.contains(x));
                let j = choose|j: int| 0 <= j < prev.len() && prev[j] == x;
                assert(cur[j] == x);
            } else {
                assert(found.last() == Some(x));
                if prev.contains(x) {
                    let j = choose|j: int| 0 <= j < prev.len() && prev[j] == x;
                    assert(cur[j] == x);
                } else {
                    assert(cur[prev.len() as int] == x);
                }
            }
        }
        assert forall|j: int| 0 <= j < cur.len() implies declared.contains(#[trigger] cur[j])
            || found.contains(Some(cur[j])) by {
            if j < prev.len() {
                assert(cur[j] == prev[j]);
                if rest.contains(Some(prev[j])) {
                    let k = choose|k: int| 0 <= k < rest.len() && rest[k] == Some(prev[j]);
                    assert(found[k] == Some(prev[j]));
                }
            } else {
                assert(found[found.len() - 1] == Some(cur[j]));
            }
        }
        assert forall|a: int, b: int|
            declared.len() <= a < b < cur.len() implies #[trigger] cur[a] != #[trigger] cur[b] by {
            if b < prev.len() {
                assert(cur[a] == prev[a] && cur[b] == prev[b]);
            } else {
                assert(cur[a] == prev[a]);
            }
        }
        assert forall|a: int, b: int|
            0 <= a < declared.len() <= b < cur.len() implies #[trigger] declared[a] != #[trigger] cur[b] by {
            if b < prev.len() {
                assert(cur[b] == prev[b]);
            } else {
                assert(prev[a] == declared[a]) by {
                    assert(prev.subrange(0, declared.len() as int)[a] == prev[a]);
                }
            }
        }
    }
}

/// Law: a model file is reported under its file name without extension, a
/// model folder under its folder name, and a path without a final component as
/// `local`.
pub proof fn law_display_name(path: Seq<char>, is_file: bool)
    ensures
        is_file && path_file_stem(path) is Some ==> display_name(path, is_file) == path_file_stem(
            path,
        )->Some_0,
        !is_file && path_file_name(path) is Some ==> display_name(path, is_file) == path_file_name(
            path,
        )->Some_0,
        (if is_file {
            path_file_stem(path)
        } else {
            path_file_name(path)
        }) is None ==> display_name(path, is_file) == "local"@,
{
}

} // verus!
