//! Working out which kind of model a path holds (safetensors folder, GGUF file
//! or folder, MLX folder) and which weight files belong to it.
//!
//! The decisions work on [`ModelFiles`], what the file system showed about the
//! model path: whether it is a file or a directory, the directory's entries,
//! which of the paths the decisions consult are regular files, and the contents
//! of `config.json` and of the safetensors index.
use vstd::prelude::*;
use vstd::string::*;
use vstd::utf8::*;

use crate::error::WaxError;
use crate::order::{insert_sorted, strictly_sorted, texts};
use crate::paths::{extension_of, join_path, path_extension, path_join};
use crate::text::{
    first_occurrence, has_prefix, lemma_encode_concat, lemma_first_occurrence, occurs_at, same_text,
    str_contains, str_starts_with,
};

verus! {

/// Where a model's weights are.
#[derive(Debug, Clone)]
pub enum ModelSource {
    Safetensors { files: Vec<String> },
    Gguf { file: String },
    Mlx { path: String },
}

/// An entry of the model directory.
#[derive(Debug, Clone)]
pub struct DirEntry {
    /// The entry's file name (lossily converted when it is not UTF-8).
    pub name: String,
    /// The file name is valid UTF-8.
    pub utf8: bool,
}

/// What the file system shows about a model path.
#[derive(Debug)]
pub struct ModelFiles {
    /// The model path as given.
    pub path: String,
    /// The path is a regular file.
    pub is_file: bool,
    /// The path is a directory.
    pub is_dir: bool,
    /// Paths (formed by joining names to `path`) that are regular files.
    pub regular_files: Vec<String>,
    /// The entries of the directory, or the message of the error listing it.
    pub entries: Result<Vec<DirEntry>, String>,
    /// The text of `config.json`, when it could be read as text.
    pub config_text: Option<String>,
    /// The bytes of `model.safetensors.index.json`, or the message of the error
    /// reading it.
    pub index_bytes: Result<Vec<u8>, String>,
}

/// `path` is one of the regular files the file system showed.
pub open spec fn lists_file(files: ModelFiles, path: Seq<char>) -> bool {
    texts(files.regular_files@).contains(path)
}

/// `name` joined to the model path.
pub open spec fn under(files: ModelFiles, name: Seq<char>) -> Seq<char> {
    path_join(files.path@, name)
}

/// The path has the extension `ext`.
pub open spec fn has_extension(path: Seq<char>, ext: Seq<char>) -> bool {
    path_extension(path) == Some(ext)
}

/// Whether `path` is one of the regular files the file system showed.
pub fn is_regular_file(files: &ModelFiles, path: &str) -> (b: bool)
    ensures
        b == lists_file(*files, path@),
{
    let v = &files.regular_files;
    let mut i: usize = 0;
    while i < v.len()
        invariant
            v == &files.regular_files,
            i <= v@.len(),
            forall|j: int| 0 <= j < i ==> (#[trigger] v@[j])@ != path@,
        decreases v@.len() - i,
    {
        if same_text(v[i].as_str(), path) {
            assert(texts(v@)[i as int] == path@);
            return true;
        }
        i = i + 1;
    }
    proof {
        if texts(v@).contains(path@) {
            let k = choose|k: int| 0 <= k < texts(v@).len() && texts(v@)[k] == path@;
            assert(v@[k]@ == path@);
        }
    }
    false
}

/// Whether `path` has the extension `ext`.
fn extension_is(path: &str, ext: &str) -> (b: bool)
    ensures
        b == has_extension(path@, ext@),
{
    match extension_of(path) {
        Some(e) => same_text(e.as_str(), ext),
        None => false,
    }
}

/// An entry is an MLX weight shard: its name is text starting with `weights.`
/// and it has the extension `safetensors` or `npz`.
pub open spec fn is_mlx_shard(files: ModelFiles, entry: DirEntry) -> bool {
    &&& entry.utf8
    &&& has_prefix(encode_utf8(entry.name@), encode_utf8("weights."@))
    &&& (has_extension(under(files, entry.name@), "safetensors"@) || has_extension(
        under(files, entry.name@),
        "npz"@,
    ))
}

/// The directory holds MLX weight shards (`weights.*.safetensors` or `weights.*.npz`).
pub open spec fn has_mlx_shards(files: ModelFiles) -> bool {
    &&& files.entries is Ok
    &&& exists|k: int|
        0 <= k < files.entries->Ok_0@.len() && is_mlx_shard(
            files,
            #[trigger] files.entries->Ok_0@[k],
        )
}

/// Whether the directory holds MLX weight shards.
pub fn has_mlx_weight_shards(files: &ModelFiles) -> (b: bool)
    ensures
        b == has_mlx_shards(*files),
{
    match &files.entries {
        Ok(entries) => {
            let mut k: usize = 0;
            while k < entries.len()
                invariant
                    files.entries == Ok::<Vec<DirEntry>, String>(*entries),
                    k <= entries@.len(),
                    forall|j: int| 0 <= j < k ==> !is_mlx_shard(*files, #[trigger] entries@[j]),
                decreases entries@.len() - k,
            {
                let entry = &entries[k];
                if entry.utf8 && str_starts_with(entry.name.as_str(), "weights.") {
                    let p = join_path(files.path.as_str(), entry.name.as_str());
                    if extension_is(p.as_str(), "safetensors") || extension_is(p.as_str(), "npz") {
                        assert(is_mlx_shard(*files, files.entries->Ok_0@[k as int]));
                        return true;
                    }
                }
                k = k + 1;
            }
            false
        },
        Err(_) => false,
    }
}

/// The folder looks like an MLX model: it has `weights.npz`, MLX weight shards,
/// or a safetensors index next to a `config.json` that mentions `"model_type"`
/// and `mlx`.
pub open spec fn looks_like_mlx(files: ModelFiles) -> bool {
    ||| lists_file(files, under(files, "weights.npz"@))
    ||| has_mlx_shards(files)
    ||| lists_file(files, under(files, "model.safetensors.index.json"@)) && match files.config_text {
        Some(c) => first_occurrence(encode_utf8(c@), encode_utf8("\"model_type\""@)) is Some
            && first_occurrence(encode_utf8(c@), encode_utf8("mlx"@)) is Some,
        None => false,
    }
}

/// Whether the folder looks like an MLX model.
pub fn looks_like_mlx_model(files: &ModelFiles) -> (b: bool)
    ensures
        b == looks_like_mlx(*files),
{
    let npz = join_path(files.path.as_str(), "weights.npz");
    if is_regular_file(files, npz.as_str()) {
        return true;
    }
    if has_mlx_weight_shards(files) {
        return true;
    }
    let index = join_path(files.path.as_str(), "model.safetensors.index.json");
    if !is_regular_file(files, index.as_str()) {
        return false;
    }
    match &files.config_text {
        Some(c) => str_contains(c.as_str(), "\"model_type\"") && str_contains(c.as_str(), "mlx"),
        None => false,
    }
}

/// The GGUF files among the directory's entries (paths under the model path
/// whose extension is `gguf`), in directory order.
pub open spec fn gguf_entries(files: ModelFiles, entries: Seq<DirEntry>) -> Seq<Seq<char>>
    decreases entries.len(),
{
    if entries.len() == 0 {
        Seq::empty()
    } else {
        let rest = gguf_entries(files, entries.drop_last());
        let p = under(files, entries.last().name@);
        if has_extension(p, "gguf"@) {
            rest.push(p)
        } else {
            rest
        }
    }
}

/// The message when a folder holds several GGUF files.
pub open spec fn ambiguous_gguf_text() -> Seq<char> {
    "multiple .gguf files found; keep exactly one GGUF file or name it model.gguf"@
}

/// `r` is what resolving the GGUF file of the folder gives.
pub open spec fn gguf_file_result(files: ModelFiles, r: Result<Option<String>, WaxError>) -> bool {
    if lists_file(files, under(files, "model.gguf"@)) {
        r matches Ok(Some(f)) && f@ == under(files, "model.gguf"@)
    } else {
        match files.entries {
            Err(msg) => r matches Err(WaxError::Io(m)) && m@ == msg@,
            Ok(entries) => {
                let found = gguf_entries(files, entries@);
                if found.len() == 0 {
                    r matches Ok(None)
                } else if found.len() == 1 {
                    r matches Ok(Some(f)) && f@ == found[0]
                } else {
                    r matches Err(WaxError::InvalidModelFolder { path, reason }) && path@
                        == files.path@ && reason@ == ambiguous_gguf_text()
                }
            },
        }
    }
}

/// The folder's GGUF file: `model.gguf` if present, otherwise the only GGUF
/// file in it; several GGUF files are an error.
pub fn resolve_gguf_file(files: &ModelFiles) -> (r: Result<Option<String>, WaxError>)
    ensures
        gguf_file_result(*files, r),
{
    let direct = join_path(files.path.as_str(), "model.gguf");
    if is_regular_file(files, direct.as_str()) {
        return Ok(Some(direct));
    }
    let entries = match &files.entries {
        Ok(entries) => entries,
        Err(msg) => {
            return Err(WaxError::Io(msg.clone()));
        },
    };
    let mut found: Vec<String> = Vec::new();
    let mut k: usize = 0;
    while k < entries.len()
        invariant
            files.entries == Ok::<Vec<DirEntry>, String>(*entries),
            k <= entries@.len(),
            texts(found@) == gguf_entries(*files, entries@.take(k as int)),
        decreases entries@.len() - k,
    {
        proof {
            assert(entries@.take(k + 1).drop_last() =~= entries@.take(k as int));
        }
        let p = join_path(files.path.as_str(), entries[k].name.as_str());
        if extension_is(p.as_str(), "gguf") {
            found.push(p);
            proof {
                assert(texts(found@) =~= gguf_entries(*files, entries@.take(k as int)).push(
                    found@.last()@,
                ));
            }
        }
        k = k + 1;
    }
    proof {
        assert(entries@.take(entries@.len() as int) =~= entries@);
    }
    if found.len() == 0 {
        Ok(None)
    } else if found.len() == 1 {
        assert(texts(found@)[0] == found@[0]@);
        Ok(found.pop())
    } else {
        Err(
            WaxError::InvalidModelFolder {
                path: files.path.clone(),
                reason: String::from_str(
                    "multiple .gguf files found; keep exactly one GGUF file or name it model.gguf",
                ),
            },
        )
    }
}

/// What `serde_json` reads from JSON bytes under `key`: an error message when
/// they are not JSON; no map when the document has no object under `key`;
/// otherwise the values of that object in key order, each the string it holds
/// (none for a value that is not a string).
pub uninterp spec fn weight_map_values(bytes: Seq<u8>, key: Seq<char>) -> Result<
    Option<Seq<Option<Seq<char>>>>,
    Seq<char>,
>;

/// The texts of optional strings.
pub open spec fn optional_texts(v: Seq<Option<String>>) -> Seq<Option<Seq<char>>> {
    v.map_values(
        |o: Option<String>|
            match o {
                Some(s) => Some(s@),
                None => None,
            },
    )
}

/// Parses the bytes with `serde_json::from_slice` into a `serde_json::Value`,
/// takes the object under `key` (`Value::get`) and each value's string
/// (`Value::as_str`). The result is `weight_map_values` of the bytes and the key.
#[verifier::external_body]
fn read_weight_map(bytes: &[u8], key: &str) -> (r: Result<Option<Vec<Option<String>>>, String>)
    ensures
        weight_map_values(bytes@, key@) == match r {
            Ok(Some(v)) => Ok(Some(optional_texts(v@))),
            Ok(None) => Ok(None),
            Err(m) => Err::<Option<Seq<Option<Seq<char>>>>, Seq<char>>(m@),
        },
{
    match serde_json::from_slice::<serde_json::Value>(bytes) {
        Err(err) => Err(err.to_string()),
        Ok(json) => match json.get(key) {
            Some(serde_json::Value::Object(map)) => Ok(Some(
                map.values().map(|value| value.as_str().map(String::from)).collect(),
            )),
            _ => Ok(None),
        },
    }
}

/// The message when the index has no `weight_map` object.
pub open spec fn no_weight_map_text(index_path: Seq<char>) -> Seq<char> {
    index_path + " does not contain a weight_map object"@
}

/// The message when a `weight_map` value is not a string.
pub open spec fn bad_weight_map_value_text() -> Seq<char> {
    "weight_map values must be safetensors filenames"@
}

/// `paths` are the shard file names of `values`, each once, in byte order, each
/// joined to the model path.
pub open spec fn shard_paths_of(
    files: ModelFiles,
    values: Seq<Option<Seq<char>>>,
    paths: Seq<Seq<char>>,
) -> bool {
    exists|names: Seq<Seq<char>>|
        {
            &&& strictly_sorted(names)
            &&& forall|t: Seq<char>| names.contains(t) <==> values.contains(Some(t))
            &&& paths.len() == names.len()
            &&& forall|j: int| 0 <= j < names.len() ==> #[trigger] paths[j] == under(files, names[j])
        }
}

/// `r` is what the shard list of the index at `index_path` is, given what its
/// `weight_map` holds: an error when there is no `weight_map` object or when one
/// of its values is not a string, otherwise the named files, each once, in byte
/// order, joined to the model path.
pub open spec fn weight_map_result(
    files: ModelFiles,
    index_path: Seq<char>,
    weight_map: Option<Seq<Option<Seq<char>>>>,
    r: Result<Vec<String>, WaxError>,
) -> bool {
    match weight_map {
        None => r matches Err(WaxError::InvalidModelFolder { path, reason }) && path@ == files.path@
            && reason@ == no_weight_map_text(index_path),
        Some(values) => if values.contains(None) {
            r matches Err(WaxError::InvalidModelFolder { path, reason }) && path@ == files.path@
                && reason@ == bad_weight_map_value_text()
        } else {
            r matches Ok(paths) && shard_paths_of(files, values, texts(paths@))
        },
    }
}

/// `r` is what reading the shard list of the index at `index_path` gives.
pub open spec fn shard_list_result(
    files: ModelFiles,
    index_path: Seq<char>,
    r: Result<Vec<String>, WaxError>,
) -> bool {
    match files.index_bytes {
        Err(msg) => r matches Err(WaxError::Io(m)) && m@ == msg@,
        Ok(bytes) => match weight_map_values(bytes@, "weight_map"@) {
            Err(msg) => r matches Err(WaxError::Json(m)) && m@ == msg,
            Ok(weight_map) => weight_map_result(files, index_path, weight_map, r),
        },
    }
}

/// The shard files named by the values of an index's `weight_map` (`None` when
/// the index has no `weight_map` object; a `None` value is one that is not a
/// string): each file once, in byte order, joined to the model path.
pub fn weight_map_shard_paths(
    files: &ModelFiles,
    index_path: &str,
    weight_map: Option<Vec<Option<String>>>,
) -> (r: Result<Vec<String>, WaxError>)
    ensures
        weight_map_result(
            *files,
            index_path@,
            match weight_map {
                Some(v) => Some(optional_texts(v@)),
                None => None,
            },
            r,
        ),
{
    let ghost wm = match &weight_map {
        Some(v) => Some(optional_texts(v@)),
        None => None,
    };
    let values = match weight_map {
        None => {
            let mut reason = String::from_str(index_path);
            reason.append(" does not contain a weight_map object");
            return Err(WaxError::InvalidModelFolder { path: files.path.clone(), reason });
        },
        Some(values) => values,
    };
    let ghost vals = optional_texts(values@);
    let mut names: Vec<String> = Vec::new();
    let mut k: usize = 0;
    while k < values.len()
        invariant
            vals == optional_texts(values@),
            wm == Some(vals),
            wm == match weight_map {
                Some(v) => Some(optional_texts(v@)),
                None => None,
            },
            k <= values@.len(),
            strictly_sorted(texts(names@)),
            forall|j: int| 0 <= j < k ==> (#[trigger] vals[j]) is Some,
            forall|t: Seq<char>|
                texts(names@).contains(t) <==> vals.take(k as int).contains(Some(t)),
        decreases values@.len() - k,
    {
        match &values[k] {
            Some(name) => {
                insert_sorted(&mut names, name.clone());
                proof {
                    let prefix = vals.take(k + 1);
                    assert(prefix =~= vals.take(k as int).push(Some(name@)));
                    assert forall|t: Seq<char>|
                        texts(names@).contains(t) <==> prefix.contains(Some(t)) by {
                        if prefix.contains(Some(t)) && t != name@ {
                            let j = choose|j: int| 0 <= j < prefix.len() && prefix[j] == Some(t);
                            assert(vals.take(k as int)[j] == Some(t));
                        }
                        if vals.take(k as int).contains(Some(t)) {
                            let j = choose|j: int| 0 <= j < k && vals.take(k as int)[j] == Some(t);
                            assert(prefix[j] == Some(t));
                        }
                        if t == name@ {
                            assert(prefix[k as int] == Some(t));
                        }
                    }
                }
            },
            None => {
                assert(vals[k as int] == None::<Seq<char>>);
                assert(vals.contains(None));
                let e = WaxError::InvalidModelFolder {
                    path: files.path.clone(),
                    reason: String::from_str("weight_map values must be safetensors filenames"),
                };
                return Err(e);
            },
        }
        k = k + 1;
    }
    proof {
        assert(vals.take(values@.len() as int) =~= vals);
        if vals.contains(None) {
            let j = choose|j: int| 0 <= j < vals.len() && vals[j] == None::<Seq<char>>;
            assert(vals[j] is Some);
        }
    }
    let mut paths: Vec<String> = Vec::new();
    let mut i: usize = 0;
    while i < names.len()
        invariant
            i <= names@.len(),
            paths@.len() == i,
            forall|j: int| 0 <= j < i ==> (#[trigger] paths@[j])@ == under(*files, names@[j]@),
        decreases names@.len() - i,
    {
        let p = join_path(files.path.as_str(), names[i].as_str());
        paths.push(p);
        i = i + 1;
    }
    proof {
        let pv = texts(paths@);
        let nv = texts(names@);
        assert forall|j: int| 0 <= j < nv.len() implies #[trigger] pv[j] == under(*files, nv[j]) by {
            assert(pv[j] == paths@[j]@);
            assert(nv[j] == names@[j]@);
        }
        assert(shard_paths_of(*files, vals, texts(paths@)));
    }
    Ok(paths)
}

/// The shard files a safetensors index names: every file name in its
/// `weight_map`, each once, in byte order, joined to the model path.
pub fn indexed_shard_paths(files: &ModelFiles, index_path: &str) -> (r: Result<
    Vec<String>,
    WaxError,
>)
    ensures
        shard_list_result(*files, index_path@, r),
{
    let bytes = match &files.index_bytes {
        Ok(bytes) => bytes,
        Err(msg) => {
            return Err(WaxError::Io(msg.clone()));
        },
    };
    match read_weight_map(bytes.as_slice(), "weight_map") {
        Err(msg) => Err(WaxError::Json(msg)),
        Ok(weight_map) => weight_map_shard_paths(files, index_path, weight_map),
    }
}

/// The first of `paths` that is not a regular file, if any.
pub open spec fn first_missing(files: ModelFiles, paths: Seq<Seq<char>>) -> Option<Seq<char>>
    decreases paths.len(),
{
    if paths.len() == 0 {
        None
    } else if !lists_file(files, paths[0]) {
        Some(paths[0])
    } else {
        first_missing(files, paths.drop_first())
    }
}

/// `r` is what resolving the indexed safetensors files gives.
pub open spec fn indexed_result(
    files: ModelFiles,
    index_path: Seq<char>,
    r: Result<Vec<String>, WaxError>,
) -> bool {
    exists|listed: Result<Vec<String>, WaxError>|
        {
            &&& shard_list_result(files, index_path, listed)
            &&& match listed {
                Err(e) => r == Err::<Vec<String>, WaxError>(e),
                Ok(paths) => match first_missing(files, texts(paths@)) {
                    Some(p) => r matches Err(WaxError::MissingModelFile(m)) && m@ == p,
                    None => r == Ok::<Vec<String>, WaxError>(paths),
                },
            }
        }
}

/// The shard files of a safetensors index, all of which must exist.
pub fn resolve_indexed_safetensors(files: &ModelFiles, index_path: &str) -> (r: Result<
    Vec<String>,
    WaxError,
>)
    ensures
        indexed_result(*files, index_path@, r),
{
    let listed = indexed_shard_paths(files, index_path);
    let ghost listed_model = listed;
    let paths = match listed {
        Ok(paths) => paths,
        Err(e) => {
            assert(shard_list_result(*files, index_path@, Err(e)));
            return Err(e);
        },
    };
    let ghost all = texts(paths@);
    assert(listed_model == Ok::<Vec<String>, WaxError>(paths));
    assert(all.skip(0) =~= all);
    let mut i: usize = 0;
    while i < paths.len()
        invariant
            all == texts(paths@),
            listed_model == Ok::<Vec<String>, WaxError>(paths),
            shard_list_result(*files, index_path@, listed_model),
            i <= paths@.len(),
            first_missing(*files, all) == first_missing(*files, all.skip(i as int)),
        decreases paths@.len() - i,
    {
        proof {
            assert(all.skip(i as int).drop_first() =~= all.skip(i + 1));
            assert(all.skip(i as int)[0] == paths@[i as int]@);
        }
        if !is_regular_file(files, paths[i].as_str()) {
            let missing = paths[i].clone();
            assert(first_missing(*files, all) == Some(all[i as int]));
            assert(shard_list_result(*files, index_path@, listed_model));
            return Err(WaxError::MissingModelFile(missing));
        }
        i = i + 1;
    }
    assert(first_missing(*files, all.skip(i as int)) is None);
    Ok(paths)
}

/// The message when a folder has neither safetensors layout.
pub open spec fn no_safetensors_text() -> Seq<char> {
    "expected model.safetensors or model.safetensors.index.json"@
}

/// `r` is what resolving the safetensors files of the folder gives.
pub open spec fn safetensors_result(files: ModelFiles, r: Result<Vec<String>, WaxError>) -> bool {
    let index = under(files, "model.safetensors.index.json"@);
    let single = under(files, "model.safetensors"@);
    if lists_file(files, index) {
        indexed_result(files, index, r)
    } else if lists_file(files, single) {
        r matches Ok(v) && texts(v@) == seq![single]
    } else {
        r matches Err(WaxError::InvalidModelFolder { path, reason }) && path@ == files.path@
            && reason@ == no_safetensors_text()
    }
}

/// The safetensors weight files of a folder: the shards its index names, or
/// `model.safetensors`.
pub fn resolve_safetensors_files(files: &ModelFiles) -> (r: Result<Vec<String>, WaxError>)
    ensures
        safetensors_result(*files, r),
{
    let index = join_path(files.path.as_str(), "model.safetensors.index.json");
    if is_regular_file(files, index.as_str()) {
        return resolve_indexed_safetensors(files, index.as_str());
    }
    let single = join_path(files.path.as_str(), "model.safetensors");
    if is_regular_file(files, single.as_str()) {
        let mut v: Vec<String> = Vec::new();
        v.push(single);
        assert(texts(v@) =~= seq![under(*files, "model.safetensors"@)]);
        return Ok(v);
    }
    Err(
        WaxError::InvalidModelFolder {
            path: files.path.clone(),
            reason: String::from_str("expected model.safetensors or model.safetensors.index.json"),
        },
    )
}

/// `r` is what resolving the model source gives: a `.gguf` file path is a GGUF
/// model; an MLX-looking folder is MLX; a folder with a GGUF file is GGUF;
/// anything else is a safetensors folder.
pub open spec fn source_result(files: ModelFiles, r: Result<ModelSource, WaxError>) -> bool {
    if files.is_file && has_extension(files.path@, "gguf"@) {
        r matches Ok(ModelSource::Gguf { file }) && file@ == files.path@
    } else if looks_like_mlx(files) {
        r matches Ok(ModelSource::Mlx { path }) && path@ == files.path@
    } else {
        exists|g: Result<Option<String>, WaxError>|
            {
                &&& gguf_file_result(files, g)
                &&& match g {
                    Err(e) => r == Err::<ModelSource, WaxError>(e),
                    Ok(Some(f)) => r matches Ok(ModelSource::Gguf { file }) && file@ == f@,
                    Ok(None) => exists|s: Result<Vec<String>, WaxError>|
                        {
                            &&& safetensors_result(files, s)
                            &&& match s {
                                Ok(v) => r matches Ok(ModelSource::Safetensors { files: w })
                                    && w@ == v@,
                                Err(e) => r == Err::<ModelSource, WaxError>(e),
                            }
                        },
                }
            }
    }
}

/// Works out where the weights of the model at `files.path` are.
pub fn resolve_model_source(files: &ModelFiles) -> (r: Result<ModelSource, WaxError>)
    ensures
        source_result(*files, r),
{
    if files.is_file && extension_is(files.path.as_str(), "gguf") {
        return Ok(ModelSource::Gguf { file: files.path.clone() });
    }
    if looks_like_mlx_model(files) {
        return Ok(ModelSource::Mlx { path: files.path.clone() });
    }
    let g = resolve_gguf_file(files);
    match g {
        Err(e) => {
            assert(gguf_file_result(*files, Err(e)));
            Err(e)
        },
        Ok(Some(file)) => {
            assert(gguf_file_result(*files, Ok(Some(file))));
            Ok(ModelSource::Gguf { file })
        },
        Ok(None) => {
            assert(gguf_file_result(*files, Ok(None)));
            let s = resolve_safetensors_files(files);
            match s {
                Ok(v) => {
                    assert(safetensors_result(*files, Ok(v)));
                    Ok(ModelSource::Safetensors { files: v })
                },
                Err(e) => {
                    assert(safetensors_result(*files, Err(e)));
                    Err(e)
                },
            }
        },
    }
}

/// An architecture name the engine accepts as Llama-like.
pub open spec fn is_llama_like(arch: Seq<char>) -> bool {
    ||| arch == "LlamaForCausalLM"@
    ||| arch == "MistralForCausalLM"@
    ||| first_occurrence(encode_utf8(arch), encode_utf8("Llama"@)) is Some
    ||| first_occurrence(encode_utf8(arch), encode_utf8("TinyLlama"@)) is Some
}

/// The architecture names separated by `", "`.
pub open spec fn joined_names(names: Seq<Seq<char>>) -> Seq<char>
    decreases names.len(),
{
    if names.len() == 0 {
        Seq::empty()
    } else if names.len() == 1 {
        names[0]
    } else {
        joined_names(names.drop_last()) + ", "@ + names.last()
    }
}

/// `r` is what checking the architectures gives: `Ok` when none is named or one
/// is Llama-like, otherwise the unsupported-architecture error naming them all.
pub open spec fn architecture_check_result(architectures: Seq<String>, r: Result<(), WaxError>) -> bool {
    &&& texts(architectures).len() == 0 || (exists|k: int|
        0 <= k < architectures.len() && is_llama_like(#[trigger] architectures[k]@)) ==> r is Ok
    &&& !(texts(architectures).len() == 0 || (exists|k: int|
        0 <= k < architectures.len() && is_llama_like(#[trigger] architectures[k]@)))
        ==> (r matches Err(WaxError::UnsupportedArchitecture { architecture }) && architecture@
        == joined_names(texts(architectures)))
}

/// The configuration's architectures are acceptable: none is named, or one of
/// them is Llama-like.
pub fn validate_architectures(architectures: &[String]) -> (r: Result<(), WaxError>)
    ensures
        architecture_check_result(architectures@, r),
{
    if architectures.len() == 0 {
        return Ok(());
    }
    let mut k: usize = 0;
    while k < architectures.len()
        invariant
            k <= architectures@.len(),
            forall|j: int| 0 <= j < k ==> !is_llama_like(#[trigger] architectures@[j]@),
        decreases architectures@.len() - k,
    {
        let arch = architectures[k].as_str();
        if same_text(arch, "LlamaForCausalLM") || same_text(arch, "MistralForCausalLM")
            || str_contains(arch, "Llama") || str_contains(arch, "TinyLlama") {
            return Ok(());
        }
        k = k + 1;
    }
    let mut joined = String::new();
    let mut i: usize = 0;
    while i < architectures.len()
        invariant
            i <= architectures@.len(),
            joined@ == joined_names(texts(architectures@).take(i as int)),
        decreases architectures@.len() - i,
    {
        proof {
            assert(texts(architectures@).take(i + 1).drop_last() =~= texts(architectures@).take(
                i as int,
            ));
        }
        if i > 0 {
            joined.append(", ");
        }
        joined.append(architectures[i].as_str());
        proof {
            if i == 0 {
                assert(joined@ =~= texts(architectures@).take(1)[0]);
            }
        }
        i = i + 1;
    }
    proof {
        assert(texts(architectures@).take(architectures@.len() as int) =~= texts(architectures@));
    }
    Err(WaxError::UnsupportedArchitecture { architecture: joined })
}

/// The first missing path is one of the paths and is not a regular file; when
/// there is none, every path is a regular file.
proof fn lemma_first_missing(files: ModelFiles, paths: Seq<Seq<char>>)
    ensures
        match first_missing(files, paths) {
            Some(p) => paths.contains(p) && !lists_file(files, p),
            None => forall|i: int| 0 <= i < paths.len() ==> lists_file(files, #[trigger] paths[i]),
        },
    decreases paths.len(),
{
    if paths.len() > 0 && lists_file(files, paths[0]) {
        let rest = paths.drop_first();
        lemma_first_missing(files, rest);
        match first_missing(files, rest) {
            Some(p) => {
                let j = choose|j: int| 0 <= j < rest.len() && rest[j] == p;
                assert(paths[j + 1] == p);
            },
            None => {
                assert forall|i: int| 0 <= i < paths.len() implies lists_file(
                    files,
                    #[trigger] paths[i],
                ) by {
                    if i > 0 {
                        assert(paths[i] == rest[i - 1]);
                    }
                }
            },
        }
    } else if paths.len() > 0 {
        assert(paths[0] == paths[0]);
    }
}

/// Law: the weight files of an indexed safetensors folder all exist. When the
/// shard list resolves, every file in it is a regular file of the folder; a
/// missing-file error names a file the index lists that is not a regular file.
pub proof fn law_indexed_shards_exist(
    files: ModelFiles,
    index_path: Seq<char>,
    r: Result<Vec<String>, WaxError>,
)
    requires
        indexed_result(files, index_path, r),
    ensures
        r matches Ok(paths) ==> forall|i: int|
            0 <= i < paths@.len() ==> lists_file(files, (#[trigger] paths@[i])@),
        r matches Err(WaxError::MissingModelFile(p)) ==> !lists_file(files, p@),
{
    let listed = choose|listed: Result<Vec<String>, WaxError>|
        {
            &&& shard_list_result(files, index_path, listed)
            &&& match listed {
                Err(e) => r == Err::<Vec<String>, WaxError>(e),
                Ok(paths) => match first_missing(files, texts(paths@)) {
                    Some(p) => r matches Err(WaxError::MissingModelFile(m)) && m@ == p,
                    None => r == Ok::<Vec<String>, WaxError>(paths),
                },
            }
        };
    match listed {
        Err(e) => {
            assert(!(e is MissingModelFile));
        },
        Ok(paths) => {
            lemma_first_missing(files, texts(paths@));
            if first_missing(files, texts(paths@)) is None {
                assert forall|i: int| 0 <= i < paths@.len() implies lists_file(
                    files,
                    (#[trigger] paths@[i])@,
                ) by {
                    assert(texts(paths@)[i] == paths@[i]@);
                }
            }
        },
    }
}

/// Law: every weight file a safetensors folder resolves to is a regular file of
/// the folder (the single `model.safetensors`, or each shard its index names).
pub proof fn law_safetensors_files_exist(files: ModelFiles, r: Result<Vec<String>, WaxError>)
    requires
        safetensors_result(files, r),
    ensures
        r matches Ok(paths) ==> forall|i: int|
            0 <= i < paths@.len() ==> lists_file(files, (#[trigger] paths@[i])@),
{
    let index = under(files, "model.safetensors.index.json"@);
    if lists_file(files, index) {
        law_indexed_shards_exist(files, index, r);
    } else if let Ok(paths) = r {
        let single = under(files, "model.safetensors"@);
        assert(texts(paths@) == seq![single]);
        assert forall|i: int| 0 <= i < paths@.len() implies lists_file(
            files,
            (#[trigger] paths@[i])@,
        ) by {
            assert(texts(paths@).len() == paths@.len());
            assert(texts(paths@)[i] == paths@[i]@);
            assert(seq![single][i] == single);
        }
    }
}

/// Law: without `weights.npz` and without any `weights.*` entry, a folder is
/// taken for MLX only when its `config.json` text mentions `mlx`: a sharded
/// Hugging Face folder whose configuration does not is never MLX.
pub proof fn law_mlx_needs_mlx_config(files: ModelFiles, r: Result<ModelSource, WaxError>)
    requires
        source_result(files, r),
        !lists_file(files, under(files, "weights.npz"@)),
        files.entries matches Ok(es) ==> forall|k: int|
            0 <= k < es@.len() ==> !has_prefix(
                encode_utf8((#[trigger] es@[k]).name@),
                encode_utf8("weights."@),
            ),
        match files.config_text {
            Some(c) => first_occurrence(encode_utf8(c@), encode_utf8("mlx"@)) is None,
            None => true,
        },
    ensures
        !(r matches Ok(ModelSource::Mlx { .. })),
{
    if files.entries is Ok {
        let es = files.entries->Ok_0;
        assert forall|k: int| 0 <= k < es@.len() implies !is_mlx_shard(files, #[trigger] es@[k]) by {
            assert(!has_prefix(encode_utf8(es@[k].name@), encode_utf8("weights."@)));
        }
    }
    assert(!has_mlx_shards(files));
    assert(!looks_like_mlx(files));
}

/// Law: a folder with a safetensors index whose `config.json` text mentions both
/// `"model_type"` and `mlx` is taken for MLX (unless the path is a `.gguf` file).
pub proof fn law_mlx_config_is_mlx(files: ModelFiles, r: Result<ModelSource, WaxError>)
    requires
        source_result(files, r),
        !(files.is_file && has_extension(files.path@, "gguf"@)),
        lists_file(files, under(files, "model.safetensors.index.json"@)),
        files.config_text matches Some(c) && first_occurrence(
            encode_utf8(c@),
            encode_utf8("\"model_type\""@),
        ) is Some && first_occurrence(encode_utf8(c@), encode_utf8("mlx"@)) is Some,
    ensures
        r matches Ok(ModelSource::Mlx { path }) && path@ == files.path@,
{
}

/// `LlamaForCausalLM` has `Llama` in it.
proof fn lemma_llama_name_has_llama()
    ensures
        first_occurrence(encode_utf8("LlamaForCausalLM"@), encode_utf8("Llama"@)) is Some,
{
    reveal_strlit("LlamaForCausalLM");
    reveal_strlit("Llama");
    reveal_strlit("ForCausalLM");
    let b = encode_utf8("LlamaForCausalLM"@);
    let l = encode_utf8("Llama"@);
    assert("Llama"@ + "ForCausalLM"@ =~= "LlamaForCausalLM"@);
    lemma_encode_concat("Llama"@, "ForCausalLM"@);
    assert(b.subrange(0, l.len() as int) =~= l);
    assert(occurs_at(b, l, 0));
    lemma_first_occurrence(b, l);
}

/// Text in which `TinyLlama` occurs also has `Llama` in it.
proof fn lemma_tiny_llama_has_llama(a: Seq<char>)
    requires
        first_occurrence(encode_utf8(a), encode_utf8("TinyLlama"@)) is Some,
    ensures
        first_occurrence(encode_utf8(a), encode_utf8("Llama"@)) is Some,
{
    reveal_strlit("TinyLlama");
    reveal_strlit("Llama");
    reveal_strlit("Tiny");
    let b = encode_utf8(a);
    let tl = encode_utf8("TinyLlama"@);
    let l = encode_utf8("Llama"@);
    let t = encode_utf8("Tiny"@);
    assert("Tiny"@ + "Llama"@ =~= "TinyLlama"@);
    lemma_encode_concat("Tiny"@, "Llama"@);
    assert(t.len() == 4) by {
        reveal_with_fuel(encode_utf8, 5);
    }
    lemma_first_occurrence(b, tl);
    let i = first_occurrence(b, tl)->0;
    assert(b.subrange(i + 4, i + 4 + l.len()) =~= tl.subrange(4, tl.len() as int));
    assert(tl.subrange(4, tl.len() as int) =~= l);
    assert(occurs_at(b, l, i + 4));
    lemma_first_occurrence(b, l);
}

/// Law: a configuration naming no architecture, or naming one whose name
/// contains `Llama` or is `MistralForCausalLM`, is accepted; one whose names all
/// lack both is refused as unsupported, and a single refused name is reported
/// as it is.
pub proof fn law_architecture_check(architectures: Seq<String>, r: Result<(), WaxError>)
    requires
        architecture_check_result(architectures, r),
    ensures
        architectures.len() == 0 ==> r is Ok,
        (exists|k: int|
            0 <= k < architectures.len() && (first_occurrence(
                encode_utf8((#[trigger] architectures[k])@),
                encode_utf8("Llama"@),
            ) is Some || architectures[k]@ == "MistralForCausalLM"@)) ==> r is Ok,
        architectures.len() > 0 && (forall|k: int|
            0 <= k < architectures.len() ==> first_occurrence(
                encode_utf8((#[trigger] architectures[k])@),
                encode_utf8("Llama"@),
            ) is None && architectures[k]@ != "MistralForCausalLM"@) ==> r matches Err(
            WaxError::UnsupportedArchitecture { .. },
        ),
        architectures.len() == 1 && r is Err ==> (r matches Err(
            WaxError::UnsupportedArchitecture { architecture },
        ) && architecture@ == architectures[0]@),
{
    if exists|k: int|
        0 <= k < architectures.len() && (first_occurrence(
            encode_utf8((#[trigger] architectures[k])@),
            encode_utf8("Llama"@),
        ) is Some || architectures[k]@ == "MistralForCausalLM"@) {
        let k = choose|k: int|
            0 <= k < architectures.len() && (first_occurrence(
                encode_utf8((#[trigger] architectures[k])@),
                encode_utf8("Llama"@),
            ) is Some || architectures[k]@ == "MistralForCausalLM"@);
        assert(is_llama_like(architectures[k]@));
    }
    if architectures.len() > 0 && (forall|k: int|
        0 <= k < architectures.len() ==> first_occurrence(
            encode_utf8((#[trigger] architectures[k])@),
            encode_utf8("Llama"@),
        ) is None && architectures[k]@ != "MistralForCausalLM"@) {
        assert forall|k: int| 0 <= k < architectures.len() implies !is_llama_like(
            #[trigger] architectures[k]@,
        ) by {
            let a = architectures[k]@;
            if a == "LlamaForCausalLM"@ {
                lemma_llama_name_has_llama();
            }
            if first_occurrence(encode_utf8(a), encode_utf8("TinyLlama"@)) is Some {
                lemma_tiny_llama_has_llama(a);
            }
        }
    }
    if architectures.len() == 1 {
        assert(texts(architectures).len() == 1);
        assert(texts(architectures)[0] == architectures[0]@);
    }
}

/// The GGUF entries are the entries whose path under the model path has the
/// `gguf` extension; two such entries give at least two.
proof fn lemma_gguf_entries(files: ModelFiles, es: Seq<DirEntry>)
    ensures
        forall|i: int|
            0 <= i < gguf_entries(files, es).len() ==> exists|k: int|
                0 <= k < es.len() && #[trigger] gguf_entries(files, es)[i] == under(
                    files,
                    es[k].name@,
                ) && has_extension(gguf_entries(files, es)[i], "gguf"@),
        forall|k: int|
            0 <= k < es.len() && has_extension(under(files, (#[trigger] es[k]).name@), "gguf"@)
                ==> gguf_entries(files, es).len() >= 1,
        forall|k1: int, k2: int|
            0 <= k1 < k2 < es.len() && has_extension(under(files, (#[trigger] es[k1]).name@), "gguf"@)
                && has_extension(under(files, (#[trigger] es[k2]).name@), "gguf"@)
                ==> gguf_entries(files, es).len() >= 2,
    decreases es.len(),
{
    if es.len() > 0 {
        let rest = es.drop_last();
        lemma_gguf_entries(files, rest);
        let g = gguf_entries(files, es);
        let gr = gguf_entries(files, rest);
        let last = es.len() - 1;
        assert(es[last] == es.last());
        assert forall|k: int| 0 <= k < rest.len() implies #[trigger] rest[k] == es[k] by {}
        assert forall|i: int| 0 <= i < g.len() implies exists|k: int|
            0 <= k < es.len() && #[trigger] g[i] == under(files, es[k].name@) && has_extension(
                g[i],
                "gguf"@,
            ) by {
            if i < gr.len() {
                assert(g[i] == gr[i]);
                let k = choose|k: int|
                    0 <= k < rest.len() && gr[i] == under(files, rest[k].name@) && has_extension(
                        gr[i],
                        "gguf"@,
                    );
                assert(es[k] == rest[k]);
            } else {
                assert(g[i] == under(files, es[last].name@));
            }
        }
        assert forall|k: int|
            0 <= k < es.len() && has_extension(under(files, (#[trigger] es[k]).name@), "gguf"@)
                implies g.len() >= 1 by {
            if k < last {
                assert(rest[k] == es[k]);
            }
        }
        assert forall|k1: int, k2: int|
            0 <= k1 < k2 < es.len() && has_extension(under(files, (#[trigger] es[k1]).name@), "gguf"@)
                && has_extension(under(files, (#[trigger] es[k2]).name@), "gguf"@)
                implies g.len() >= 2 by {
            assert(rest[k1] == es[k1]);
            if k2 < last {
                assert(rest[k2] == es[k2]);
            }
        }
    }
}

/// Law: a folder's `model.gguf` is its GGUF file whenever it is there; otherwise
/// the GGUF file is the only entry with the `gguf` extension, no GGUF file when
/// there is none, and two such entries are refused as ambiguous.
pub proof fn law_gguf_choice(files: ModelFiles, r: Result<Option<String>, WaxError>)
    requires
        gguf_file_result(files, r),
    ensures
        lists_file(files, under(files, "model.gguf"@)) ==> (r matches Ok(Some(f)) && f@ == under(
            files,
            "model.gguf"@,
        )),
        !lists_file(files, under(files, "model.gguf"@)) && r is Ok && r->Ok_0 is Some ==> (
        has_extension(r->Ok_0->Some_0@, "gguf"@) && files.entries is Ok && exists|k: int|
            0 <= k < files.entries->Ok_0@.len() && r->Ok_0->Some_0@ == under(
                files,
                (#[trigger] files.entries->Ok_0@[k]).name@,
            )),
        !lists_file(files, under(files, "model.gguf"@)) && files.entries is Ok && (forall|k: int|
            0 <= k < files.entries->Ok_0@.len() ==> !has_extension(
                under(files, (#[trigger] files.entries->Ok_0@[k]).name@),
                "gguf"@,
            )) ==> r == Ok::<Option<String>, WaxError>(None),
        !lists_file(files, under(files, "model.gguf"@)) && files.entries is Ok && (exists|
            k1: int,
            k2: int,
        |
            0 <= k1 < k2 < files.entries->Ok_0@.len() && has_extension(
                under(files, (#[trigger] files.entries->Ok_0@[k1]).name@),
                "gguf"@,
            ) && has_extension(under(files, (#[trigger] files.entries->Ok_0@[k2]).name@), "gguf"@))
            ==> (r matches Err(WaxError::InvalidModelFolder { .. })),
{
    if files.entries is Ok {
        let es = files.entries->Ok_0;
        lemma_gguf_entries(files, es@);
        let g = gguf_entries(files, es@);
        if !lists_file(files, under(files, "model.gguf"@)) {
            if g.len() == 1 {
                assert(g[0] == g[0]);
            }
            if g.len() > 0 {
                assert(g[0] == g[0]);
            }
        }
    }
}

} // verus!
