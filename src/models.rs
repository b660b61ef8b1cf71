//! Where the recognition models live on disk, and whether they are there.
//!
//! Paths are handled as text; components are separated by `/`.

use vstd::prelude::*;

verus! {

/// `name` appended to the path `base` as one more component.
pub open spec fn path_join(base: Seq<char>, name: Seq<char>) -> Seq<char> {
    if base.len() == 0 {
        name
    } else if base.last() == '/' {
        base + name
    } else {
        base + seq!['/'] + name
    }
}

/// The models directory below the local data directory `base`.
pub open spec fn models_path_in(base: Seq<char>) -> Seq<char> {
    path_join(path_join(base, "subtidal"@), "models"@)
}

/// Relies on `dirs::config_dir`: the user's configuration directory, if the
/// environment names one; nothing is promised of its value.
#[verifier::external_body]
pub(crate) fn config_dir() -> Option<String> {
    match dirs::config_dir() {
        Some(p) => Some(p.to_string_lossy().into_owned()),
        None => None,
    }
}

/// Relies on `dirs::data_local_dir`: the user's local data directory, if the
/// environment names one; nothing is promised of its value.
#[verifier::external_body]
fn data_local_dir() -> Option<String> {
    match dirs::data_local_dir() {
        Some(p) => Some(p.to_string_lossy().into_owned()),
        None => None,
    }
}

/// Relies on `Path::exists`: whether the file system has an entry at `path`
/// right now; nothing is promised, as the answer depends on the disk.
#[verifier::external_body]
fn path_exists(path: &str) -> bool {
    std::path::Path::new(path).exists()
}

/// Appends `name` to the path `base` as one more component.
pub fn join_path(base: &str, name: &str) -> (r: String)
    ensures
        r@ == path_join(base@, name@),
{
    let n = base.unicode_len();
    if n == 0 {
        return String::from_str(name);
    }
    let mut r = String::from_str(base);
    if base.get_char(n - 1) != '/' {
        r.append("/");
        proof {
            reveal_strlit("/");
        }
    }
    r.append(name);
    proof {
        assert(base@.last() == base@[n - 1]);
    }
    r
}

/// The models directory below the local data directory `base`.
pub fn models_dir_in(base: &str) -> (r: String)
    ensures
        r@ == models_path_in(base@),
{
    let app = join_path(base, "subtidal");
    join_path(app.as_str(), "models")
}

/// The models directory: `subtidal/models` below the user's local data
/// directory, or below `.local/share` when there is none.
pub fn models_dir() -> (r: String)
    ensures
        exists|base: Seq<char>| r@ == models_path_in(base),
{
    let base = match data_local_dir() {
        Some(d) => d,
        None => String::from_str(".local/share"),
    };
    models_dir_in(base.as_str())
}

/// The Nemotron model directory: `nemotron` in the models directory.
pub fn nemotron_model_dir() -> (r: String)
    ensures
        exists|base: Seq<char>| r@ == path_join(models_path_in(base), "nemotron"@),
{
    let m = models_dir();
    join_path(m.as_str(), "nemotron")
}

/// The Moonshine model directory: `moonshine` in the models directory.
pub fn moonshine_model_dir() -> (r: String)
    ensures
        exists|base: Seq<char>| r@ == path_join(models_path_in(base), "moonshine"@),
{
    let m = models_dir();
    join_path(m.as_str(), "moonshine")
}

/// The four Nemotron model files in the model directory `dir`.
pub open spec fn nemotron_files(dir: Seq<char>) -> Seq<Seq<char>> {
    seq![
        path_join(dir, "encoder.onnx"@),
        path_join(dir, "encoder.onnx.data"@),
        path_join(dir, "decoder_joint.onnx"@),
        path_join(dir, "tokenizer.model"@),
    ]
}

/// The three Moonshine model files in the model directory `dir`.
pub open spec fn moonshine_files(dir: Seq<char>) -> Seq<Seq<char>> {
    seq![
        path_join(dir, "encoder_model_quantized.onnx"@),
        path_join(dir, "decoder_model_merged_quantized.onnx"@),
        path_join(dir, "tokenizer.json"@),
    ]
}

/// The view of each path in an array of paths.
pub open spec fn paths_view<const N: usize>(a: [String; N]) -> Seq<Seq<char>> {
    a@.map_values(|p: String| p@)
}

/// The Nemotron model files in the model directory `dir`.
pub fn nemotron_files_in(dir: &str) -> (r: [String; 4])
    ensures
        paths_view(r) == nemotron_files(dir@),
{
    let r = [
        join_path(dir, "encoder.onnx"),
        join_path(dir, "encoder.onnx.data"),
        join_path(dir, "decoder_joint.onnx"),
        join_path(dir, "tokenizer.model"),
    ];
    assert(paths_view(r) =~= nemotron_files(dir@));
    r
}

/// The Moonshine model files in the model directory `dir`.
pub fn moonshine_files_in(dir: &str) -> (r: [String; 3])
    ensures
        paths_view(r) == moonshine_files(dir@),
{
    let r = [
        join_path(dir, "encoder_model_quantized.onnx"),
        join_path(dir, "decoder_model_merged_quantized.onnx"),
        join_path(dir, "tokenizer.json"),
    ];
    assert(paths_view(r) =~= moonshine_files(dir@));
    r
}

/// Paths of the four Nemotron model files.
pub fn nemotron_model_files() -> (r: [String; 4])
    ensures
        exists|base: Seq<char>|
            paths_view(r) == nemotron_files(path_join(models_path_in(base), "nemotron"@)),
{
    let dir = nemotron_model_dir();
    nemotron_files_in(dir.as_str())
}

/// Paths of the three Moonshine model files.
pub fn moonshine_model_files() -> (r: [String; 3])
    ensures
        exists|base: Seq<char>|
            paths_view(r) == moonshine_files(path_join(models_path_in(base), "moonshine"@)),
{
    let dir = moonshine_model_dir();
    moonshine_files_in(dir.as_str())
}

/// Whether every path exists; stops at the first one missing.
fn all_exist(paths: &[String]) -> bool {
    let mut i: usize = 0;
    while i < paths.len()
        invariant
            i <= paths@.len(),
        decreases paths@.len() - i,
    {
        if !path_exists(paths[i].as_str()) {
            return false;
        }
        i = i + 1;
    }
    true
}

/// Whether all Nemotron model files are on disk below the models directory `dir`.
pub fn nemotron_models_present_in(dir: &str) -> bool {
    let model_dir = join_path(dir, "nemotron");
    let files = nemotron_files_in(model_dir.as_str());
    all_exist(&files)
}

/// Whether all Nemotron model files are on disk.
pub fn nemotron_models_present() -> bool {
    let dir = models_dir();
    nemotron_models_present_in(dir.as_str())
}

/// Whether all Moonshine model files are on disk below the models directory `dir`.
pub fn moonshine_models_present_in(dir: &str) -> bool {
    let model_dir = join_path(dir, "moonshine");
    let files = moonshine_files_in(model_dir.as_str());
    all_exist(&files)
}

/// Whether all Moonshine model files are on disk.
pub fn moonshine_models_present() -> bool {
    let dir = models_dir();
    moonshine_models_present_in(dir.as_str())
}

} // verus!
