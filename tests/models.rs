use subtidal::models::{
    join_path, models_dir, models_dir_in, moonshine_model_dir, moonshine_model_files,
    moonshine_models_present, moonshine_models_present_in, nemotron_model_dir,
    nemotron_model_files, nemotron_models_present_in,
};

#[test]
fn test_models_dir_is_valid_path() {
    let dir = models_dir();
    assert!(std::path::Path::new(&dir).components().count() > 0);
    assert!(dir.len() > 0);
}

#[test]
fn test_nemotron_model_dir_contains_models_dir() {
    let nemotron_dir = nemotron_model_dir();
    let models_base = models_dir();
    assert!(nemotron_dir.starts_with(&models_base));
}

#[test]
fn test_moonshine_model_dir_contains_models_dir() {
    let moonshine_dir = moonshine_model_dir();
    let models_base = models_dir();
    assert!(moonshine_dir.starts_with(&models_base));
}

#[test]
fn test_nemotron_model_files_have_correct_names() {
    let files = nemotron_model_files();
    assert_eq!(files.len(), 4);
    assert!(files[0].ends_with("encoder.onnx"));
    assert!(files[1].ends_with("encoder.onnx.data"));
    assert!(files[2].ends_with("decoder_joint.onnx"));
    assert!(files[3].ends_with("tokenizer.model"));
}

#[test]
fn test_moonshine_model_files_have_correct_names() {
    let files = moonshine_model_files();
    assert_eq!(files.len(), 3);
    assert!(files[0].ends_with("encoder_model_quantized.onnx"));
    assert!(files[1].ends_with("decoder_model_merged_quantized.onnx"));
    assert!(files[2].ends_with("tokenizer.json"));
}

#[test]
fn test_nemotron_models_present_missing_file_returns_false() {
    let tempdir = tempfile::tempdir().unwrap();
    assert!(!nemotron_models_present_in(tempdir.path().to_str().unwrap()));
}

#[test]
fn test_moonshine_models_present_nonexistent_returns_false() {
    assert!(!moonshine_models_present());
}

#[test]
fn moonshine_missing_in_empty_dir() {
    let tempdir = tempfile::tempdir().unwrap();
    assert!(!moonshine_models_present_in(tempdir.path().to_str().unwrap()));
}

#[test]
fn join_path_adds_one_separator() {
    assert_eq!(join_path("/data", "models"), "/data/models");
    assert_eq!(join_path("/data/", "models"), "/data/models");
    assert_eq!(join_path("", "models"), "models");
    assert_eq!(models_dir_in("/home/u/.local/share"), "/home/u/.local/share/subtidal/models");
}

#[test]
fn model_files_live_in_model_dirs() {
    let files = nemotron_model_files();
    assert_eq!(files[0], format!("{}/encoder.onnx", nemotron_model_dir()));
    let files = moonshine_model_files();
    assert_eq!(files[2], format!("{}/tokenizer.json", moonshine_model_dir()));
}

/// Creates a file or directory named exactly `name` in `dir`.
fn named(name: &str) -> tempfile::Builder<'_, '_> {
    let mut b = tempfile::Builder::new();
    b.prefix(name).rand_bytes(0);
    b
}

#[test]
fn test_nemotron_models_present_when_files_exist() {
    let tempdir = tempfile::tempdir().unwrap();
    let model_dir = named("nemotron").tempdir_in(tempdir.path()).unwrap();
    let _files: Vec<_> = ["encoder.onnx", "encoder.onnx.data", "decoder_joint.onnx", "tokenizer.model"]
        .iter()
        .map(|f| named(f).tempfile_in(model_dir.path()).unwrap())
        .collect();
    assert!(
        nemotron_models_present_in(tempdir.path().to_str().unwrap()),
        "nemotron_models_present_in should return true when all files exist"
    );
}

#[test]
fn test_moonshine_models_present_when_files_exist() {
    let tempdir = tempfile::tempdir().unwrap();
    let model_dir = named("moonshine").tempdir_in(tempdir.path()).unwrap();
    let _files: Vec<_> = [
        "encoder_model_quantized.onnx",
        "decoder_model_merged_quantized.onnx",
        "tokenizer.json",
    ]
    .iter()
    .map(|f| named(f).tempfile_in(model_dir.path()).unwrap())
    .collect();
    assert!(
        moonshine_models_present_in(tempdir.path().to_str().unwrap()),
        "moonshine_models_present_in should return true when all files exist"
    );
}

#[test]
fn nemotron_incomplete_models_are_not_present() {
    let tempdir = tempfile::tempdir().unwrap();
    let model_dir = named("nemotron").tempdir_in(tempdir.path()).unwrap();
    let _files: Vec<_> = ["encoder.onnx", "encoder.onnx.data", "decoder_joint.onnx"]
        .iter()
        .map(|f| named(f).tempfile_in(model_dir.path()).unwrap())
        .collect();
    assert!(!nemotron_models_present_in(tempdir.path().to_str().unwrap()));
}
