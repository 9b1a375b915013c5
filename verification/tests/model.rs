use wgpu_3d_viewer::model::model_format;

/// The extension of a file name: what follows its last dot.
fn extension(file_name: &str) -> Vec<char> {
    file_name.rsplit('.').next().unwrap_or("").chars().collect()
}

#[test]
fn model_test_unsupported_format() {
    // A file named `test.unsupported` has no model format: loading it fails
    // with "Unsupported model format".
    assert_eq!(model_format(&extension("test.unsupported")), None);
}

#[test]
fn tests_test_unsupported_format() {
    assert_eq!(model_format(&extension("test.unsupported")), None);
    assert!(model_format(&extension("test.obj")).is_some());
}
