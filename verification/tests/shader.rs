use wgpu_3d_viewer::shader::{spirv_path, spirv_words, ShaderError, ShaderKind};

#[test]
fn spirv_paths_by_kind() {
    assert_eq!(spirv_path(ShaderKind::Vertex), Ok("src/vr/shaders/vertex.spv"));
    assert_eq!(spirv_path(ShaderKind::Fragment), Ok("src/vr/shaders/fragment.spv"));
    assert_eq!(spirv_path(ShaderKind::Other), Err(ShaderError::UnsupportedShaderKind));
}

#[test]
fn spirv_words_native_order() {
    let bytes = [0x03u8, 0x02, 0x23, 0x07, 0x00, 0x00, 0x01, 0x00, 0xAA];
    let words = spirv_words(&bytes);
    assert_eq!(words.len(), 2);
    assert_eq!(words[0], u32::from_ne_bytes([0x03, 0x02, 0x23, 0x07]));
    assert_eq!(words[1], u32::from_ne_bytes([0x00, 0x00, 0x01, 0x00]));
    assert_ne!(words[0], 0x03);
    assert!(spirv_words(&[1, 2, 3]).is_empty());
}
