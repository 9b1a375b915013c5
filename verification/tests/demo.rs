use wgpu_3d_viewer::demo::create_checkerboard_texture;

fn texel(data: &[u8], size: u32, x: u32, y: u32) -> &[u8] {
    let i = ((y * size + x) * 4) as usize;
    &data[i..i + 4]
}

#[test]
fn checkerboard_512() {
    let size = 512u32;
    let data = create_checkerboard_texture(size);
    assert_eq!(data.len(), (size * size * 4) as usize);
    assert_eq!(texel(&data, size, 0, 0), &[200, 200, 200, 255]);
    assert_eq!(texel(&data, size, 63, 63), &[200, 200, 200, 255]);
    assert_eq!(texel(&data, size, 64, 0), &[50, 50, 50, 255]);
    assert_eq!(texel(&data, size, 0, 64), &[50, 50, 50, 255]);
    assert_eq!(texel(&data, size, 64, 64), &[200, 200, 200, 255]);
    assert_eq!(texel(&data, size, 511, 0), &[50, 50, 50, 255]);
    assert_eq!(texel(&data, size, 511, 511), &[200, 200, 200, 255]);
}

#[test]
fn checkerboard_small_and_empty() {
    assert!(create_checkerboard_texture(0).is_empty());
    let data = create_checkerboard_texture(8);
    assert_eq!(data.len(), 256);
    for y in 0..8u32 {
        for x in 0..8u32 {
            let shade = if (x + y) % 2 == 0 { 200 } else { 50 };
            assert_eq!(texel(&data, 8, x, y), &[shade, shade, shade, 255]);
        }
    }
}
