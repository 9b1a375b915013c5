use wgpu_3d_viewer::texture::{calculate_padded_bytes_per_row, copy_texture_data};

#[test]
fn padded_rows_round_up_to_256() {
    assert_eq!(calculate_padded_bytes_per_row(0), 0);
    assert_eq!(calculate_padded_bytes_per_row(1), 256);
    assert_eq!(calculate_padded_bytes_per_row(64), 256);
    assert_eq!(calculate_padded_bytes_per_row(65), 512);
    assert_eq!(calculate_padded_bytes_per_row(512), 2048);
    assert_eq!(calculate_padded_bytes_per_row(1000), 4096);
}

#[test]
fn copy_pads_each_row() {
    // 2 x 3 image, 8 bytes per row, copied into rows of 12 bytes.
    let data: Vec<u8> = (1..=24).collect();
    let out = copy_texture_data(&data, (2, 3), 12);
    assert_eq!(out.len(), 36);
    assert_eq!(&out[0..8], &data[0..8]);
    assert_eq!(&out[8..12], &[0, 0, 0, 0]);
    assert_eq!(&out[12..20], &data[8..16]);
    assert_eq!(&out[24..32], &data[16..24]);
    assert_eq!(&out[32..36], &[0, 0, 0, 0]);
}

#[test]
fn copy_stops_at_short_source() {
    // Only one full row of source data: the second row stays zero.
    let data: Vec<u8> = vec![9; 12];
    let out = copy_texture_data(&data, (2, 2), 256);
    assert_eq!(out.len(), 512);
    assert!(out[0..8].iter().all(|&b| b == 9));
    assert!(out[8..].iter().all(|&b| b == 0));
}

#[test]
fn copy_with_padded_pitch() {
    let width = 3u32;
    let pitch = calculate_padded_bytes_per_row(width);
    let data: Vec<u8> = (0..(width * 4 * 2) as u8).collect();
    let out = copy_texture_data(&data, (width, 2), pitch);
    assert_eq!(out.len(), 512);
    assert_eq!(&out[0..12], &data[0..12]);
    assert_eq!(&out[256..268], &data[12..24]);
    assert!(out[12..256].iter().all(|&b| b == 0));
}
