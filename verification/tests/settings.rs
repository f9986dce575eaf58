use post_process::settings::{CameraId, PostProcessSettings, SETTINGS_SIZE};

fn record(pixel_size: f32, edge_threshold: f32, color_depth: f32, effect_strength: f32) -> PostProcessSettings {
    PostProcessSettings::new(
        pixel_size.to_bits(),
        edge_threshold.to_bits(),
        color_depth.to_bits(),
        effect_strength.to_bits(),
    )
}

#[test]
fn settings_keep_the_given_values() {
    let s = record(512.0, 0.5, 16.0, 1.0);
    assert_eq!(f32::from_bits(s.pixel_size), 512.0);
    assert_eq!(f32::from_bits(s.edge_threshold), 0.5);
    assert_eq!(f32::from_bits(s.color_depth), 16.0);
    assert_eq!(f32::from_bits(s.effect_strength), 1.0);
}

#[test]
fn layout_is_sixteen_bytes() {
    assert_eq!(SETTINGS_SIZE, 16);
    assert_eq!(record(512.0, 0.5, 16.0, 1.0).to_bytes().len(), 16);
}

#[test]
fn layout_is_four_little_endian_floats_in_field_order() {
    let bytes = record(512.0, 0.5, 16.0, 1.0).to_bytes();
    let mut expected: Vec<u8> = Vec::new();
    expected.extend_from_slice(&512.0f32.to_le_bytes());
    expected.extend_from_slice(&0.5f32.to_le_bytes());
    expected.extend_from_slice(&16.0f32.to_le_bytes());
    expected.extend_from_slice(&1.0f32.to_le_bytes());
    assert_eq!(bytes, expected);
}

#[test]
fn layout_of_known_bit_patterns() {
    let s = PostProcessSettings::new(0x0403_0201, 0x0807_0605, 0x0c0b_0a09, 0x100f_0e0d);
    assert_eq!(s.to_bytes(), vec![1, 2, 3, 4, 5, 6, 7, 8, 9, 10, 11, 12, 13, 14, 15, 16]);
}

#[test]
fn layout_of_extreme_words() {
    let s = PostProcessSettings::new(0, u32::MAX, 0x8000_0000, 0x0000_00ff);
    assert_eq!(
        s.to_bytes(),
        vec![0, 0, 0, 0, 255, 255, 255, 255, 0, 0, 0, 128, 255, 0, 0, 0]
    );
}

#[test]
fn write_into_appends() {
    let mut buf: Vec<u8> = vec![9, 9];
    record(1.0, 0.0, 2.0, 0.25).write_into(&mut buf);
    assert_eq!(buf.len(), 18);
    assert_eq!(&buf[..2], &[9, 9]);
    assert_eq!(&buf[2..6], &1.0f32.to_le_bytes());
    assert_eq!(&buf[14..18], &0.25f32.to_le_bytes());
}

#[test]
fn layout_round_trips() {
    let s = record(512.0, 0.5, 16.0, 1.0);
    assert_eq!(PostProcessSettings::from_bytes(&s.to_bytes()), Some(s));
    let odd = PostProcessSettings::new(0xdead_beef, 0x7fc0_0000, 0xffff_ffff, 1);
    assert_eq!(PostProcessSettings::from_bytes(&odd.to_bytes()), Some(odd));
}

#[test]
fn from_bytes_reads_little_endian() {
    let bytes: Vec<u8> = vec![1, 2, 3, 4, 5, 6, 7, 8, 9, 10, 11, 12, 13, 14, 15, 16];
    let s = PostProcessSettings::from_bytes(&bytes).unwrap();
    assert_eq!(s.pixel_size, 0x0403_0201);
    assert_eq!(s.edge_threshold, 0x0807_0605);
    assert_eq!(s.color_depth, 0x0c0b_0a09);
    assert_eq!(s.effect_strength, 0x100f_0e0d);
}

#[test]
fn from_bytes_wants_exactly_sixteen() {
    assert_eq!(PostProcessSettings::from_bytes(&[]), None);
    assert_eq!(PostProcessSettings::from_bytes(&[0u8; 15]), None);
    assert_eq!(PostProcessSettings::from_bytes(&[0u8; 17]), None);
    assert!(PostProcessSettings::from_bytes(&[0u8; 16]).is_some());
}

#[test]
fn out_of_range_parameters_are_laid_out_like_any_other() {
    let s = record(-4.0, 7.0, 0.0, f32::NAN);
    let bytes = s.to_bytes();
    assert_eq!(&bytes[0..4], &(-4.0f32).to_le_bytes());
    assert_eq!(&bytes[4..8], &7.0f32.to_le_bytes());
    assert_eq!(&bytes[8..12], &0.0f32.to_le_bytes());
    assert_eq!(PostProcessSettings::from_bytes(&bytes), Some(s));
}

#[test]
fn zero_strength_is_a_record_like_any_other() {
    let s = record(512.0, 0.5, 16.0, 0.0);
    assert_eq!(s.effect_strength, 0);
    assert_eq!(&s.to_bytes()[12..16], &[0, 0, 0, 0]);
}

#[test]
fn camera_ids_compare_by_value() {
    assert_eq!(CameraId(3), CameraId(3));
    assert_ne!(CameraId(3), CameraId(4));
}
