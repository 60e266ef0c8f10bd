use bilateral::samples::Image;
use bilateral::samples::ImageError;
use bilateral::samples::clamp_coord;
use bilateral::samples::from_bytes;
use bilateral::samples::get_color_triplet;

#[test]
fn from_bytes_accepts_matching_shape() {
    let bytes = vec![0u8, 255, 128, 1, 2, 3];
    let img = from_bytes(2, 1, &bytes).unwrap();
    assert_eq!(img.height, 2);
    assert_eq!(img.width, 1);
    assert_eq!(img.data.len(), 6);
    assert_eq!(img.data[0], 0);
    assert_eq!(img.data[1], 65536);
    assert_eq!(img.data[2], (128 * 65536 + 254) / 255);
}

#[test]
fn from_bytes_rejects_wrong_byte_count() {
    let bytes = vec![0u8; 7];
    assert!(matches!(from_bytes(2, 1, &bytes), Err(ImageError::ShapeMismatch)));
    let empty: Vec<u8> = vec![];
    assert!(matches!(from_bytes(1, 1, &empty), Err(ImageError::ShapeMismatch)));
}

#[test]
fn byte_round_trip_is_identity() {
    let mut bytes: Vec<u8> = Vec::new();
    for b in 0..=255u8 {
        bytes.push(b);
        bytes.push(255 - b);
        bytes.push(b / 2);
    }
    let img = from_bytes(256, 1, &bytes).unwrap();
    assert_eq!(img.to_bytes(), bytes);
}

#[test]
fn to_bytes_truncates() {
    // Scaling by 255 truncates toward zero: 0.5 gives 127, not 128.
    let img = Image { height: 1, width: 1, data: vec![32768u64, 65536, 65535] };
    let bytes = img.to_bytes();
    assert_eq!(bytes, vec![127u8, 255, 254]);
}

#[test]
fn sampler_reads_row_major_triplets() {
    let data = vec![
        10u64, 11, 12, 20, 21, 22,  // row 0: pixels (0,0) and (1,0)
        30, 31, 32, 40, 41, 42,  // row 1: pixels (0,1) and (1,1)
    ];
    let img = Image { height: 2, width: 2, data };
    let p = get_color_triplet(&img, 1, 0);
    assert_eq!((p.r, p.g, p.b), (20, 21, 22));
    let p = get_color_triplet(&img, 0, 1);
    assert_eq!((p.r, p.g, p.b), (30, 31, 32));
}

#[test]
fn clamp_replicates_edges() {
    assert_eq!(clamp_coord(-5, 10), 0);
    assert_eq!(clamp_coord(0, 10), 0);
    assert_eq!(clamp_coord(7, 10), 7);
    assert_eq!(clamp_coord(10, 10), 10);
    assert_eq!(clamp_coord(11, 10), 10);
    assert_eq!(clamp_coord(3, 0), 0);
}
