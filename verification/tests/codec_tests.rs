use splatgen::cloud::{GaussianCloud, Float3, Quat, Color3};

fn f3(x: f32, y: f32, z: f32) -> Float3 {
    Float3 { x: x.to_bits(), y: y.to_bits(), z: z.to_bits() }
}

fn q4(w: f32, x: f32, y: f32, z: f32) -> Quat {
    Quat { w: w.to_bits(), x: x.to_bits(), y: y.to_bits(), z: z.to_bits() }
}

fn c3(r: f32, g: f32, b: f32) -> Color3 {
    Color3 { r: (r * 255.0) as u8, g: (g * 255.0) as u8, b: (b * 255.0) as u8 }
}

fn two_point_cloud() -> GaussianCloud {
    let mut cloud = GaussianCloud::new();
    cloud.add_gaussian(
        f3(1.25, -2.5, 0.125),
        f3(0.5, 0.25, 0.75),
        q4(1.0, 0.0, 0.0, 0.0),
        c3(0.5, 0.25, 1.0),
        0.875f32.to_bits(),
    );
    cloud.add_gaussian(
        f3(-7.75, 3.0, 42.0),
        f3(1.5, 2.5, 3.5),
        q4(0.0, 1.0, 0.0, 0.0),
        c3(0.0, 1.0, 0.125),
        0.25f32.to_bits(),
    );
    cloud
}

#[test]
fn test_ply_export() {
    let mut cloud = GaussianCloud::new();
    cloud.add_gaussian(
        f3(0.0, 0.0, 0.0),
        f3(1.0, 1.0, 1.0),
        q4(1.0, 0.0, 0.0, 0.0),
        c3(1.0, 1.0, 1.0),
        1.0f32.to_bits(),
    );

    let ply = cloud.to_ply().unwrap();
    assert!(!ply.is_empty());
    assert!(ply.starts_with(b"ply\n"));
}

#[test]
fn test_header_declares_count_and_properties() {
    let ply = two_point_cloud().to_ply().unwrap();
    let text = String::from_utf8_lossy(&ply[..ply.len() - 2 * 59]).to_string();
    assert!(text.starts_with("ply\nformat binary_little_endian 1.0\nelement vertex 2\n"));
    assert!(text.contains("property float x\n"));
    assert!(text.contains("property uchar red\n"));
    assert!(text.contains("property float rot_3\n"));
    assert!(text.ends_with("end_header\n"));
    // Exactly two 59-byte records follow the header.
    let header_len = text.len();
    assert_eq!(ply.len(), header_len + 2 * 59);
}

#[test]
fn test_round_trip_two_points() {
    // Encode a cloud of two known points, decode it, and compare.
    let cloud = two_point_cloud();
    let ply = cloud.to_ply().unwrap();
    let back = GaussianCloud::from_ply(&ply).unwrap();

    assert_eq!(back.count, 2);
    for i in 0..2 {
        let orig = [
            f32::from_bits(cloud.positions[i].x),
            f32::from_bits(cloud.positions[i].y),
            f32::from_bits(cloud.positions[i].z),
        ];
        let got = [
            f32::from_bits(back.positions[i].x),
            f32::from_bits(back.positions[i].y),
            f32::from_bits(back.positions[i].z),
        ];
        for a in 0..3 {
            assert!((orig[a] - got[a]).abs() < 1e-6);
        }
    }
    // Scales, rotations and opacity survive exactly; colors within one
    // quantization step of the original fractions.
    assert_eq!(back.scales, cloud.scales);
    assert_eq!(back.rotations, cloud.rotations);
    assert_eq!(back.opacity, cloud.opacity);
    assert_eq!(back.colors, cloud.colors);
    for (orig_frac, got) in [(0.5f32, back.colors[0].r), (0.25, back.colors[0].g), (1.0, back.colors[0].b)] {
        let got_frac = got as f32 / 255.0;
        assert!((orig_frac - got_frac).abs() <= 1.0 / 255.0);
    }
    assert!(back.sh_coefficients.is_none());
    assert!(back.validate().is_ok());
}

#[test]
fn test_round_trip_drops_sh_coefficients() {
    let mut cloud = two_point_cloud();
    cloud.sh_coefficients = Some(vec![vec![1.0f32.to_bits()], vec![]]);
    let ply = cloud.to_ply().unwrap();
    let back = GaussianCloud::from_ply(&ply).unwrap();
    assert_eq!(back.count, 2);
    assert!(back.sh_coefficients.is_none());
}

#[test]
fn test_truncated_body_returns_fewer_points() {
    let cloud = two_point_cloud();
    let ply = cloud.to_ply().unwrap();
    // Cut the last record short: only one whole record remains.
    let cut = &ply[..ply.len() - 10];
    let back = GaussianCloud::from_ply(cut).unwrap();
    assert_eq!(back.count, 1);
    assert_eq!(back.positions[0], cloud.positions[0]);
    assert!(back.validate().is_ok());

    // Cut into the first record: nothing remains, still no error.
    let cut_all = &ply[..ply.len() - 2 * 59 + 3];
    let back2 = GaussianCloud::from_ply(cut_all).unwrap();
    assert_eq!(back2.count, 0);
}

#[test]
fn test_missing_end_header_is_an_error() {
    let err = GaussianCloud::from_ply(b"ply\nformat binary_little_endian 1.0\n").unwrap_err();
    assert_eq!(err.text(), "Invalid Gaussian cloud: No end_header found");
}

#[test]
fn test_missing_vertex_count_is_an_error() {
    let err = GaussianCloud::from_ply(b"ply\nproperty float x\nend_header\n").unwrap_err();
    assert_eq!(err.text(), "Invalid Gaussian cloud: No vertex count found");

    // A count that is not a number fails the same way.
    let err2 =
        GaussianCloud::from_ply(b"ply\nelement vertex soon\nend_header\n").unwrap_err();
    assert_eq!(err2.text(), "Invalid Gaussian cloud: No vertex count found");
}

#[test]
fn test_declared_count_caps_the_read() {
    // Header declares three vertices but the body holds only one record.
    let mut data = b"ply\nelement vertex 3\nend_header\n".to_vec();
    data.extend_from_slice(&[7u8; 59]);
    let back = GaussianCloud::from_ply(&data).unwrap();
    assert_eq!(back.count, 1);

    // And a declared zero reads nothing even when bytes follow.
    let mut data0 = b"ply\nelement vertex 0\nend_header\n".to_vec();
    data0.extend_from_slice(&[7u8; 118]);
    let back0 = GaussianCloud::from_ply(&data0).unwrap();
    assert_eq!(back0.count, 0);
}

#[test]
fn test_count_is_last_token_of_the_line() {
    // The count is the last whitespace-separated token of the line, even
    // with trailing blanks.
    let mut data = b"ply\nelement vertex  1 \nend_header\n".to_vec();
    data.extend_from_slice(&[0u8; 59]);
    let back = GaussianCloud::from_ply(&data).unwrap();
    assert_eq!(back.count, 1);

    // A count with a leading plus sign parses as the number.
    let mut plus = b"ply\nelement vertex +1\nend_header\n".to_vec();
    plus.extend_from_slice(&[0u8; 59]);
    let back_plus = GaussianCloud::from_ply(&plus).unwrap();
    assert_eq!(back_plus.count, 1);

    // Only the first matching line is consulted: a bad token there is not
    // rescued by a later, well-formed line.
    let err = GaussianCloud::from_ply(
        b"ply\nelement vertex x\nelement vertex 1\nend_header\n",
    )
    .unwrap_err();
    assert_eq!(err.text(), "Invalid Gaussian cloud: No vertex count found");
}

#[test]
fn test_empty_cloud_round_trips() {
    let cloud = GaussianCloud::new();
    let ply = cloud.to_ply().unwrap();
    let back = GaussianCloud::from_ply(&ply).unwrap();
    assert_eq!(back.count, 0);
    assert!(back.validate().is_ok());
}

#[test]
fn test_normals_are_written_as_zero() {
    let cloud = two_point_cloud();
    let ply = cloud.to_ply().unwrap();
    let body = &ply[ply.len() - 2 * 59..];
    // Bytes 12..24 of each record are the placeholder normal.
    for rec in 0..2 {
        assert_eq!(&body[rec * 59 + 12..rec * 59 + 24], &[0u8; 12]);
    }
}
