use splatgen::cloud::{GaussianCloud, Float3, Quat, Color3};

fn f3(x: f32, y: f32, z: f32) -> Float3 {
    Float3 { x: x.to_bits(), y: y.to_bits(), z: z.to_bits() }
}

fn q4(w: f32, x: f32, y: f32, z: f32) -> Quat {
    Quat { w: w.to_bits(), x: x.to_bits(), y: y.to_bits(), z: z.to_bits() }
}

fn c3(r: f32, g: f32, b: f32) -> Color3 {
    Color3 { r: (r * 255.0) as u8, g: (g * 255.0) as u8, b: (b * 255.0) as u8 }
}

#[test]
fn test_gaussian_cloud_creation() {
    let mut cloud = GaussianCloud::new();

    cloud.add_gaussian(
        f3(0.0, 0.0, 0.0),
        f3(1.0, 1.0, 1.0),
        q4(1.0, 0.0, 0.0, 0.0),
        c3(1.0, 0.0, 0.0),
        1.0f32.to_bits(),
    );

    assert_eq!(cloud.count, 1);
    assert!(cloud.validate().is_ok());
}

#[test]
fn test_bounding_box() {
    let mut cloud = GaussianCloud::new();

    cloud.add_gaussian(
        f3(1.0, 2.0, 3.0),
        f3(0.1, 0.1, 0.1),
        q4(1.0, 0.0, 0.0, 0.0),
        c3(1.0, 1.0, 1.0),
        1.0f32.to_bits(),
    );
    cloud.add_gaussian(
        f3(-1.0, -2.0, -3.0),
        f3(0.1, 0.1, 0.1),
        q4(1.0, 0.0, 0.0, 0.0),
        c3(1.0, 1.0, 1.0),
        1.0f32.to_bits(),
    );

    let bounds = cloud.bounds();
    let min = [
        f32::from_bits(bounds.min.x),
        f32::from_bits(bounds.min.y),
        f32::from_bits(bounds.min.z),
    ];
    let max = [
        f32::from_bits(bounds.max.x),
        f32::from_bits(bounds.max.y),
        f32::from_bits(bounds.max.z),
    ];
    assert_eq!(min, [-1.0, -2.0, -3.0]);
    assert_eq!(max, [1.0, 2.0, 3.0]);
    let center = [
        (min[0] + max[0]) / 2.0,
        (min[1] + max[1]) / 2.0,
        (min[2] + max[2]) / 2.0,
    ];
    assert_eq!(center, [0.0, 0.0, 0.0]);
}

#[test]
fn test_bounds_empty_cloud_is_zero_box() {
    let cloud = GaussianCloud::new();
    let bounds = cloud.bounds();
    assert_eq!(bounds.min, Float3 { x: 0, y: 0, z: 0 });
    assert_eq!(bounds.max, Float3 { x: 0, y: 0, z: 0 });
}

#[test]
fn test_bounds_every_point_inside_and_attained() {
    let mut cloud = GaussianCloud::new();
    let pts = [
        [0.5f32, -0.25, 3.5],
        [-2.0, 7.0, 0.0],
        [1.5, -8.25, -3.5],
        [0.0, 0.0, 1.0],
    ];
    for p in pts {
        cloud.add_gaussian(
            f3(p[0], p[1], p[2]),
            f3(0.1, 0.1, 0.1),
            q4(1.0, 0.0, 0.0, 0.0),
            c3(0.5, 0.5, 0.5),
            0.5f32.to_bits(),
        );
    }
    let b = cloud.bounds();
    let min = [
        f32::from_bits(b.min.x),
        f32::from_bits(b.min.y),
        f32::from_bits(b.min.z),
    ];
    let max = [
        f32::from_bits(b.max.x),
        f32::from_bits(b.max.y),
        f32::from_bits(b.max.z),
    ];
    assert_eq!(min, [-2.0, -8.25, -3.5]);
    assert_eq!(max, [1.5, 7.0, 3.5]);
    for p in pts {
        for i in 0..3 {
            assert!(min[i] <= p[i] && p[i] <= max[i]);
        }
    }
}

#[test]
fn test_validate_detects_length_mismatch() {
    let mut cloud = GaussianCloud::new();
    cloud.add_gaussian(
        f3(0.0, 0.0, 0.0),
        f3(1.0, 1.0, 1.0),
        q4(1.0, 0.0, 0.0, 0.0),
        c3(1.0, 1.0, 1.0),
        1.0f32.to_bits(),
    );
    assert!(cloud.validate().is_ok());

    // Break the invariant on one sequence; validation must fail.
    cloud.positions.push(f3(9.0, 9.0, 9.0));
    let err = cloud.validate().unwrap_err();
    assert_eq!(err.text(), "Invalid Gaussian cloud: Inconsistent array lengths");

    // An undersized sequence fails too.
    let mut short = GaussianCloud::new();
    short.count = 1;
    assert!(short.validate().is_err());
}

#[test]
fn test_create_test_cloud() {
    let mut cloud = GaussianCloud::new();

    for i in 0..100 {
        let t = i as f32 / 100.0;
        let theta = t * std::f32::consts::TAU;
        let r = 0.5 + 0.3 * (t * 5.0).sin();

        let x = r * theta.cos();
        let y = (t - 0.5) * 2.0;
        let z = r * theta.sin();

        cloud.add_gaussian(
            f3(x, y, z),
            f3(0.1, 0.1, 0.1),
            q4(1.0, 0.0, 0.0, 0.0),
            c3(t, 1.0 - t, 0.5),
            0.8f32.to_bits(),
        );
    }

    assert!(cloud.count > 0);
}

#[test]
fn test_with_capacity_is_empty() {
    let cloud = GaussianCloud::with_capacity(64);
    assert_eq!(cloud.count, 0);
    assert!(cloud.validate().is_ok());
    assert!(cloud.sh_coefficients.is_none());
}
