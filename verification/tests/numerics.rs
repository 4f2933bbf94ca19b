use raycity::Camera;
use raycity::Mat3;
use raycity::Pose;
use raycity::Scene;
use raycity::Shape;
use raycity::V3;
use raycity::FP_ONE;
use raycity::isqrt;
use raycity::normalize;
use raycity::render_frame;
use raycity::render_pixel;

#[test]
fn isqrt_exact_values() {
    assert_eq!(isqrt(0), 0);
    assert_eq!(isqrt(1), 1);
    assert_eq!(isqrt(3), 1);
    assert_eq!(isqrt(4), 2);
    assert_eq!(isqrt(15), 3);
    assert_eq!(isqrt(16), 4);
    assert_eq!(isqrt(1 << 40), 1 << 20);
    assert_eq!(isqrt((1 << 40) - 1), (1 << 20) - 1);
}

#[test]
fn normalize_axis_and_zero() {
    let unit = normalize(V3 { x: 0, y: 0, z: 7 * FP_ONE });
    assert_eq!(unit, V3 { x: 0, y: 0, z: FP_ONE });
    let neg = normalize(V3 { x: -5 * FP_ONE, y: 0, z: 0 });
    assert_eq!(neg, V3 { x: -FP_ONE, y: 0, z: 0 });
    let zero = normalize(V3 { x: 0, y: 0, z: 0 });
    assert_eq!(zero, V3 { x: 0, y: 0, z: 0 });
}

#[test]
fn normalize_keeps_unit_scale() {
    let d = normalize(V3 { x: 3 * FP_ONE, y: 4 * FP_ONE, z: 0 });
    let len2 = (d.x as i128) * (d.x as i128) + (d.y as i128) * (d.y as i128);
    let unit2 = (FP_ONE as i128) * (FP_ONE as i128);
    assert!((len2 - unit2).abs() < unit2 / 100, "length squared {} far from one", len2);
}

#[test]
fn frame_agrees_with_per_pixel_render() {
    let mut scene = Scene::new();
    scene.add(
        Shape::Sphere { radius: FP_ONE / 2 },
        Pose { pos: V3 { x: 0, y: 0, z: 5 * FP_ONE }, rot: Mat3::identity() },
        0x11,
    );
    scene.refresh();
    let cam = Camera::start();
    let rot = Mat3::identity();
    let light = V3 { x: 0, y: 10 * FP_ONE, z: 2 * FP_ONE };
    let fb = render_frame(&scene, &cam, &rot, light, 4, 4, 0);
    assert_eq!(fb.len(), 16);
    for y in 0..4i64 {
        for x in 0..4i64 {
            let pix = render_pixel(&scene, &cam, &rot, light, x, y, 4, 4, 0);
            assert_eq!(fb[(y * 4 + x) as usize], pix);
        }
    }
    assert_eq!(fb[(2 * 4 + 2) as usize], 0x0C);
}
