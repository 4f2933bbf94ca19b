use raycity::Camera;
use raycity::InputEvent;
use raycity::LoopState;
use raycity::Mat3;
use raycity::MoveDir;
use raycity::Pose;
use raycity::Ray;
use raycity::Scene;
use raycity::Shape;
use raycity::Tri;
use raycity::V3;
use raycity::FP_ONE;
use raycity::MAX_RAY_T;
use raycity::background;
use raycity::normalize;
use raycity::pack_color;
use raycity::render_frame;
use raycity::render_pixel;
use raycity::shade;
use raycity::shadow_ray;
use raycity::unpack_blue;
use raycity::unpack_green;
use raycity::unpack_red;

fn v(x: i64, y: i64, z: i64) -> V3 {
    V3 { x, y, z }
}

fn still(x: i64, y: i64, z: i64) -> Pose {
    Pose { pos: v(x, y, z), rot: Mat3::identity() }
}

#[test]
fn color_round_trip_saturated() {
    assert_eq!(pack_color(7, 7, 3), 0xFF);
    assert_eq!(unpack_red(0xFF), 7);
    assert_eq!(unpack_green(0xFF), 7);
    assert_eq!(unpack_blue(0xFF), 3);
}

#[test]
fn color_round_trip_zero() {
    assert_eq!(pack_color(0, 0, 0), 0x00);
    assert_eq!(unpack_red(0x00), 0);
    assert_eq!(unpack_green(0x00), 0);
    assert_eq!(unpack_blue(0x00), 0);
}

#[test]
fn color_round_trip_mixed() {
    for (r, g, b) in [(0u8, 4u8, 1u8), (5, 2, 3), (7, 0, 2), (1, 1, 1)] {
        let c = pack_color(r, g, b);
        assert_eq!(unpack_red(c), r);
        assert_eq!(unpack_green(c), g);
        assert_eq!(unpack_blue(c), b);
    }
    assert_eq!(pack_color(0, 4, 1), 0x11);
}

#[test]
fn mouse_delta_accumulates() {
    let mut cam = Camera::start();
    cam.apply_mouse_delta(320, 90, 320, 180);
    assert_eq!(cam.yaw, FP_ONE);
    assert_eq!(cam.pitch, FP_ONE / 2);
    assert_eq!(cam.roll, 0);
    cam.apply_mouse_delta(-640, 0, 320, 180);
    assert_eq!(cam.yaw, -FP_ONE);
    assert_eq!(cam.pitch, FP_ONE / 2);
}

#[test]
fn moves_commute_on_independent_axes() {
    let speed = 6554;
    let (s, c) = (0, FP_ONE);
    let mut one = Camera::start();
    one.apply_move(MoveDir::Forward, speed, s, c);
    one.apply_move(MoveDir::Up, speed, s, c);
    let mut two = Camera::start();
    two.apply_move(MoveDir::Up, speed, s, c);
    two.apply_move(MoveDir::Forward, speed, s, c);
    assert_eq!(one.pos, two.pos);
    assert_eq!(one.pos, v(0, 6554, 6554));
}

#[test]
fn move_directions() {
    let speed = 6554;
    let (s, c) = (0, FP_ONE);
    let mut cam = Camera::start();
    cam.apply_move(MoveDir::Back, speed, s, c);
    assert_eq!(cam.pos, v(0, 0, -6554));
    cam.apply_move(MoveDir::Forward, speed, s, c);
    assert_eq!(cam.pos, v(0, 0, 0));
    cam.apply_move(MoveDir::Left, speed, s, c);
    assert_eq!(cam.pos, v(-6554, 0, 0));
    cam.apply_move(MoveDir::Right, speed, s, c);
    cam.apply_move(MoveDir::Down, speed, s, c);
    assert_eq!(cam.pos, v(0, -6554, 0));
}

#[test]
fn center_pixel_ray_points_forward() {
    let cam = Camera::start();
    let rot = Mat3::identity();
    let ray = cam.primary_ray(2, 2, 4, 4, &rot);
    assert_eq!(ray.origin, v(0, 0, 0));
    assert_eq!(ray.dir, v(0, 0, FP_ONE));
}

#[test]
fn sphere_nearest_hit_distance() {
    let mut scene = Scene::new();
    scene.add(Shape::Sphere { radius: FP_ONE / 2 }, still(0, 0, 5 * FP_ONE), 0x11);
    scene.refresh();
    let ray = Ray { origin: v(0, 0, 0), dir: v(0, 0, FP_ONE) };
    let hit = scene.nearest_hit(ray, MAX_RAY_T).expect("sphere in front must be hit");
    assert_eq!(hit.index, 0);
    assert_eq!(hit.t, 294912);
    assert_eq!(hit.normal, v(0, 0, -FP_ONE));
}

#[test]
fn nearest_hit_prefers_closer_object() {
    let mut scene = Scene::new();
    scene.add(Shape::Sphere { radius: FP_ONE / 2 }, still(0, 0, 9 * FP_ONE), 0x22);
    scene.add(Shape::Sphere { radius: FP_ONE / 2 }, still(0, 0, 5 * FP_ONE), 0x11);
    scene.refresh();
    let ray = Ray { origin: v(0, 0, 0), dir: v(0, 0, FP_ONE) };
    let hit = scene.nearest_hit(ray, MAX_RAY_T).unwrap();
    assert_eq!(hit.index, 1);
    assert_eq!(hit.t, 294912);
}

#[test]
fn zero_direction_ray_misses() {
    let mut scene = Scene::new();
    scene.add(Shape::Sphere { radius: FP_ONE / 2 }, still(0, 0, 5 * FP_ONE), 0x11);
    scene.refresh();
    let ray = Ray { origin: v(0, 0, 0), dir: v(0, 0, 0) };
    assert!(scene.nearest_hit(ray, MAX_RAY_T).is_none());
    assert!(!scene.any_hit(ray, MAX_RAY_T));
}

#[test]
fn degenerate_triangle_misses() {
    let a = v(-FP_ONE, -FP_ONE, 0);
    let c = v(0, FP_ONE, 0);
    let mut scene = Scene::new();
    scene.add(Shape::Triangle(Tri { a, b: a, c }), still(0, 0, 5 * FP_ONE), 0x33);
    scene.refresh();
    let ray = Ray { origin: v(0, 0, 0), dir: v(0, 0, FP_ONE) };
    assert!(scene.nearest_hit(ray, MAX_RAY_T).is_none());
}

#[test]
fn triangle_hit_and_plane_normal() {
    let tri = Tri { a: v(-FP_ONE, -FP_ONE, 0), b: v(FP_ONE, -FP_ONE, 0), c: v(0, FP_ONE, 0) };
    let mut scene = Scene::new();
    scene.add(Shape::Triangle(tri), still(0, 0, 5 * FP_ONE), 0x33);
    scene.refresh();
    let ray = Ray { origin: v(0, 0, 0), dir: v(0, 0, FP_ONE) };
    let hit = scene.nearest_hit(ray, MAX_RAY_T).unwrap();
    assert_eq!(hit.t, 5 * FP_ONE);
    assert_eq!(hit.normal, v(0, 0, FP_ONE));
    let off = Ray { origin: v(3 * FP_ONE, 0, 0), dir: v(0, 0, FP_ONE) };
    assert!(scene.nearest_hit(off, MAX_RAY_T).is_none());
}

#[test]
fn mesh_nearest_triangle_wins() {
    let near = Tri { a: v(-FP_ONE, -FP_ONE, 0), b: v(FP_ONE, -FP_ONE, 0), c: v(0, FP_ONE, 0) };
    let far = Tri {
        a: v(-FP_ONE, -FP_ONE, 3 * FP_ONE),
        b: v(FP_ONE, -FP_ONE, 3 * FP_ONE),
        c: v(0, FP_ONE, 3 * FP_ONE),
    };
    let mut scene = Scene::new();
    scene.add(Shape::Mesh(vec![far, near]), still(0, 0, 5 * FP_ONE), 0xDD);
    scene.refresh();
    let ray = Ray { origin: v(0, 0, 0), dir: v(0, 0, FP_ONE) };
    let hit = scene.nearest_hit(ray, MAX_RAY_T).unwrap();
    assert_eq!(hit.t, 5 * FP_ONE);
}

#[test]
fn object_added_before_refresh_is_invisible() {
    let mut scene = Scene::new();
    scene.add(Shape::Sphere { radius: FP_ONE / 2 }, still(0, 0, 5 * FP_ONE), 0x11);
    let ray = Ray { origin: v(0, 0, 0), dir: v(0, 0, FP_ONE) };
    assert!(scene.nearest_hit(ray, MAX_RAY_T).is_none());
    scene.refresh();
    assert!(scene.nearest_hit(ray, MAX_RAY_T).is_some());
}

#[test]
fn set_pose_is_stale_until_refresh() {
    let mut scene = Scene::new();
    let id = scene.add(Shape::Sphere { radius: FP_ONE / 2 }, still(0, 0, 5 * FP_ONE), 0x11);
    scene.refresh();
    let ray = Ray { origin: v(0, 0, 0), dir: v(0, 0, FP_ONE) };
    let before = scene.nearest_hit(ray, MAX_RAY_T).unwrap();
    assert_eq!(before.t, 294912);
    scene.set_pose(id, still(0, 0, 10 * FP_ONE));
    let stale = scene.nearest_hit(ray, MAX_RAY_T).unwrap();
    assert_eq!(stale.t, before.t);
    assert_eq!(stale.normal, before.normal);
    scene.refresh();
    let fresh = scene.nearest_hit(ray, MAX_RAY_T).unwrap();
    assert!(fresh.t > 500000, "after refresh the new pose must show: t = {}", fresh.t);
}

#[test]
fn any_hit_sees_blocker() {
    let mut scene = Scene::new();
    scene.add(Shape::Sphere { radius: FP_ONE }, still(0, 3 * FP_ONE, 0), 0x22);
    scene.refresh();
    let up = Ray { origin: v(0, 0, 0), dir: v(0, FP_ONE, 0) };
    assert!(scene.any_hit(up, MAX_RAY_T));
    let down = Ray { origin: v(0, 0, 0), dir: v(0, -FP_ONE, 0) };
    assert!(!scene.any_hit(down, MAX_RAY_T));
}

#[test]
fn occluded_hit_shades_black() {
    let hp = v(0, 0, 294912);
    let n = v(0, 0, -FP_ONE);
    let light = v(0, 10 * FP_ONE, 0);
    assert_eq!(shade(hp, n, 0xFF, light, true), 0x00);
}

#[test]
fn back_facing_surface_shades_black() {
    let hp = v(0, 0, 294912);
    let away = v(0, 0, FP_ONE);
    let light = v(0, 10 * FP_ONE, 0);
    assert_eq!(shade(hp, away, 0xFF, light, false), 0x00);
}

#[test]
fn unoccluded_diffuse_byte() {
    let hp = v(0, 0, 294912);
    let n = v(0, 0, -FP_ONE);
    let light = v(0, 10 * FP_ONE, 0);
    assert_eq!(shade(hp, n, 0xFF, light, false), 0xB6);
}

#[test]
fn shadow_ray_leaves_the_surface() {
    let hp = v(0, 0, 294912);
    let light = v(0, 10 * FP_ONE, 2 * FP_ONE);
    let ld = normalize(v(light.x - hp.x, light.y - hp.y, light.z - hp.z));
    let sr = shadow_ray(hp, light);
    assert_eq!(sr.dir, ld);
    assert_eq!(sr.origin.x, hp.x + ld.x * 66 / FP_ONE);
    assert_eq!(sr.origin.y, hp.y + ld.y * 66 / FP_ONE);
    assert_eq!(sr.origin.z, hp.z + ld.z * 66 / FP_ONE);
    assert_ne!(sr.origin, hp);
}

#[test]
fn background_at_origin_is_black() {
    assert_eq!(background(0, 0, 4, 4, 0, 0, 0), 0x00);
}

#[test]
fn background_center_value() {
    assert_eq!(background(2, 2, 4, 4, 0, 0, 0), 0x90);
}

#[test]
fn background_with_angles_and_time() {
    assert_eq!(background(2, 2, 4, 4, 51472, 0, 0), 0x50);
    assert_eq!(background(100, 50, 320, 180, 51472, -3000, 655360), 0xA0);
}

#[test]
fn miss_renders_background_byte() {
    let scene = Scene::new();
    let cam = Camera::start();
    let rot = Mat3::identity();
    let light = v(0, 10 * FP_ONE, 2 * FP_ONE);
    let pix = render_pixel(&scene, &cam, &rot, light, 2, 2, 4, 4, 0);
    assert_eq!(pix, background(2, 2, 4, 4, 0, 0, 0));
}

#[test]
fn end_to_end_single_sphere() {
    let mut scene = Scene::new();
    scene.add(Shape::Sphere { radius: FP_ONE / 2 }, still(0, 0, 5 * FP_ONE), 0x11);
    scene.refresh();
    let cam = Camera::start();
    let rot = Mat3::identity();
    let light = v(0, 10 * FP_ONE, 2 * FP_ONE);
    let center = render_pixel(&scene, &cam, &rot, light, 2, 2, 4, 4, 0);
    assert_ne!(center, background(2, 2, 4, 4, 0, 0, 0));
    assert_ne!(center, 0x00);
    assert_eq!(center, 0x0C);

    let s45 = 46341;
    let yawed = Mat3 { xx: s45, xy: 0, xz: s45, yx: 0, yy: FP_ONE, yz: 0, zx: -s45, zy: 0, zz: s45 };
    let mut cam45 = Camera::start();
    cam45.apply_mouse_delta(51472, 0, FP_ONE, FP_ONE);
    assert_eq!(cam45.yaw, 51472);
    let off = render_pixel(&scene, &cam45, &yawed, light, 2, 2, 4, 4, 0);
    assert_eq!(off, background(2, 2, 4, 4, 51472, 0, 0));
}

#[test]
fn shadowed_pixel_renders_black() {
    let mut scene = Scene::new();
    scene.add(Shape::Sphere { radius: FP_ONE / 2 }, still(0, 0, 5 * FP_ONE), 0xFF);
    scene.refresh();
    let cam = Camera::start();
    let rot = Mat3::identity();
    let light = v(0, 10 * FP_ONE, 0);
    let lit = render_pixel(&scene, &cam, &rot, light, 2, 2, 4, 4, 0);
    assert_ne!(lit, 0x00);

    let mut blocked = Scene::new();
    blocked.add(Shape::Sphere { radius: FP_ONE / 2 }, still(0, 0, 5 * FP_ONE), 0xFF);
    blocked.add(Shape::Sphere { radius: FP_ONE }, still(0, 5 * FP_ONE, 3 * FP_ONE), 0x22);
    blocked.refresh();
    let dark = render_pixel(&blocked, &cam, &rot, light, 2, 2, 4, 4, 0);
    assert_eq!(dark, 0x00);
}

#[test]
fn frame_is_row_major_background() {
    let scene = Scene::new();
    let cam = Camera::start();
    let rot = Mat3::identity();
    let light = v(0, 10 * FP_ONE, 2 * FP_ONE);
    let fb = render_frame(&scene, &cam, &rot, light, 3, 2, 7 * FP_ONE);
    assert_eq!(fb.len(), 6);
    for y in 0..2i64 {
        for x in 0..3i64 {
            let expected = background(x, y, 3, 2, 0, 0, 7 * FP_ONE);
            assert_eq!(fb[(y * 3 + x) as usize], expected, "pixel ({}, {})", x, y);
        }
    }
}

#[test]
fn loop_runs_until_exit_event() {
    let state = LoopState::Running;
    let calm = vec![InputEvent::Other, InputEvent::KeyDown { escape: false }];
    assert_eq!(state.drain_events(&calm), LoopState::Running);
    let quit = vec![InputEvent::Other, InputEvent::Quit];
    assert_eq!(state.drain_events(&quit), LoopState::Terminating);
    let escape = vec![InputEvent::KeyDown { escape: true }];
    assert_eq!(state.drain_events(&escape), LoopState::Terminating);
    assert_eq!(LoopState::Terminating.drain_events(&calm), LoopState::Terminating);
}
