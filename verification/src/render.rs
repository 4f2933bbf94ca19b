//! The frame renderer: for every pixel, build the primary ray, query
//! the scene, and shade the hit or fall back to the background
//! gradient; the packed bytes fill a row-major framebuffer.

use vstd::prelude::*;
use crate::fixed::FP_ONE;
use crate::fixed::V3;
use crate::fixed::Ray;
use crate::fixed::Mat3;
use crate::fixed::in_range;
use crate::fixed::mat_in_range;
use crate::fixed::lemma_mul_bound;
use crate::fixed::lemma_div_t_bound;
use crate::camera::Camera;
use crate::camera::ANGLE_LIMIT;
use crate::camera::primary_dir;
use crate::scene::Scene;
use crate::scene::scene_wf;
use crate::scene::sscene_hit;
use crate::scene::sray_point;
use crate::scene::ray_point;
use crate::shade::shade;
use crate::shade::shadow_ray;
use crate::shade::sshade;
use crate::shade::sshadow_ray;
use crate::background::background;
use crate::background::sbackground;
use crate::background::TIME_LIMIT;

verus! {

/// How far a primary or shadow ray reaches: one hundred world units.
pub const MAX_RAY_T: i64 = 6553600;

/// The ray a camera casts through a pixel.
pub open spec fn spixel_ray(cam: Camera, rot: Mat3, x: int, y: int, w: int, h: int) -> Ray {
    let d = primary_dir(x, y, w, h, rot);
    Ray { origin: cam.pos, dir: V3 { x: d.0 as i64, y: d.1 as i64, z: d.2 as i64 } }
}

/// The byte a pixel renders to: the shaded nearest hit, with the
/// shadow query against the same scene, or the background gradient
/// when the primary ray meets nothing.
pub open spec fn srender_pixel(
    objs: Seq<crate::scene::SceneObject>,
    cam: Camera,
    rot: Mat3,
    light: V3,
    x: int,
    y: int,
    w: int,
    h: int,
    time: int,
) -> int {
    let ray = spixel_ray(cam, rot, x, y, w, h);
    match sscene_hit(objs, ray, MAX_RAY_T as int, 0) {
        None => sbackground(x, y, w, h, cam.yaw as int, cam.pitch as int, time),
        Some(hit) => {
            let hp = sray_point(ray, hit.1);
            let occluded = sscene_hit(
                objs,
                sshadow_ray(hp, light),
                MAX_RAY_T as int,
                0,
            ).is_some();
            sshade(hp, hit.2, objs[hit.0].color, light, occluded)
        },
    }
}

/// What the renderer asks of its inputs: a well-formed scene, a camera
/// and light within the world, a sane viewport.
pub open spec fn render_wf(
    scene: Scene,
    cam: Camera,
    rot: Mat3,
    light: V3,
    w: int,
    h: int,
    time: int,
) -> bool {
    &&& scene_wf(scene)
    &&& in_range(cam.pos)
    &&& -ANGLE_LIMIT <= cam.yaw <= ANGLE_LIMIT
    &&& -ANGLE_LIMIT <= cam.pitch <= ANGLE_LIMIT
    &&& mat_in_range(rot)
    &&& in_range(light)
    &&& 0 < h <= w <= 0x10000
    &&& 0 <= time <= TIME_LIMIT
}

/// Render one pixel.
pub fn render_pixel(
    scene: &Scene,
    cam: &Camera,
    rot: &Mat3,
    light: V3,
    x: i64,
    y: i64,
    w: i64,
    h: i64,
    time: i64,
) -> (r: u8)
    requires
        render_wf(*scene, *cam, *rot, light, w as int, h as int, time as int),
        0 <= x < w,
        0 <= y < h,
    ensures
        r as int == srender_pixel(
            scene.objects@,
            *cam,
            *rot,
            light,
            x as int,
            y as int,
            w as int,
            h as int,
            time as int,
        ),
{
    let ray = cam.primary_ray(x, y, w, h, rot);
    proof {
        let d = primary_dir(x as int, y as int, w as int, h as int, *rot);
        assert(ray.dir.x == d.0 as i64 && ray.dir.y == d.1 as i64 && ray.dir.z == d.2 as i64);
        assert(ray == spixel_ray(*cam, *rot, x as int, y as int, w as int, h as int));
    }
    match scene.nearest_hit(ray, MAX_RAY_T) {
        None => background(x, y, w, h, cam.yaw, cam.pitch, time),
        Some(hit) => {
            proof {
                lemma_mul_bound(ray.dir.x as int, hit.t as int, 0x18_0000, MAX_RAY_T as int);
                lemma_mul_bound(ray.dir.y as int, hit.t as int, 0x18_0000, MAX_RAY_T as int);
                lemma_mul_bound(ray.dir.z as int, hit.t as int, 0x18_0000, MAX_RAY_T as int);
                lemma_div_t_bound(ray.dir.x * hit.t, FP_ONE as int, 0x18_0000 * (
                MAX_RAY_T as int));
                lemma_div_t_bound(ray.dir.y * hit.t, FP_ONE as int, 0x18_0000 * (
                MAX_RAY_T as int));
                lemma_div_t_bound(ray.dir.z * hit.t, FP_ONE as int, 0x18_0000 * (
                MAX_RAY_T as int));
                assert(0x18_0000 * (MAX_RAY_T as int) / (FP_ONE as int) == 0x960_0000)
                    by (nonlinear_arith)
                    requires MAX_RAY_T == 6553600 && FP_ONE == 65536;
            }
            let hp = ray_point(ray, hit.t);
            let sray = shadow_ray(hp, light);
            let occluded = scene.any_hit(sray, MAX_RAY_T);
            let color = scene.objects[hit.index].color;
            shade(hp, hit.normal, color, light, occluded)
        },
    }
}

/// Render a whole frame: one byte per pixel, row major, so the byte
/// for pixel `(x, y)` sits at offset `y * w + x`.
pub fn render_frame(
    scene: &Scene,
    cam: &Camera,
    rot: &Mat3,
    light: V3,
    w: i64,
    h: i64,
    time: i64,
) -> (fb: Vec<u8>)
    requires
        render_wf(*scene, *cam, *rot, light, w as int, h as int, time as int),
    ensures
        fb@.len() == w * h,
        forall|yy: int, xx: int|
            0 <= yy < h && 0 <= xx < w ==> #[trigger] fb@[yy * w + xx] == srender_pixel(
                scene.objects@,
                *cam,
                *rot,
                light,
                xx,
                yy,
                w as int,
                h as int,
                time as int,
            ),
{
    let mut fb: Vec<u8> = Vec::new();
    let mut y: i64 = 0;
    proof {
        lemma_mul_bound(w as int, h as int, 0x10000, 0x10000);
    }
    while y < h
        invariant
            render_wf(*scene, *cam, *rot, light, w as int, h as int, time as int),
            0 <= y <= h,
            fb@.len() == y * w,
            forall|yy: int, xx: int|
                0 <= yy < y && 0 <= xx < w ==> #[trigger] fb@[yy * w + xx] == srender_pixel(
                    scene.objects@,
                    *cam,
                    *rot,
                    light,
                    xx,
                    yy,
                    w as int,
                    h as int,
                    time as int,
                ),
        decreases h - y,
    {
        let mut x: i64 = 0;
        proof {
            assert((y + 1) * w == y * w + w) by (nonlinear_arith);
            assert(0 <= y * w <= 0x10000 * 0x10000) by (nonlinear_arith)
                requires 0 <= y <= 0x10000 && 0 < w <= 0x10000;
        }
        while x < w
            invariant
                render_wf(*scene, *cam, *rot, light, w as int, h as int, time as int),
                0 <= y < h,
                0 <= x <= w,
                fb@.len() == y * w + x,
                forall|yy: int, xx: int|
                    0 <= yy < y && 0 <= xx < w ==> #[trigger] fb@[yy * w + xx] == srender_pixel(
                        scene.objects@,
                        *cam,
                        *rot,
                        light,
                        xx,
                        yy,
                        w as int,
                        h as int,
                        time as int,
                    ),
                forall|xx: int|
                    0 <= xx < x ==> #[trigger] fb@[y * w + xx] == srender_pixel(
                        scene.objects@,
                        *cam,
                        *rot,
                        light,
                        xx,
                        y as int,
                        w as int,
                        h as int,
                        time as int,
                    ),
            decreases w - x,
        {
            proof {
                assert(0 <= y * w && y * w + x < 0x1_0000_0000) by (nonlinear_arith)
                    requires 0 <= y < 0x10000 && 0 <= x < w <= 0x10000;
            }
            let pix = render_pixel(scene, cam, rot, light, x, y, w, h, time);
            fb.push(pix);
            x = x + 1;
            proof {
                assert forall|yy: int, xx: int|
                    0 <= yy < y && 0 <= xx < w implies #[trigger] fb@[yy * w + xx]
                    == srender_pixel(
                    scene.objects@,
                    *cam,
                    *rot,
                    light,
                    xx,
                    yy,
                    w as int,
                    h as int,
                    time as int,
                ) by {
                    lemma_row_index(yy, xx, y as int, w as int);
                }
            }
        }
        y = y + 1;
        proof {
            assert(y * w == (y - 1) * w + w) by (nonlinear_arith);
            assert forall|yy: int, xx: int|
                0 <= yy < y && 0 <= xx < w implies #[trigger] fb@[yy * w + xx] == srender_pixel(
                scene.objects@,
                *cam,
                *rot,
                light,
                xx,
                yy,
                w as int,
                h as int,
                time as int,
            ) by {
                if yy == y - 1 {
                    assert(fb@[(y - 1) * w + xx] == srender_pixel(
                        scene.objects@,
                        *cam,
                        *rot,
                        light,
                        xx,
                        y - 1,
                        w as int,
                        h as int,
                        time as int,
                    ));
                }
            }
        }
    }
    proof {
        assert(h * w == w * h) by (nonlinear_arith);
    }
    fb
}

/// A pixel whose primary ray meets nothing renders to exactly the
/// background gradient's byte for that pixel, camera orientation and
/// elapsed time.
pub proof fn lemma_miss_renders_background(
    objs: Seq<crate::scene::SceneObject>,
    cam: Camera,
    rot: Mat3,
    light: V3,
    x: int,
    y: int,
    w: int,
    h: int,
    time: int,
)
    requires
        sscene_hit(objs, spixel_ray(cam, rot, x, y, w, h), MAX_RAY_T as int, 0) is None,
    ensures
        srender_pixel(objs, cam, rot, light, x, y, w, h, time) == sbackground(
            x,
            y,
            w,
            h,
            cam.yaw as int,
            cam.pitch as int,
            time,
        ),
{
}

/// A pixel of an earlier row sits before the current row's start.
proof fn lemma_row_index(yy: int, xx: int, y: int, w: int)
    requires
        0 <= yy < y,
        0 <= xx < w,
    ensures
        0 <= yy * w + xx < y * w,
{
    assert(0 <= yy * w && yy * w + xx < (yy + 1) * w && (yy + 1) * w <= y * w)
        by (nonlinear_arith)
        requires 0 <= xx < w && 0 <= yy && yy + 1 <= y;
}

} // verus!
