//! The scene store: placed shapes with stale-until-refresh poses, and
//! the nearest-hit and any-hit ray queries against them.
//!
//! Each object carries a pending pose and an active pose. `add` and
//! `set_pose` only touch the pending pose; queries read only the
//! active one, so they observe the scene exactly as it stood at the
//! last `refresh`. A small scene is queried by brute force, one shape
//! at a time; ties between equally near hits go to the lowest object
//! index, so the nearest-hit query is a function of the scene.

use vstd::prelude::*;
use crate::fixed::FP_ONE;
use crate::fixed::COORD_LIMIT;
use crate::fixed::APPLY_LIMIT;
use crate::fixed::V3;
use crate::fixed::Ray;
use crate::fixed::Mat3;
use crate::fixed::bounded;
use crate::fixed::in_range;
use crate::fixed::mat_in_range;
use crate::fixed::div_t;
use crate::fixed::sqrt_floor;
use crate::fixed::tdot;
use crate::fixed::tcross;
use crate::fixed::tsub;
use crate::fixed::tv;
use crate::fixed::tnormalize;
use crate::fixed::smat_apply;
use crate::fixed::lemma_mul_bound;
use crate::fixed::lemma_sdot_bound;
use crate::fixed::lemma_scross_bound;
use crate::fixed::lemma_div_t_bound;
use crate::fixed::fxdiv;
use crate::fixed::isqrt;
use crate::fixed::vdot;
use crate::fixed::vcross;
use crate::fixed::vsub;
use crate::fixed::normalize;
use crate::fixed::ARG_A_LIMIT;
use crate::fixed::NORM_LIMIT;

verus! {

/// Largest world-coordinate magnitude a transformed vertex can reach.
pub const WORLD_LIMIT: i64 = 0x2000_0000;

/// A rigid transform: a translation and a rotation.
#[derive(Clone, Copy, PartialEq, Eq, Structural, Debug)]
pub struct Pose {
    pub pos: V3,
    pub rot: Mat3,
}

/// A pose whose translation and rotation the queries accept.
pub open spec fn pose_wf(p: Pose) -> bool {
    in_range(p.pos) && mat_in_range(p.rot)
}

/// A triangle in its own local frame.
#[derive(Clone, Copy, PartialEq, Eq, Structural, Debug)]
pub struct Tri {
    pub a: V3,
    pub b: V3,
    pub c: V3,
}

/// Triangle vertices within the transformable range.
pub open spec fn tri_wf(t: Tri) -> bool {
    bounded(t.a, APPLY_LIMIT as int) && bounded(t.b, APPLY_LIMIT as int) && bounded(
        t.c,
        APPLY_LIMIT as int,
    )
}

/// A geometric primitive in its own local frame; immutable once made,
/// so one shape can stand behind several placed objects.
#[derive(Clone, Debug)]
pub enum Shape {
    Sphere { radius: i64 },
    Triangle(Tri),
    Mesh(Vec<Tri>),
}

/// A shape the queries accept: a positive, bounded radius, or bounded
/// triangle vertices.
pub open spec fn shape_wf(s: Shape) -> bool {
    match s {
        Shape::Sphere { radius } => 0 < radius <= APPLY_LIMIT,
        Shape::Triangle(t) => tri_wf(t),
        Shape::Mesh(ts) => forall|i: int| 0 <= i < ts@.len() ==> tri_wf(ts@[i]),
    }
}

/// A placed object: a shape, the pose queries currently see (active),
/// the pose the next refresh will install (pending), and a packed
/// 3-3-2 color attribute, fixed at creation.
#[derive(Clone, Debug)]
pub struct SceneObject {
    pub shape: Shape,
    pub pending: Pose,
    pub active: Option<Pose>,
    pub color: u8,
}

/// An object the queries accept.
pub open spec fn object_wf(o: SceneObject) -> bool {
    &&& shape_wf(o.shape)
    &&& pose_wf(o.pending)
    &&& match o.active {
        Some(p) => pose_wf(p),
        None => true,
    }
}

/// The scene store.
#[derive(Debug)]
pub struct Scene {
    pub objects: Vec<SceneObject>,
}

/// Every object of the scene is well formed.
pub open spec fn scene_wf(s: Scene) -> bool {
    forall|i: int| 0 <= i < s.objects@.len() ==> object_wf(#[trigger] s.objects@[i])
}

/// Largest ray-origin coordinate magnitude the queries accept; wide
/// enough for a shadow ray cast from any reachable hit point.
pub const ORIGIN_LIMIT: i64 = 0x4000_0000;

/// Largest ray-direction coordinate magnitude the queries accept.
pub const DIR_LIMIT: i64 = 0x100_0000;

/// Largest query range the queries accept.
pub const MAXT_LIMIT: i64 = 0x80_0000;

/// A ray the queries accept, with its range.
pub open spec fn query_wf(ray: Ray, max_t: i64) -> bool {
    bounded(ray.origin, ORIGIN_LIMIT as int) && bounded(ray.dir, DIR_LIMIT as int) && 0 <= max_t
        <= MAXT_LIMIT
}

/// A surface hit of one shape: the ray parameter (fixed point) and the
/// surface normal there.
#[derive(Clone, Copy, PartialEq, Eq, Structural, Debug)]
pub struct ShapeHit {
    pub t: i64,
    pub normal: V3,
}

/// A scene query result: which object, how far along the ray, and the
/// surface normal at the hit.
#[derive(Clone, Copy, PartialEq, Eq, Structural, Debug)]
pub struct HitResult {
    pub index: usize,
    pub t: i64,
    pub normal: V3,
}

/// A hit within the query's range, with a unit-scale normal.
pub open spec fn hit_bounded(h: Option<ShapeHit>, max_t: i64) -> bool {
    match h {
        None => true,
        Some(s) => 0 <= s.t <= max_t && bounded(s.normal, FP_ONE as int),
    }
}

/// The mathematical content of a shape hit.
pub open spec fn hit_view(h: Option<ShapeHit>) -> Option<(int, (int, int, int))> {
    match h {
        None => None,
        Some(s) => Some((s.t as int, tv(s.normal))),
    }
}

/// The mathematical content of a scene query result.
pub open spec fn result_view(h: Option<HitResult>) -> Option<(int, int, (int, int, int))> {
    match h {
        None => None,
        Some(s) => Some((s.index as int, s.t as int, tv(s.normal))),
    }
}

/// The point a ray reaches at parameter `t`.
pub open spec fn sray_point(ray: Ray, t: int) -> (int, int, int) {
    (
        ray.origin.x + div_t(ray.dir.x * t, FP_ONE as int),
        ray.origin.y + div_t(ray.dir.y * t, FP_ONE as int),
        ray.origin.z + div_t(ray.dir.z * t, FP_ONE as int),
    )
}

/// A local point carried to world space by a pose.
pub open spec fn stransform(p: Pose, v: V3) -> (int, int, int) {
    let r = smat_apply(p.rot, v);
    (r.0 + p.pos.x, r.1 + p.pos.y, r.2 + p.pos.z)
}

/// Where a ray first meets a sphere, if it does within `max_t`: the
/// smaller root of the fixed-point ray/sphere quadratic that lies in
/// front of the origin, with the outward radial normal there. A
/// zero-length direction reports no intersection.
pub open spec fn ssphere_hit(center: V3, radius: int, ray: Ray, max_t: int) -> Option<
    (int, (int, int, int)),
> {
    let oc = tsub(tv(center), tv(ray.origin));
    let a = tdot(tv(ray.dir), tv(ray.dir));
    let b = tdot(tv(ray.dir), oc);
    let q = tdot(oc, oc) - radius * radius;
    let disc = b * b - a * q;
    if a == 0 || disc < 0 {
        None
    } else {
        let s = sqrt_floor(disc);
        let tn = div_t((b - s) * FP_ONE, a);
        let tf = div_t((b + s) * FP_ONE, a);
        let t = if tn >= 0 {
            tn
        } else {
            tf
        };
        if t < 0 || t > max_t {
            None
        } else {
            let p = sray_point(ray, t);
            Some((t, tnormalize(tsub(p, tv(center)))))
        }
    }
}

/// Where a ray meets a world-space triangle, if it does within
/// `max_t`, with the triangle's plane normal (by local winding). A ray
/// parallel to the plane, or a degenerate triangle, reports no
/// intersection.
pub open spec fn stri_hit(
    wa: (int, int, int),
    wb: (int, int, int),
    wc: (int, int, int),
    ray: Ray,
    max_t: int,
) -> Option<(int, (int, int, int))> {
    let e1 = tsub(wb, wa);
    let e2 = tsub(wc, wa);
    let p = tcross(tv(ray.dir), e2);
    let det = tdot(e1, p);
    if det == 0 {
        None
    } else {
        let tvec = tsub(tv(ray.origin), wa);
        let u_num = tdot(tvec, p);
        let q = tcross(tvec, e1);
        let v_num = tdot(tv(ray.dir), q);
        let inside = if det > 0 {
            0 <= u_num && 0 <= v_num && u_num + v_num <= det
        } else {
            u_num <= 0 && v_num <= 0 && u_num + v_num >= det
        };
        if !inside {
            None
        } else {
            let t_num = tdot(e2, q);
            let t = if det > 0 {
                div_t(t_num * FP_ONE, det)
            } else {
                div_t(-t_num * FP_ONE, -det)
            };
            if t < 0 || t > max_t {
                None
            } else {
                Some((t, tnormalize(tcross(e1, e2))))
            }
        }
    }
}

/// The nearer of a candidate hit and the best hit found so far; on a
/// tie the candidate (the earlier triangle) wins.
pub open spec fn closer(
    cur: Option<(int, (int, int, int))>,
    rest: Option<(int, (int, int, int))>,
) -> Option<(int, (int, int, int))> {
    match cur {
        None => rest,
        Some(c) => match rest {
            None => Some(c),
            Some(r) => if c.0 <= r.0 {
                Some(c)
            } else {
                Some(r)
            },
        },
    }
}

/// The nearest hit among the triangles of a mesh from index `i` on.
pub open spec fn smesh_hit(tris: Seq<Tri>, pose: Pose, ray: Ray, max_t: int, i: int) -> Option<
    (int, (int, int, int)),
>
    decreases tris.len() - i,
{
    if i < 0 || i >= tris.len() {
        None
    } else {
        let t = tris[i];
        closer(
            stri_hit(
                stransform(pose, t.a),
                stransform(pose, t.b),
                stransform(pose, t.c),
                ray,
                max_t,
            ),
            smesh_hit(tris, pose, ray, max_t, i + 1),
        )
    }
}

/// Where a ray meets a placed shape, if it does within `max_t`.
pub open spec fn sshape_hit(shape: Shape, pose: Pose, ray: Ray, max_t: int) -> Option<
    (int, (int, int, int)),
> {
    match shape {
        Shape::Sphere { radius } => ssphere_hit(pose.pos, radius as int, ray, max_t),
        Shape::Triangle(t) => stri_hit(
            stransform(pose, t.a),
            stransform(pose, t.b),
            stransform(pose, t.c),
            ray,
            max_t,
        ),
        Shape::Mesh(ts) => smesh_hit(ts@, pose, ray, max_t, 0),
    }
}

/// Where a ray meets an object: only the active pose counts, so an
/// object added or re-posed since the last refresh is queried as it
/// stood then.
pub open spec fn sobject_hit(o: SceneObject, ray: Ray, max_t: int) -> Option<
    (int, (int, int, int)),
> {
    match o.active {
        None => None,
        Some(p) => sshape_hit(o.shape, p, ray, max_t),
    }
}

/// A candidate hit of object `i` against the best hit among later
/// objects; on a tie the lower index wins.
pub open spec fn closer_indexed(
    i: int,
    cur: Option<(int, (int, int, int))>,
    rest: Option<(int, int, (int, int, int))>,
) -> Option<(int, int, (int, int, int))> {
    match cur {
        None => rest,
        Some(c) => match rest {
            None => Some((i, c.0, c.1)),
            Some(r) => if c.0 <= r.1 {
                Some((i, c.0, c.1))
            } else {
                Some(r)
            },
        },
    }
}

/// The nearest hit among the objects from index `i` on: the least ray
/// parameter, ties to the lowest object index.
pub open spec fn sscene_hit(objs: Seq<SceneObject>, ray: Ray, max_t: int, i: int) -> Option<
    (int, int, (int, int, int)),
>
    decreases objs.len() - i,
{
    if i < 0 || i >= objs.len() {
        None
    } else {
        closer_indexed(i, sobject_hit(objs[i], ray, max_t), sscene_hit(objs, ray, max_t, i + 1))
    }
}

impl Scene {
    /// An empty scene.
    pub fn new() -> (s: Scene)
        ensures
            s.objects@.len() == 0,
            scene_wf(s),
    {
        Scene { objects: Vec::new() }
    }

    /// Register a new object; it answers queries only after the next
    /// refresh. Returns the object's id.
    pub fn add(&mut self, shape: Shape, initial_pose: Pose, color: u8) -> (id: usize)
        requires
            shape_wf(shape),
            pose_wf(initial_pose),
            scene_wf(*old(self)),
        ensures
            id == old(self).objects@.len(),
            final(self).objects@ == old(self).objects@.push(
                SceneObject { shape, pending: initial_pose, active: None, color },
            ),
            scene_wf(*final(self)),
    {
        let id = self.objects.len();
        self.objects.push(SceneObject { shape, pending: initial_pose, active: None, color });
        id
    }

    /// Replace an object's pose. No query sees the new pose until the
    /// next refresh: the active poses, and with them every query
    /// answer, stay exactly as they were.
    pub fn set_pose(&mut self, id: usize, new_pose: Pose)
        requires
            id < old(self).objects@.len(),
            pose_wf(new_pose),
            scene_wf(*old(self)),
        ensures
            final(self).objects@.len() == old(self).objects@.len(),
            final(self).objects@[id as int].pending == new_pose,
            final(self).objects@[id as int].shape == old(self).objects@[id as int].shape,
            final(self).objects@[id as int].active == old(self).objects@[id as int].active,
            final(self).objects@[id as int].color == old(self).objects@[id as int].color,
            forall|j: int|
                0 <= j < old(self).objects@.len() && j != id ==> final(self).objects@[j] == old(
                    self,
                ).objects@[j],
            scene_wf(*final(self)),
    {
        self.objects[id].pending = new_pose;
    }

    /// Install every pending pose as the active one, so that queries
    /// reflect all pose changes and additions made since the last
    /// refresh.
    pub fn refresh(&mut self)
        requires
            scene_wf(*old(self)),
        ensures
            final(self).objects@.len() == old(self).objects@.len(),
            forall|j: int|
                0 <= j < old(self).objects@.len() ==> {
                    let o = old(self).objects@[j];
                    (#[trigger] final(self).objects@[j]) == (SceneObject {
                        shape: o.shape,
                        pending: o.pending,
                        active: Some(o.pending),
                        color: o.color,
                    })
                },
            scene_wf(*final(self)),
    {
        let n = self.objects.len();
        let mut i: usize = 0;
        while i < n
            invariant
                n == self.objects@.len(),
                i <= n,
                scene_wf(*self),
                forall|j: int|
                    0 <= j < i ==> {
                        let o = old(self).objects@[j];
                        (#[trigger] self.objects@[j]) == (SceneObject {
                            shape: o.shape,
                            pending: o.pending,
                            active: Some(o.pending),
                            color: o.color,
                        })
                    },
                forall|j: int| i <= j < n ==> #[trigger] self.objects@[j] == old(self).objects@[j],
            decreases n - i,
        {
            let p = self.objects[i].pending;
            self.objects[i].active = Some(p);
            i = i + 1;
        }
    }

    /// The closest intersection along the ray within `[0, max_t]`, or
    /// none: exactly the nearest (ties to the lowest object index)
    /// among the per-object hits at their active poses.
    pub fn nearest_hit(&self, ray: Ray, max_t: i64) -> (r: Option<HitResult>)
        requires
            scene_wf(*self),
            query_wf(ray, max_t),
        ensures
            result_view(r) == sscene_hit(self.objects@, ray, max_t as int, 0),
            match r {
                None => true,
                Some(h) => h.index < self.objects@.len() && 0 <= h.t <= max_t && bounded(
                    h.normal,
                    FP_ONE as int,
                ),
            },
    {
        let mut i: usize = self.objects.len();
        let mut best: Option<HitResult> = None;
        while i > 0
            invariant
                scene_wf(*self),
                query_wf(ray, max_t),
                i <= self.objects@.len(),
                result_view(best) == sscene_hit(self.objects@, ray, max_t as int, i as int),
                match best {
                    None => true,
                    Some(h) => h.index < self.objects@.len() && 0 <= h.t <= max_t && bounded(
                        h.normal,
                        FP_ONE as int,
                    ),
                },
            decreases i,
        {
            i = i - 1;
            let o = &self.objects[i];
            let cur: Option<ShapeHit> = match &o.active {
                None => None,
                Some(pose) => shape_hit(&o.shape, *pose, ray, max_t),
            };
            best = match cur {
                None => best,
                Some(c) => match best {
                    None => Some(HitResult { index: i, t: c.t, normal: c.normal }),
                    Some(b) => if c.t <= b.t {
                        Some(HitResult { index: i, t: c.t, normal: c.normal })
                    } else {
                        Some(b)
                    },
                },
            };
        }
        best
    }

    /// Whether any surface intersects the ray within `[0, max_t]`:
    /// true exactly when `nearest_hit` would find something.
    pub fn any_hit(&self, ray: Ray, max_t: i64) -> (r: bool)
        requires
            scene_wf(*self),
            query_wf(ray, max_t),
        ensures
            r == sscene_hit(self.objects@, ray, max_t as int, 0).is_some(),
    {
        let n = self.objects.len();
        let mut i: usize = 0;
        while i < n
            invariant
                scene_wf(*self),
                query_wf(ray, max_t),
                n == self.objects@.len(),
                i <= n,
                sscene_hit(self.objects@, ray, max_t as int, 0).is_some() == sscene_hit(
                    self.objects@,
                    ray,
                    max_t as int,
                    i as int,
                ).is_some(),
            decreases n - i,
        {
            let o = &self.objects[i];
            let cur: Option<ShapeHit> = match &o.active {
                None => None,
                Some(pose) => shape_hit(&o.shape, *pose, ray, max_t),
            };
            if cur.is_some() {
                return true;
            }
            i = i + 1;
        }
        false
    }
}

/// Queries only read the shape, the active pose and the color, so two
/// scenes that agree on those answer every nearest-hit query alike —
/// in particular a scene before and after `set_pose` without a
/// `refresh` between.
pub proof fn lemma_stale_until_refresh(s1: Scene, s2: Scene, ray: Ray, max_t: i64)
    requires
        s1.objects@.len() == s2.objects@.len(),
        forall|j: int|
            0 <= j < s1.objects@.len() ==> {
                &&& (#[trigger] s2.objects@[j]).shape == s1.objects@[j].shape
                &&& s2.objects@[j].active == s1.objects@[j].active
                &&& s2.objects@[j].color == s1.objects@[j].color
            },
    ensures
        sscene_hit(s2.objects@, ray, max_t as int, 0) == sscene_hit(
            s1.objects@,
            ray,
            max_t as int,
            0,
        ),
{
    lemma_scene_hit_ignores_pending(s1.objects@, s2.objects@, ray, max_t as int, 0);
}

/// The recursion behind `lemma_stale_until_refresh`.
proof fn lemma_scene_hit_ignores_pending(
    o1: Seq<SceneObject>,
    o2: Seq<SceneObject>,
    ray: Ray,
    max_t: int,
    i: int,
)
    requires
        o1.len() == o2.len(),
        forall|j: int|
            0 <= j < o1.len() ==> {
                &&& (#[trigger] o2[j]).shape == o1[j].shape
                &&& o2[j].active == o1[j].active
                &&& o2[j].color == o1[j].color
            },
    ensures
        sscene_hit(o2, ray, max_t, i) == sscene_hit(o1, ray, max_t, i),
    decreases o1.len() - i,
{
    if 0 <= i < o1.len() {
        assert(sobject_hit(o2[i], ray, max_t) == sobject_hit(o1[i], ray, max_t));
        lemma_scene_hit_ignores_pending(o1, o2, ray, max_t, i + 1);
    }
}

/// Where a ray meets one placed shape.
fn shape_hit(shape: &Shape, pose: Pose, ray: Ray, max_t: i64) -> (r: Option<ShapeHit>)
    requires
        shape_wf(*shape),
        pose_wf(pose),
        query_wf(ray, max_t),
    ensures
        hit_view(r) == sshape_hit(*shape, pose, ray, max_t as int),
        hit_bounded(r, max_t),
{
    match shape {
        Shape::Sphere { radius } => sphere_hit(pose.pos, *radius, ray, max_t),
        Shape::Triangle(t) => {
            let wa = transform_point(pose, t.a);
            let wb = transform_point(pose, t.b);
            let wc = transform_point(pose, t.c);
            tri_hit(wa, wb, wc, ray, max_t)
        },
        Shape::Mesh(ts) => mesh_hit(ts, pose, ray, max_t),
    }
}

/// The nearest hit among a mesh's triangles.
fn mesh_hit(tris: &Vec<Tri>, pose: Pose, ray: Ray, max_t: i64) -> (r: Option<ShapeHit>)
    requires
        forall|i: int| 0 <= i < tris@.len() ==> tri_wf(tris@[i]),
        pose_wf(pose),
        query_wf(ray, max_t),
    ensures
        hit_view(r) == smesh_hit(tris@, pose, ray, max_t as int, 0),
        hit_bounded(r, max_t),
{
    let mut i: usize = tris.len();
    let mut best: Option<ShapeHit> = None;
    while i > 0
        invariant
            forall|j: int| 0 <= j < tris@.len() ==> tri_wf(tris@[j]),
            pose_wf(pose),
            query_wf(ray, max_t),
            i <= tris@.len(),
            hit_view(best) == smesh_hit(tris@, pose, ray, max_t as int, i as int),
            hit_bounded(best, max_t),
        decreases i,
    {
        i = i - 1;
        let t = tris[i];
        let wa = transform_point(pose, t.a);
        let wb = transform_point(pose, t.b);
        let wc = transform_point(pose, t.c);
        let cur = tri_hit(wa, wb, wc, ray, max_t);
        best = match cur {
            None => best,
            Some(c) => match best {
                None => Some(c),
                Some(b) => if c.t <= b.t {
                    Some(c)
                } else {
                    Some(b)
                },
            },
        };
    }
    best
}

/// A local point carried to world space.
fn transform_point(pose: Pose, v: V3) -> (r: V3)
    requires
        pose_wf(pose),
        bounded(v, APPLY_LIMIT as int),
    ensures
        tv(r) == stransform(pose, v),
        bounded(r, WORLD_LIMIT as int),
{
    let rotated = pose.rot.apply(v);
    V3 {
        x: rotated.x + pose.pos.x,
        y: rotated.y + pose.pos.y,
        z: rotated.z + pose.pos.z,
    }
}

/// Where a ray first meets a sphere.
fn sphere_hit(center: V3, radius: i64, ray: Ray, max_t: i64) -> (r: Option<ShapeHit>)
    requires
        in_range(center),
        0 < radius <= APPLY_LIMIT,
        query_wf(ray, max_t),
    ensures
        hit_view(r) == ssphere_hit(center, radius as int, ray, max_t as int),
        hit_bounded(r, max_t),
{
    let oc = vsub(center, ray.origin);
    proof {
        lemma_sdot_bound(ray.dir, ray.dir, DIR_LIMIT as int, DIR_LIMIT as int);
        lemma_sdot_bound(ray.dir, oc, DIR_LIMIT as int, 0x5000_0000 as int);
        lemma_sdot_bound(oc, oc, 0x5000_0000 as int, 0x5000_0000 as int);
        lemma_mul_bound(radius as int, radius as int, APPLY_LIMIT as int, APPLY_LIMIT as int);
    }
    let a: i128 = vdot(ray.dir, ray.dir);
    let b: i128 = vdot(ray.dir, oc);
    let oc2: i128 = vdot(oc, oc);
    let q: i128 = oc2 - (radius as i128) * (radius as i128);
    proof {
        assert(3 * ((DIR_LIMIT as int) * (0x5000_0000 as int)) == 0xF0_0000_0000_0000)
            by (nonlinear_arith)
            requires DIR_LIMIT == 0x100_0000;
        assert(3 * ((DIR_LIMIT as int) * (DIR_LIMIT as int)) == 0x3_0000_0000_0000)
            by (nonlinear_arith)
            requires DIR_LIMIT == 0x100_0000;
        assert(3 * (0x5000_0000 as int * 0x5000_0000 as int) == 0x4B00_0000_0000_0000)
            by (nonlinear_arith);
        assert((APPLY_LIMIT as int) * (APPLY_LIMIT as int) == 0x1_0000_0000_0000)
            by (nonlinear_arith)
            requires APPLY_LIMIT == 0x100_0000;
        lemma_mul_bound(b as int, b as int, 0xF0_0000_0000_0000, 0xF0_0000_0000_0000);
        lemma_mul_bound(
            a as int,
            q as int,
            0x3_0000_0000_0000,
            0x4B00_0000_0000_0000 as int + 0x1_0000_0000_0000 as int,
        );
        assert(0xF0_0000_0000_0000 * 0xF0_0000_0000_0000
            == 0xE100_0000_0000_0000_0000_0000_0000) by (nonlinear_arith);
        assert(0x3_0000_0000_0000 * (0x4B00_0000_0000_0000 + 0x1_0000_0000_0000)
            == 0xE103_0000_0000_0000_0000_0000_0000) by (nonlinear_arith);
    }
    let disc: i128 = b * b - a * q;
    if a == 0 || disc < 0 {
        return None;
    }
    let s128: u128 = isqrt(disc as u128);
    let s: i128 = s128 as i128;
    proof {
        assert((ray.dir.x as int) * (ray.dir.x as int) >= 0) by (nonlinear_arith);
        assert((ray.dir.y as int) * (ray.dir.y as int) >= 0) by (nonlinear_arith);
        assert((ray.dir.z as int) * (ray.dir.z as int) >= 0) by (nonlinear_arith);
        lemma_mul_bound(
            b - s,
            FP_ONE as int,
            (crate::fixed::SQRT_LIMIT as int) + 3 * ((COORD_LIMIT as int) * (2 * (
            COORD_LIMIT as int))),
            FP_ONE as int,
        );
        lemma_mul_bound(
            b + s,
            FP_ONE as int,
            (crate::fixed::SQRT_LIMIT as int) + 3 * ((COORD_LIMIT as int) * (2 * (
            COORD_LIMIT as int))),
            FP_ONE as int,
        );
    }
    let tn: i128 = fxdiv((b - s) * (FP_ONE as i128), a);
    let tf: i128 = fxdiv((b + s) * (FP_ONE as i128), a);
    let t: i128 = if tn >= 0 {
        tn
    } else {
        tf
    };
    if t < 0 || t > max_t as i128 {
        return None;
    }
    let t64: i64 = t as i64;
    let p = ray_point(ray, t64);
    let n = normalize(vsub(p, center));
    Some(ShapeHit { t: t64, normal: n })
}

/// Where a ray meets a world-space triangle.
fn tri_hit(wa: V3, wb: V3, wc: V3, ray: Ray, max_t: i64) -> (r: Option<ShapeHit>)
    requires
        bounded(wa, WORLD_LIMIT as int),
        bounded(wb, WORLD_LIMIT as int),
        bounded(wc, WORLD_LIMIT as int),
        query_wf(ray, max_t),
    ensures
        hit_view(r) == stri_hit(tv(wa), tv(wb), tv(wc), ray, max_t as int),
        hit_bounded(r, max_t),
{
    let e1 = vsub(wb, wa);
    let e2 = vsub(wc, wa);
    let p = vcross(ray.dir, e2);
    let det: i128 = vdot(e1, p);
    if det == 0 {
        return None;
    }
    let tvec = vsub(ray.origin, wa);
    let u_num: i128 = vdot(tvec, p);
    let q = vcross(tvec, e1);
    proof {
        lemma_scross_bound(tvec, e1, 0x6000_0000 as int, 0x4000_0000 as int);
    }
    let v_num: i128 = vdot(ray.dir, q);
    let inside: bool = if det > 0 {
        0 <= u_num && 0 <= v_num && u_num + v_num <= det
    } else {
        u_num <= 0 && v_num <= 0 && u_num + v_num >= det
    };
    if !inside {
        return None;
    }
    let t_num: i128 = vdot(e2, q);
    proof {
        lemma_mul_bound(
            t_num as int,
            FP_ONE as int,
            3 * ((ARG_A_LIMIT as int) * (NORM_LIMIT as int)),
            FP_ONE as int,
        );
    }
    let t: i128 = if det > 0 {
        fxdiv(t_num * (FP_ONE as i128), det)
    } else {
        fxdiv(-t_num * (FP_ONE as i128), -det)
    };
    if t < 0 || t > max_t as i128 {
        return None;
    }
    let n = normalize(vcross(e1, e2));
    Some(ShapeHit { t: t as i64, normal: n })
}

/// The point a ray reaches at parameter `t`.
pub fn ray_point(ray: Ray, t: i64) -> (r: V3)
    requires
        query_wf(ray, t),
    ensures
        tv(r) == sray_point(ray, t as int),
        bounded(r, ORIGIN_LIMIT as int + 0x8000_0000),
{
    proof {
        lemma_mul_bound(ray.dir.x as int, t as int, DIR_LIMIT as int, MAXT_LIMIT as int);
        lemma_mul_bound(ray.dir.y as int, t as int, DIR_LIMIT as int, MAXT_LIMIT as int);
        lemma_mul_bound(ray.dir.z as int, t as int, DIR_LIMIT as int, MAXT_LIMIT as int);
        lemma_div_t_bound(ray.dir.x * t, FP_ONE as int, (DIR_LIMIT as int) * (MAXT_LIMIT as int));
        lemma_div_t_bound(ray.dir.y * t, FP_ONE as int, (DIR_LIMIT as int) * (MAXT_LIMIT as int));
        lemma_div_t_bound(ray.dir.z * t, FP_ONE as int, (DIR_LIMIT as int) * (MAXT_LIMIT as int));
        assert((DIR_LIMIT as int) * (MAXT_LIMIT as int) / (FP_ONE as int) == 0x8000_0000)
            by (nonlinear_arith)
            requires DIR_LIMIT == 0x100_0000 && MAXT_LIMIT == 0x80_0000 && FP_ONE == 65536;
    }
    let dx = fxdiv((ray.dir.x as i128) * (t as i128), FP_ONE as i128);
    let dy = fxdiv((ray.dir.y as i128) * (t as i128), FP_ONE as i128);
    let dz = fxdiv((ray.dir.z as i128) * (t as i128), FP_ONE as i128);
    V3 {
        x: ray.origin.x + (dx as i64),
        y: ray.origin.y + (dy as i64),
        z: ray.origin.z + (dz as i64),
    }
}

} // verus!
