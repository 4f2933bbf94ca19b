//! The free-look camera: a position and a yaw/pitch/roll accumulator.
//!
//! Mouse deltas accumulate into the angles without clamping (full
//! wraparound, as a free-look controller has it); held movement keys
//! displace the position along the yaw-rotated axis directions. The
//! trigonometry of the yaw angle is handed in by the caller as a
//! fixed-point sine/cosine pair, so every displacement here is exact
//! integer arithmetic.

use vstd::prelude::*;
use crate::fixed::FP_ONE;
use crate::fixed::V3;
use crate::fixed::Mat3;
use crate::fixed::Ray;
use crate::fixed::div_t;
use crate::fixed::snormalize;
use crate::fixed::smat_apply;
use crate::fixed::mat_in_range;
use crate::fixed::normalize;
use crate::fixed::ROT_LIMIT;
use crate::fixed::lemma_div_t_bound;
use crate::fixed::lemma_mul_bound;

verus! {

/// Largest angle accumulator magnitude the camera accepts before a
/// further mouse delta; far beyond any real session.
pub const ANGLE_LIMIT: i64 = 0x1000_0000_0000;

/// Largest position-coordinate magnitude the camera accepts before a
/// further move.
pub const POS_LIMIT: i64 = 0x1000_0000_0000;

/// Largest move speed `apply_move` accepts (1024 world units a step).
pub const SPEED_LIMIT: i64 = 0x400_0000;

/// A held movement key: the six axis directions of a free-look
/// controller.
#[derive(Clone, Copy, PartialEq, Eq, Structural, Debug)]
pub enum MoveDir {
    Forward,
    Back,
    Left,
    Right,
    Up,
    Down,
}

/// The camera: a world position and accumulated yaw/pitch/roll, all
/// fixed point (angles in radians).
#[derive(Clone, Copy, PartialEq, Eq, Structural, Debug)]
pub struct Camera {
    pub pos: V3,
    pub yaw: i64,
    pub pitch: i64,
    pub roll: i64,
}

/// The displacement a move key produces, given the yaw's sine and
/// cosine: forward is `(sin yaw, 0, cos yaw)`, back its opposite, left
/// and right its quarter turns, up and down the world vertical.
pub open spec fn move_delta(dir: MoveDir, speed: int, sin_yaw: int, cos_yaw: int) -> (
    int,
    int,
    int,
) {
    match dir {
        MoveDir::Forward => (div_t(sin_yaw * speed, FP_ONE as int), 0, div_t(cos_yaw * speed, FP_ONE as int)),
        MoveDir::Back => (div_t(-sin_yaw * speed, FP_ONE as int), 0, div_t(-cos_yaw * speed, FP_ONE as int)),
        MoveDir::Left => (div_t(-cos_yaw * speed, FP_ONE as int), 0, div_t(sin_yaw * speed, FP_ONE as int)),
        MoveDir::Right => (div_t(cos_yaw * speed, FP_ONE as int), 0, div_t(-sin_yaw * speed, FP_ONE as int)),
        MoveDir::Up => (0, speed, 0),
        MoveDir::Down => (0, -speed, 0),
    }
}

/// The primary-ray direction for a pixel before rotation: the pixel
/// mapped to normalized device coordinates (the vertical offset by
/// half the width/height mismatch keeps the image unstretched), with
/// depth one fixed-point unit, then normalized.
pub open spec fn local_ray_dir(x: int, y: int, w: int, h: int) -> V3 {
    let ndc_x = div_t((2 * x - w) * FP_ONE, w);
    let ndc_y = div_t((2 * (y + (w - h) / 2) - w) * FP_ONE, w);
    V3 { x: ndc_x as i64, y: (-ndc_y) as i64, z: FP_ONE }
}

/// The world-space primary-ray direction: the local direction
/// normalized, then rotated by the camera's orientation matrix.
pub open spec fn primary_dir(x: int, y: int, w: int, h: int, rot: Mat3) -> (int, int, int) {
    let local = local_ray_dir(x, y, w, h);
    let n = snormalize(local);
    smat_apply(rot, V3 { x: n.0 as i64, y: n.1 as i64, z: n.2 as i64 })
}

impl Camera {
    /// A camera at the origin, looking down the positive z axis.
    pub fn start() -> (c: Camera)
        ensures
            c == (Camera { pos: V3 { x: 0, y: 0, z: 0 }, yaw: 0, pitch: 0, roll: 0 }),
    {
        Camera { pos: V3 { x: 0, y: 0, z: 0 }, yaw: 0, pitch: 0, roll: 0 }
    }

    /// Accumulate a relative mouse motion: yaw grows by `dx` over the
    /// horizontal normalization, pitch by `dy` over the vertical one;
    /// no clamping, the accumulators wrap freely.
    pub fn apply_mouse_delta(&mut self, dx: i64, dy: i64, norm_x: i64, norm_y: i64)
        requires
            0 < norm_x,
            0 < norm_y,
            -ANGLE_LIMIT <= old(self).yaw <= ANGLE_LIMIT,
            -ANGLE_LIMIT <= old(self).pitch <= ANGLE_LIMIT,
            -ANGLE_LIMIT <= dx <= ANGLE_LIMIT,
            -ANGLE_LIMIT <= dy <= ANGLE_LIMIT,
        ensures
            final(self).yaw == old(self).yaw + div_t(dx * FP_ONE, norm_x as int),
            final(self).pitch == old(self).pitch + div_t(dy * FP_ONE, norm_y as int),
            final(self).roll == old(self).roll,
            final(self).pos == old(self).pos,
    {
        proof {
            lemma_mul_bound(dx as int, FP_ONE as int, ANGLE_LIMIT as int, FP_ONE as int);
            lemma_mul_bound(dy as int, FP_ONE as int, ANGLE_LIMIT as int, FP_ONE as int);
            lemma_div_t_bound(
                dx * (FP_ONE as int),
                norm_x as int,
                (ANGLE_LIMIT as int) * (FP_ONE as int),
            );
            lemma_div_t_bound(
                dy * (FP_ONE as int),
                norm_y as int,
                (ANGLE_LIMIT as int) * (FP_ONE as int),
            );
        }
        let dyaw = crate::fixed::fxdiv((dx as i128) * (FP_ONE as i128), norm_x as i128);
        let dpitch = crate::fixed::fxdiv((dy as i128) * (FP_ONE as i128), norm_y as i128);
        self.yaw = self.yaw + (dyaw as i64);
        self.pitch = self.pitch + (dpitch as i64);
    }

    /// Displace the position along a yaw-rotated axis direction,
    /// scaled by `speed`; `sin_yaw` and `cos_yaw` are the fixed-point
    /// sine and cosine of the current yaw.
    pub fn apply_move(&mut self, dir: MoveDir, speed: i64, sin_yaw: i64, cos_yaw: i64)
        requires
            0 <= speed <= SPEED_LIMIT,
            -FP_ONE <= sin_yaw <= FP_ONE,
            -FP_ONE <= cos_yaw <= FP_ONE,
            -POS_LIMIT <= old(self).pos.x <= POS_LIMIT,
            -POS_LIMIT <= old(self).pos.y <= POS_LIMIT,
            -POS_LIMIT <= old(self).pos.z <= POS_LIMIT,
        ensures
            ((final(self).pos.x as int, final(self).pos.y as int, final(self).pos.z as int)) == (
            (
                old(self).pos.x + move_delta(dir, speed as int, sin_yaw as int, cos_yaw as int).0,
                old(self).pos.y + move_delta(dir, speed as int, sin_yaw as int, cos_yaw as int).1,
                old(self).pos.z + move_delta(dir, speed as int, sin_yaw as int, cos_yaw as int).2,
            )),
            final(self).yaw == old(self).yaw,
            final(self).pitch == old(self).pitch,
            final(self).roll == old(self).roll,
    {
        proof {
            lemma_move_scaled_bound(speed as int, sin_yaw as int);
            lemma_move_scaled_bound(speed as int, cos_yaw as int);
        }
        match dir {
            MoveDir::Forward => {
                self.pos.x = self.pos.x + move_scaled(sin_yaw, speed);
                self.pos.z = self.pos.z + move_scaled(cos_yaw, speed);
            },
            MoveDir::Back => {
                self.pos.x = self.pos.x + move_scaled(-sin_yaw, speed);
                self.pos.z = self.pos.z + move_scaled(-cos_yaw, speed);
            },
            MoveDir::Left => {
                self.pos.x = self.pos.x + move_scaled(-cos_yaw, speed);
                self.pos.z = self.pos.z + move_scaled(sin_yaw, speed);
            },
            MoveDir::Right => {
                self.pos.x = self.pos.x + move_scaled(cos_yaw, speed);
                self.pos.z = self.pos.z + move_scaled(-sin_yaw, speed);
            },
            MoveDir::Up => {
                self.pos.y = self.pos.y + speed;
            },
            MoveDir::Down => {
                self.pos.y = self.pos.y - speed;
            },
        }
    }

    /// The primary ray for a pixel: from the camera position along the
    /// pixel's normalized, rotated direction. `rot` is the camera's
    /// orientation as a matrix (intrinsic yaw, pitch, roll).
    pub fn primary_ray(&self, x: i64, y: i64, w: i64, h: i64, rot: &Mat3) -> (r: Ray)
        requires
            0 < h <= w,
            w <= 0x10000,
            0 <= x < w,
            0 <= y < h,
            mat_in_range(*rot),
        ensures
            r.origin == self.pos,
            ((r.dir.x as int, r.dir.y as int, r.dir.z as int)) == primary_dir(
                x as int,
                y as int,
                w as int,
                h as int,
                *rot,
            ),
            crate::fixed::in_range(r.dir),
            crate::fixed::bounded(r.dir, 6 * crate::fixed::ROT_LIMIT as int),
    {
        let half: i64 = (w - h) / 2;
        proof {
            lemma_div_t_bound((2 * x - w) * (FP_ONE as int), w as int, 0x10000 * (FP_ONE as int));
            lemma_div_t_bound(
                (2 * (y + (w - h) / 2) - w) * (FP_ONE as int),
                w as int,
                0x10000 * (FP_ONE as int),
            );
        }
        let nx = crate::fixed::fxdiv(((2 * x - w) as i128) * (FP_ONE as i128), w as i128);
        let ny = crate::fixed::fxdiv(((2 * (y + half) - w) as i128) * (FP_ONE as i128), w as i128);
        let local = V3 { x: nx as i64, y: -(ny as i64), z: FP_ONE };
        let unit = normalize(local);
        let dir = rot.apply(unit);
        Ray { origin: self.pos, dir }
    }
}

/// `sin_or_cos * speed / FP_ONE`, the horizontal part of a move step.
fn move_scaled(sin_or_cos: i64, speed: i64) -> (r: i64)
    requires
        -FP_ONE <= sin_or_cos <= FP_ONE,
        0 <= speed <= SPEED_LIMIT,
    ensures
        r == div_t(sin_or_cos * speed, FP_ONE as int),
        -SPEED_LIMIT <= r <= SPEED_LIMIT,
{
    proof {
        lemma_move_scaled_bound(speed as int, sin_or_cos as int);
    }
    let q = crate::fixed::fxdiv((sin_or_cos as i128) * (speed as i128), FP_ONE as i128);
    q as i64
}

/// The scaled move step keeps the speed's magnitude.
proof fn lemma_move_scaled_bound(speed: int, t: int)
    requires
        0 <= speed <= SPEED_LIMIT,
        -FP_ONE <= t <= FP_ONE,
    ensures
        -(SPEED_LIMIT as int) * (FP_ONE as int) <= t * speed <= (SPEED_LIMIT as int) * (
        FP_ONE as int),
        -SPEED_LIMIT <= div_t(t * speed, FP_ONE as int) <= SPEED_LIMIT,
{
    lemma_mul_bound(t, speed, FP_ONE as int, SPEED_LIMIT as int);
    lemma_div_t_bound(t * speed, FP_ONE as int, (FP_ONE as int) * (SPEED_LIMIT as int));
    assert((FP_ONE as int) * (SPEED_LIMIT as int) / (FP_ONE as int) == SPEED_LIMIT as int)
        by (nonlinear_arith);
    assert((FP_ONE as int) * (SPEED_LIMIT as int) == (SPEED_LIMIT as int) * (FP_ONE as int))
        by (nonlinear_arith);
}

/// Displacements of independent moves add, so applying two moves in
/// either order reaches the same position: each move only adds its own
/// delta componentwise.
pub proof fn lemma_moves_commute(
    p: (int, int, int),
    d1: MoveDir,
    sp1: int,
    d2: MoveDir,
    sp2: int,
    sin_yaw: int,
    cos_yaw: int,
)
    ensures
        shift(shift(p, move_delta(d1, sp1, sin_yaw, cos_yaw)), move_delta(d2, sp2, sin_yaw, cos_yaw))
            == shift(
            shift(p, move_delta(d2, sp2, sin_yaw, cos_yaw)),
            move_delta(d1, sp1, sin_yaw, cos_yaw),
        ),
{
}

/// A position displaced by a delta, componentwise.
pub open spec fn shift(p: (int, int, int), d: (int, int, int)) -> (int, int, int) {
    (p.0 + d.0, p.1 + d.1, p.2 + d.2)
}

} // verus!
