//! Fixed-point scalars and 3D vectors.
//!
//! World coordinates, directions and angles are `i64` values scaled by
//! `FP_ONE`: the value `v` stands for the real number `v / FP_ONE`.
//! Intermediate products are taken in `i128`, so every operation here
//! carries an exact arithmetic contract.

use vstd::prelude::*;

verus! {

/// The fixed-point unit: the representation of the real number 1.
pub const FP_ONE: i64 = 65536;

/// Largest coordinate magnitude the geometry functions accept; keeps
/// every intermediate product inside `i128`.
pub const COORD_LIMIT: i64 = 0x1000_0000;

/// A 3D vector (or point) of fixed-point coordinates.
#[derive(Clone, Copy, PartialEq, Eq, Structural, Debug)]
pub struct V3 {
    pub x: i64,
    pub y: i64,
    pub z: i64,
}

/// A ray: an origin point and a direction, both fixed point. Built
/// afresh for every pixel and every shadow test.
#[derive(Clone, Copy, PartialEq, Eq, Structural, Debug)]
pub struct Ray {
    pub origin: V3,
    pub dir: V3,
}

/// All three coordinates within `limit` in magnitude.
pub open spec fn bounded(v: V3, limit: int) -> bool {
    -limit <= v.x <= limit && -limit <= v.y <= limit && -limit <= v.z <= limit
}

/// Within the limit the geometry functions accept.
pub open spec fn in_range(v: V3) -> bool {
    bounded(v, COORD_LIMIT as int)
}

/// Truncating division (round toward zero), the semantics of `/` on
/// machine integers; `d` must be positive.
pub open spec fn div_t(n: int, d: int) -> int {
    if n >= 0 {
        n / d
    } else {
        -((-n) / d)
    }
}

/// Flooring division; `d` must be positive.
pub open spec fn div_f(n: int, d: int) -> int {
    if n >= 0 {
        n / d
    } else {
        -((-n + d - 1) / d)
    }
}

/// Dot product, exact over the integers.
pub open spec fn sdot(a: V3, b: V3) -> int {
    a.x * b.x + a.y * b.y + a.z * b.z
}

/// Cross product, exact over the integers.
pub open spec fn scross(a: V3, b: V3) -> (int, int, int) {
    (a.y * b.z - a.z * b.y, a.z * b.x - a.x * b.z, a.x * b.y - a.y * b.x)
}

/// `|a * b| <= aa * bb` whenever `|a| <= aa` and `|b| <= bb`.
pub proof fn lemma_mul_bound(a: int, b: int, aa: int, bb: int)
    requires
        -aa <= a <= aa,
        -bb <= b <= bb,
        0 <= aa,
        0 <= bb,
    ensures
        -(aa * bb) <= a * b <= aa * bb,
{
    assert(-aa <= a <= aa && -bb <= b <= bb && 0 <= aa && 0 <= bb ==> -(aa * bb) <= a * b
        <= aa * bb) by (nonlinear_arith);
}

/// Truncating division never grows the magnitude of the numerator and
/// keeps the quotient within `n / d`'s exact bound.
pub proof fn lemma_div_t_bound(n: int, d: int, nn: int)
    requires
        d > 0,
        -nn <= n <= nn,
        0 <= nn,
    ensures
        -nn <= div_t(n, d) <= nn,
        -(nn / d) <= div_t(n, d) <= nn / d,
{
    assert(d > 0 && 0 <= n <= nn ==> 0 <= n / d <= nn / d && nn / d <= nn) by (nonlinear_arith);
    assert(d > 0 && 0 <= -n <= nn ==> 0 <= (-n) / d <= nn / d && nn / d <= nn)
        by (nonlinear_arith);
}

/// Truncating division of `n` by a positive `d`.
pub fn fxdiv(n: i128, d: i128) -> (r: i128)
    requires
        d > 0,
        n > i128::MIN,
    ensures
        r == div_t(n as int, d as int),
        -n <= r <= n || n <= r <= -n,
{
    proof {
        lemma_div_t_bound(n as int, d as int, if n >= 0 { n as int } else { -n as int });
    }
    if n >= 0 {
        ((n as u128) / (d as u128)) as i128
    } else {
        let q: u128 = ((-n) as u128) / (d as u128);
        proof {
            assert(d > 0 && n < 0 ==> ((-n) as u128) / (d as u128) <= (-n) as u128)
                by (nonlinear_arith);
        }
        -(q as i128)
    }
}

/// Flooring division of `n` by a positive `d`.
pub fn fxdiv_floor(n: i128, d: i128) -> (r: i128)
    requires
        d > 0,
        i128::MIN + d < n,
        n < i128::MAX - d,
    ensures
        r == div_f(n as int, d as int),
{
    proof {
        let ni = n as int;
        let di = d as int;
        assert(di > 0 && 0 <= ni ==> 0 <= ni / di <= ni) by (nonlinear_arith);
        assert(di > 0 && ni < 0 ==> 0 <= (-ni + di - 1) / di <= -ni + di - 1)
            by (nonlinear_arith);
    }
    if n >= 0 {
        ((n as u128) / (d as u128)) as i128
    } else {
        let q: u128 = ((-n + (d - 1)) as u128) / (d as u128);
        -(q as i128)
    }
}

/// Dot product of integer triples.
pub open spec fn tdot(a: (int, int, int), b: (int, int, int)) -> int {
    a.0 * b.0 + a.1 * b.1 + a.2 * b.2
}

/// Cross product of integer triples.
pub open spec fn tcross(a: (int, int, int), b: (int, int, int)) -> (int, int, int) {
    (a.1 * b.2 - a.2 * b.1, a.2 * b.0 - a.0 * b.2, a.0 * b.1 - a.1 * b.0)
}

/// Difference of integer triples.
pub open spec fn tsub(a: (int, int, int), b: (int, int, int)) -> (int, int, int) {
    (a.0 - b.0, a.1 - b.1, a.2 - b.2)
}

/// The integer triple a vector holds.
pub open spec fn tv(v: V3) -> (int, int, int) {
    (v.x as int, v.y as int, v.z as int)
}

/// Componentwise bound on a dot product.
pub proof fn lemma_sdot_bound(a: V3, b: V3, aa: int, bb: int)
    requires
        bounded(a, aa),
        bounded(b, bb),
        0 <= aa,
        0 <= bb,
    ensures
        -(3 * (aa * bb)) <= sdot(a, b) <= 3 * (aa * bb),
{
    lemma_mul_bound(a.x as int, b.x as int, aa, bb);
    lemma_mul_bound(a.y as int, b.y as int, aa, bb);
    lemma_mul_bound(a.z as int, b.z as int, aa, bb);
}

/// Componentwise bound on a cross product.
pub proof fn lemma_scross_bound(a: V3, b: V3, aa: int, bb: int)
    requires
        bounded(a, aa),
        bounded(b, bb),
        0 <= aa,
        0 <= bb,
    ensures
        -(2 * (aa * bb)) <= scross(a, b).0 <= 2 * (aa * bb),
        -(2 * (aa * bb)) <= scross(a, b).1 <= 2 * (aa * bb),
        -(2 * (aa * bb)) <= scross(a, b).2 <= 2 * (aa * bb),
{
    lemma_mul_bound(a.y as int, b.z as int, aa, bb);
    lemma_mul_bound(a.z as int, b.y as int, aa, bb);
    lemma_mul_bound(a.z as int, b.x as int, aa, bb);
    lemma_mul_bound(a.x as int, b.z as int, aa, bb);
    lemma_mul_bound(a.x as int, b.y as int, aa, bb);
    lemma_mul_bound(a.y as int, b.x as int, aa, bb);
}

/// Largest left-operand coordinate magnitude `vdot` and `vcross`
/// accept.
pub const ARG_A_LIMIT: i64 = 0x6000_0000;

/// Largest right-operand coordinate magnitude `vcross` accepts.
pub const ARG_B_LIMIT: i64 = 0x4000_0000;

/// Dot product, computed in `i128`; the left operand within
/// `ARG_A_LIMIT`, the right within `NORM_LIMIT`.
pub fn vdot(a: V3, b: V3) -> (r: i128)
    requires
        bounded(a, ARG_A_LIMIT as int),
        bounded(b, NORM_LIMIT as int),
    ensures
        r == sdot(a, b),
        -(3 * ((ARG_A_LIMIT as int) * (NORM_LIMIT as int))) <= r <= 3 * ((ARG_A_LIMIT as int) * (
        NORM_LIMIT as int)),
{
    proof {
        lemma_sdot_bound(a, b, ARG_A_LIMIT as int, NORM_LIMIT as int);
        lemma_mul_bound(a.x as int, b.x as int, ARG_A_LIMIT as int, NORM_LIMIT as int);
        lemma_mul_bound(a.y as int, b.y as int, ARG_A_LIMIT as int, NORM_LIMIT as int);
        lemma_mul_bound(a.z as int, b.z as int, ARG_A_LIMIT as int, NORM_LIMIT as int);
    }
    (a.x as i128) * (b.x as i128) + (a.y as i128) * (b.y as i128) + (a.z as i128) * (b.z as i128)
}

/// Cross product, computed in `i128` and stored back in `i64`
/// coordinates.
pub fn vcross(a: V3, b: V3) -> (r: V3)
    requires
        bounded(a, ARG_A_LIMIT as int),
        bounded(b, ARG_B_LIMIT as int),
    ensures
        (r.x as int, r.y as int, r.z as int) == scross(a, b),
        bounded(r, 2 * ((ARG_A_LIMIT as int) * (ARG_B_LIMIT as int))),
        bounded(r, NORM_LIMIT as int),
{
    proof {
        lemma_scross_bound(a, b, ARG_A_LIMIT as int, ARG_B_LIMIT as int);
        lemma_mul_bound(a.y as int, b.z as int, ARG_A_LIMIT as int, ARG_B_LIMIT as int);
        lemma_mul_bound(a.z as int, b.y as int, ARG_A_LIMIT as int, ARG_B_LIMIT as int);
        lemma_mul_bound(a.z as int, b.x as int, ARG_A_LIMIT as int, ARG_B_LIMIT as int);
        lemma_mul_bound(a.x as int, b.z as int, ARG_A_LIMIT as int, ARG_B_LIMIT as int);
        lemma_mul_bound(a.x as int, b.y as int, ARG_A_LIMIT as int, ARG_B_LIMIT as int);
        lemma_mul_bound(a.y as int, b.x as int, ARG_A_LIMIT as int, ARG_B_LIMIT as int);
    }
    let cx: i128 = (a.y as i128) * (b.z as i128) - (a.z as i128) * (b.y as i128);
    let cy: i128 = (a.z as i128) * (b.x as i128) - (a.x as i128) * (b.z as i128);
    let cz: i128 = (a.x as i128) * (b.y as i128) - (a.y as i128) * (b.x as i128);
    V3 { x: cx as i64, y: cy as i64, z: cz as i64 }
}

/// Componentwise difference, exact.
pub fn vsub(a: V3, b: V3) -> (r: V3)
    requires
        bounded(a, 0x1000_0000_0000_0000),
        bounded(b, 0x1000_0000_0000_0000),
    ensures
        r.x == a.x - b.x,
        r.y == a.y - b.y,
        r.z == a.z - b.z,
{
    V3 { x: a.x - b.x, y: a.y - b.y, z: a.z - b.z }
}

/// The remainder of `q` against eight, by the flooring quotient:
/// always in `[0, 8)`.
pub proof fn lemma_mod8_bounds(q: int)
    ensures
        0 <= q - 8 * div_f(q, 8) < 8,
{
    if q >= 0 {
        assert(0 <= q - 8 * (q / 8) < 8) by (nonlinear_arith)
            requires q >= 0;
    } else {
        let m = -q;
        assert(0 <= -m + 8 * ((m + 7) / 8) < 8) by (nonlinear_arith)
            requires m > 0;
    }
}

/// Largest argument `isqrt` accepts.
pub const SQ_LIMIT: u128 = 0x4000_0000_0000_0000_0000_0000_0000_0000;

/// Upper bound on `isqrt`'s result.
pub const SQRT_LIMIT: u128 = 0x8000_0000_0000_0000;

/// The floor of the square root of a non-negative integer.
pub open spec fn sqrt_floor(n: int) -> int {
    choose|r: int| 0 <= r && #[trigger] (r * r) <= n && n < (r + 1) * (r + 1)
}

/// A value with the square-root bracketing property is `sqrt_floor`.
pub proof fn lemma_sqrt_floor_unique(n: int, r: int)
    requires
        0 <= r,
        r * r <= n,
        n < (r + 1) * (r + 1),
    ensures
        sqrt_floor(n) == r,
{
    assert(exists|q: int| 0 <= q && #[trigger] (q * q) <= n && n < (q + 1) * (q + 1)) by {
        assert(0 <= r && r * r <= n && n < (r + 1) * (r + 1));
    }
    let c = sqrt_floor(n);
    assert(0 <= c && c * c <= n && n < (c + 1) * (c + 1));
    if c < r {
        assert(c + 1 <= r);
        assert(c + 1 <= r && 0 <= c ==> (c + 1) * (c + 1) <= r * r) by (nonlinear_arith);
    }
    if r < c {
        assert(r + 1 <= c && 0 <= r ==> (r + 1) * (r + 1) <= c * c) by (nonlinear_arith);
    }
}

/// Integer square root by bisection.
pub fn isqrt(n: u128) -> (r: u128)
    requires
        n < SQ_LIMIT,
    ensures
        r * r <= n,
        n < (r + 1) * (r + 1),
        r as int == sqrt_floor(n as int),
        r <= SQRT_LIMIT,
{
    let mut lo: u128 = 0;
    let mut hi: u128 = SQRT_LIMIT;
    proof {
        assert((SQRT_LIMIT as int) * (SQRT_LIMIT as int) == SQ_LIMIT as int) by (nonlinear_arith);
    }
    while hi - lo > 1
        invariant
            lo < hi,
            hi <= SQRT_LIMIT,
            lo * lo <= n,
            n < hi * hi,
        decreases hi - lo,
    {
        let mid: u128 = lo + (hi - lo) / 2;
        proof {
            assert(mid <= SQRT_LIMIT as int ==> mid * mid <= (SQRT_LIMIT as int) * (
            SQRT_LIMIT as int)) by (nonlinear_arith);
            assert((SQRT_LIMIT as int) * (SQRT_LIMIT as int) == SQ_LIMIT as int)
                by (nonlinear_arith);
        }
        if mid * mid <= n {
            lo = mid;
        } else {
            hi = mid;
        }
    }
    proof {
        lemma_sqrt_floor_unique(n as int, lo as int);
    }
    lo
}

/// Normalization of an integer triple: scaled so its length is close
/// to `FP_ONE`; the zero triple (a degenerate direction) stays zero.
pub open spec fn tnormalize(a: (int, int, int)) -> (int, int, int) {
    let len = sqrt_floor(a.0 * a.0 + a.1 * a.1 + a.2 * a.2);
    if len == 0 {
        (0, 0, 0)
    } else {
        (
            div_t(a.0 * (FP_ONE as int), len),
            div_t(a.1 * (FP_ONE as int), len),
            div_t(a.2 * (FP_ONE as int), len),
        )
    }
}

/// Normalization: the vector scaled so its length is close to `FP_ONE`;
/// the zero vector (a degenerate direction) stays zero.
pub open spec fn snormalize(v: V3) -> (int, int, int) {
    tnormalize(tv(v))
}

/// Largest coordinate magnitude `normalize` accepts.
pub const NORM_LIMIT: i64 = 0x4000_0000_0000_0000;

/// Scale a vector to (fixed-point) unit length; a zero vector stays
/// zero rather than faulting.
pub fn normalize(v: V3) -> (r: V3)
    requires
        bounded(v, NORM_LIMIT as int),
    ensures
        (r.x as int, r.y as int, r.z as int) == snormalize(v),
        bounded(r, FP_ONE as int),
{
    proof {
        lemma_mul_bound(v.x as int, v.x as int, NORM_LIMIT as int, NORM_LIMIT as int);
        lemma_mul_bound(v.y as int, v.y as int, NORM_LIMIT as int, NORM_LIMIT as int);
        lemma_mul_bound(v.z as int, v.z as int, NORM_LIMIT as int, NORM_LIMIT as int);
        assert(v.x as int * v.x as int >= 0) by (nonlinear_arith);
        assert(v.y as int * v.y as int >= 0) by (nonlinear_arith);
        assert(v.z as int * v.z as int >= 0) by (nonlinear_arith);
        assert((NORM_LIMIT as int) * (NORM_LIMIT as int) * 3 < SQ_LIMIT as int)
            by (nonlinear_arith);
    }
    let xx: i128 = (v.x as i128) * (v.x as i128);
    let yy: i128 = (v.y as i128) * (v.y as i128);
    let zz: i128 = (v.z as i128) * (v.z as i128);
    let n2: i128 = xx + yy + zz;
    let len: u128 = isqrt(n2 as u128);
    if len == 0 {
        proof {
            assert(sqrt_floor(v.x * v.x + v.y * v.y + v.z * v.z) == 0);
        }
        V3 { x: 0, y: 0, z: 0 }
    } else {
        let l: i128 = len as i128;
        proof {
            lemma_norm_component_bound(v.x as int, n2 as int, len as int);
            lemma_norm_component_bound(v.y as int, n2 as int, len as int);
            lemma_norm_component_bound(v.z as int, n2 as int, len as int);
        }
        let rx: i128 = fxdiv((v.x as i128) * (FP_ONE as i128), l);
        let ry: i128 = fxdiv((v.y as i128) * (FP_ONE as i128), l);
        let rz: i128 = fxdiv((v.z as i128) * (FP_ONE as i128), l);
        V3 { x: rx as i64, y: ry as i64, z: rz as i64 }
    }
}

/// Largest entry magnitude a rotation matrix may carry: four
/// fixed-point units, ample for any product of rotations.
pub const ROT_LIMIT: i64 = 0x4_0000;

/// Largest coordinate magnitude `Mat3::apply` accepts.
pub const APPLY_LIMIT: i64 = 0x100_0000;

/// A 3-by-3 fixed-point matrix, row major; the rotation part of a
/// rigid transform.
#[derive(Clone, Copy, PartialEq, Eq, Structural, Debug)]
pub struct Mat3 {
    pub xx: i64,
    pub xy: i64,
    pub xz: i64,
    pub yx: i64,
    pub yy: i64,
    pub yz: i64,
    pub zx: i64,
    pub zy: i64,
    pub zz: i64,
}

/// Every entry within `ROT_LIMIT` in magnitude.
pub open spec fn mat_in_range(m: Mat3) -> bool {
    &&& -ROT_LIMIT <= m.xx <= ROT_LIMIT
    &&& -ROT_LIMIT <= m.xy <= ROT_LIMIT
    &&& -ROT_LIMIT <= m.xz <= ROT_LIMIT
    &&& -ROT_LIMIT <= m.yx <= ROT_LIMIT
    &&& -ROT_LIMIT <= m.yy <= ROT_LIMIT
    &&& -ROT_LIMIT <= m.yz <= ROT_LIMIT
    &&& -ROT_LIMIT <= m.zx <= ROT_LIMIT
    &&& -ROT_LIMIT <= m.zy <= ROT_LIMIT
    &&& -ROT_LIMIT <= m.zz <= ROT_LIMIT
}

/// Matrix application `m * v / FP_ONE`, exact over the integers.
pub open spec fn smat_apply(m: Mat3, v: V3) -> (int, int, int) {
    (
        div_t(m.xx * v.x + m.xy * v.y + m.xz * v.z, FP_ONE as int),
        div_t(m.yx * v.x + m.yy * v.y + m.yz * v.z, FP_ONE as int),
        div_t(m.zx * v.x + m.zy * v.y + m.zz * v.z, FP_ONE as int),
    )
}

impl Mat3 {
    /// The identity rotation.
    pub fn identity() -> (m: Mat3)
        ensures
            m == (Mat3 {
                xx: FP_ONE,
                xy: 0,
                xz: 0,
                yx: 0,
                yy: FP_ONE,
                yz: 0,
                zx: 0,
                zy: 0,
                zz: FP_ONE,
            }),
            mat_in_range(m),
    {
        Mat3 { xx: FP_ONE, xy: 0, xz: 0, yx: 0, yy: FP_ONE, yz: 0, zx: 0, zy: 0, zz: FP_ONE }
    }

    /// Rotate a vector: each result coordinate is the row's dot product
    /// scaled back down by one fixed-point unit.
    pub fn apply(&self, v: V3) -> (r: V3)
        requires
            mat_in_range(*self),
            bounded(v, APPLY_LIMIT as int),
        ensures
            (r.x as int, r.y as int, r.z as int) == smat_apply(*self, v),
            in_range(r),
            bounded(v, 2 * FP_ONE as int) ==> bounded(r, 6 * ROT_LIMIT as int),
    {
        let rx = row_apply(self.xx, self.xy, self.xz, v);
        let ry = row_apply(self.yx, self.yy, self.yz, v);
        let rz = row_apply(self.zx, self.zy, self.zz, v);
        V3 { x: rx, y: ry, z: rz }
    }
}

/// One row of a matrix application.
fn row_apply(a: i64, b: i64, c: i64, v: V3) -> (r: i64)
    requires
        -ROT_LIMIT <= a <= ROT_LIMIT,
        -ROT_LIMIT <= b <= ROT_LIMIT,
        -ROT_LIMIT <= c <= ROT_LIMIT,
        bounded(v, APPLY_LIMIT as int),
    ensures
        r == div_t(a * v.x + b * v.y + c * v.z, FP_ONE as int),
        -COORD_LIMIT < r < COORD_LIMIT,
        bounded(v, 2 * FP_ONE as int) ==> -(6 * ROT_LIMIT as int) <= r <= 6 * ROT_LIMIT as int,
{
    proof {
        if bounded(v, 2 * FP_ONE as int) {
            lemma_mul_bound(a as int, v.x as int, ROT_LIMIT as int, 2 * FP_ONE as int);
            lemma_mul_bound(b as int, v.y as int, ROT_LIMIT as int, 2 * FP_ONE as int);
            lemma_mul_bound(c as int, v.z as int, ROT_LIMIT as int, 2 * FP_ONE as int);
            lemma_div_t_bound(
                a * v.x + b * v.y + c * v.z,
                FP_ONE as int,
                3 * ((ROT_LIMIT as int) * (2 * FP_ONE as int)),
            );
            assert(3 * ((ROT_LIMIT as int) * (2 * FP_ONE as int)) / (FP_ONE as int) == 6 * (
            ROT_LIMIT as int)) by (nonlinear_arith)
                requires ROT_LIMIT == 0x4_0000 && FP_ONE == 65536;
        }
    }
    proof {
        lemma_mul_bound(a as int, v.x as int, ROT_LIMIT as int, APPLY_LIMIT as int);
        lemma_mul_bound(b as int, v.y as int, ROT_LIMIT as int, APPLY_LIMIT as int);
        lemma_mul_bound(c as int, v.z as int, ROT_LIMIT as int, APPLY_LIMIT as int);
        lemma_div_t_bound(
            a * v.x + b * v.y + c * v.z,
            FP_ONE as int,
            3 * (ROT_LIMIT as int) * (APPLY_LIMIT as int),
        );
        assert(3 * (ROT_LIMIT as int) * (APPLY_LIMIT as int) / (FP_ONE as int) < COORD_LIMIT
            as int) by (nonlinear_arith);
    }
    let n: i128 = (a as i128) * (v.x as i128) + (b as i128) * (v.y as i128) + (c as i128) * (
    v.z as i128);
    let q = fxdiv(n, FP_ONE as i128);
    q as i64
}

/// A component of a vector never exceeds the vector's length, so the
/// normalized component stays within one fixed-point unit.
proof fn lemma_norm_component_bound(c: int, n2: int, len: int)
    requires
        0 < len,
        c * c <= n2,
        len * len <= n2,
        n2 < (len + 1) * (len + 1),
    ensures
        -len <= c <= len,
        -(FP_ONE as int) <= div_t(c * (FP_ONE as int), len) <= FP_ONE as int,
        -(len * (FP_ONE as int)) <= c * (FP_ONE as int) <= len * (FP_ONE as int),
{
    assert(c * c <= n2 && n2 < (len + 1) * (len + 1) && 0 < len ==> -len <= c <= len)
        by (nonlinear_arith);
    lemma_mul_bound(c, FP_ONE as int, len, FP_ONE as int);
    assert(0 < len && -(len * (FP_ONE as int)) <= c * (FP_ONE as int) <= len * (FP_ONE as int)
        ==> -(FP_ONE as int) <= div_t(c * (FP_ONE as int), len) <= FP_ONE as int)
        by (nonlinear_arith);
}

} // verus!
