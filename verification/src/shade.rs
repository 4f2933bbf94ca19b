//! Per-pixel diffuse shading: single-term Lambertian brightness
//! against a point light, a hard shadow coefficient, gamma correction
//! and re-quantization to the packed 3-3-2 byte.
//!
//! The gamma step maps a fixed-point channel in `[0, FP_ONE]` to its
//! quantized output level through fixed thresholds: level `k` starts
//! at the least channel value whose gamma-corrected intensity reaches
//! `k` output steps, so truncation (never rounding up) is preserved.

use vstd::prelude::*;
use crate::fixed::FP_ONE;
use crate::fixed::V3;
use crate::fixed::Ray;
use crate::fixed::bounded;
use crate::fixed::in_range;
use crate::fixed::div_t;
use crate::fixed::tdot;
use crate::fixed::tsub;
use crate::fixed::tv;
use crate::fixed::tnormalize;
use crate::fixed::lemma_mul_bound;
use crate::fixed::lemma_sdot_bound;
use crate::fixed::lemma_div_t_bound;
use crate::fixed::fxdiv;
use crate::fixed::vsub;
use crate::fixed::vdot;
use crate::fixed::normalize;
use crate::color::pack_color;
use crate::color::packed;

verus! {

/// Offset of the shadow-ray origin along the light direction, about a
/// thousandth of a world unit: enough to step off the lit surface.
pub const SHADOW_EPS: i64 = 66;

/// Largest hit-point coordinate magnitude shading accepts.
pub const HIT_LIMIT: i64 = 0x2000_0000;

/// Gamma thresholds for a three-bit channel: the least fixed-point
/// intensity at which the gamma-corrected (exponent 1/2.2) output
/// reaches each of the levels one to seven.
pub const GAMMA_RG_1: i64 = 676;

pub const GAMMA_RG_2: i64 = 3105;

pub const GAMMA_RG_3: i64 = 7575;

pub const GAMMA_RG_4: i64 = 14264;

pub const GAMMA_RG_5: i64 = 23304;

pub const GAMMA_RG_6: i64 = 34803;

pub const GAMMA_RG_7: i64 = 48854;

/// Gamma thresholds for the two-bit blue channel, levels one to three.
pub const GAMMA_B_1: i64 = 5846;

pub const GAMMA_B_2: i64 = 26859;

pub const GAMMA_B_3: i64 = 65536;

/// The gamma-corrected three-bit level of a fixed-point channel.
pub open spec fn sgamma_rg(v: int) -> int {
    if v >= GAMMA_RG_7 {
        7
    } else if v >= GAMMA_RG_6 {
        6
    } else if v >= GAMMA_RG_5 {
        5
    } else if v >= GAMMA_RG_4 {
        4
    } else if v >= GAMMA_RG_3 {
        3
    } else if v >= GAMMA_RG_2 {
        2
    } else if v >= GAMMA_RG_1 {
        1
    } else {
        0
    }
}

/// The gamma-corrected two-bit level of a fixed-point channel.
pub open spec fn sgamma_b(v: int) -> int {
    if v >= GAMMA_B_3 {
        3
    } else if v >= GAMMA_B_2 {
        2
    } else if v >= GAMMA_B_1 {
        1
    } else {
        0
    }
}

/// The fixed-point direction from the hit point toward the light.
pub open spec fn slight_dir(hit_pos: (int, int, int), light: V3) -> (int, int, int) {
    tnormalize(tsub(tv(light), hit_pos))
}

/// Lambertian brightness: the clamped-to-zero dot product of the unit
/// surface normal and the unit light direction, in fixed point.
pub open spec fn sbrightness(normal: (int, int, int), light_dir: (int, int, int)) -> int {
    let d = tdot(normal, light_dir);
    if d <= 0 {
        0
    } else {
        div_t(d, FP_ONE as int)
    }
}

/// One source channel (already normalized to `[0, FP_ONE]`) after
/// brightness and the shadow coefficient, clamped to one.
pub open spec fn slit_channel(c: int, brightness: int, occluded: bool) -> int {
    if occluded {
        0
    } else {
        let m = div_t(c * brightness, FP_ONE as int);
        if m > FP_ONE {
            FP_ONE as int
        } else {
            m
        }
    }
}

/// The shaded byte for a hit: unpack the object color at its channel
/// depths, scale by brightness and the shadow coefficient, clamp,
/// gamma-correct, re-quantize and pack as 3-3-2.
pub open spec fn sshade(
    hit_pos: (int, int, int),
    normal: (int, int, int),
    color: u8,
    light: V3,
    occluded: bool,
) -> int {
    let ld = slight_dir(hit_pos, light);
    let br = sbrightness(normal, ld);
    let cr = ((color >> 5) as int) * ((FP_ONE as int) / 8);
    let cg = (((color >> 2) & 7) as int) * ((FP_ONE as int) / 8);
    let cb = div_t(((color & 3) as int) * (FP_ONE as int), 3);
    32 * sgamma_rg(slit_channel(cr, br, occluded)) + 4 * sgamma_rg(slit_channel(cg, br, occluded))
        + sgamma_b(slit_channel(cb, br, occluded))
}

/// The shadow ray for a hit point: cast from just off the surface
/// toward the light, along the unit light direction.
pub open spec fn sshadow_ray(hit_pos: (int, int, int), light: V3) -> Ray {
    let ld = slight_dir(hit_pos, light);
    Ray {
        origin: V3 {
            x: (hit_pos.0 + div_t(ld.0 * SHADOW_EPS, FP_ONE as int)) as i64,
            y: (hit_pos.1 + div_t(ld.1 * SHADOW_EPS, FP_ONE as int)) as i64,
            z: (hit_pos.2 + div_t(ld.2 * SHADOW_EPS, FP_ONE as int)) as i64,
        },
        dir: V3 { x: ld.0 as i64, y: ld.1 as i64, z: ld.2 as i64 },
    }
}

/// Build the shadow ray for a hit point and a light position.
pub fn shadow_ray(hit_pos: V3, light: V3) -> (r: Ray)
    requires
        bounded(hit_pos, HIT_LIMIT as int),
        in_range(light),
    ensures
        r == sshadow_ray(tv(hit_pos), light),
        bounded(r.origin, HIT_LIMIT as int + SHADOW_EPS as int),
        bounded(r.dir, FP_ONE as int),
{
    let ld = normalize(vsub(light, hit_pos));
    proof {
        lemma_mul_bound(ld.x as int, SHADOW_EPS as int, FP_ONE as int, SHADOW_EPS as int);
        lemma_mul_bound(ld.y as int, SHADOW_EPS as int, FP_ONE as int, SHADOW_EPS as int);
        lemma_mul_bound(ld.z as int, SHADOW_EPS as int, FP_ONE as int, SHADOW_EPS as int);
        lemma_div_t_bound(ld.x * SHADOW_EPS, FP_ONE as int, (FP_ONE as int) * (SHADOW_EPS as int));
        lemma_div_t_bound(ld.y * SHADOW_EPS, FP_ONE as int, (FP_ONE as int) * (SHADOW_EPS as int));
        lemma_div_t_bound(ld.z * SHADOW_EPS, FP_ONE as int, (FP_ONE as int) * (SHADOW_EPS as int));
    }
    let ox = fxdiv((ld.x as i128) * (SHADOW_EPS as i128), FP_ONE as i128);
    let oy = fxdiv((ld.y as i128) * (SHADOW_EPS as i128), FP_ONE as i128);
    let oz = fxdiv((ld.z as i128) * (SHADOW_EPS as i128), FP_ONE as i128);
    Ray {
        origin: V3 {
            x: hit_pos.x + (ox as i64),
            y: hit_pos.y + (oy as i64),
            z: hit_pos.z + (oz as i64),
        },
        dir: ld,
    }
}

/// Shade a hit: the exact pipeline of `sshade`, one step at a time.
pub fn shade(hit_pos: V3, normal: V3, color: u8, light: V3, occluded: bool) -> (r: u8)
    requires
        bounded(hit_pos, HIT_LIMIT as int),
        bounded(normal, FP_ONE as int),
        in_range(light),
    ensures
        r as int == sshade(tv(hit_pos), tv(normal), color, light, occluded),
        occluded ==> r == 0,
{
    let ld = normalize(vsub(light, hit_pos));
    proof {
        lemma_sdot_bound(normal, ld, FP_ONE as int, FP_ONE as int);
    }
    let d: i128 = vdot(normal, ld);
    proof {
        lemma_div_t_bound(tdot(tv(normal), tv(ld)), FP_ONE as int, 3 * ((FP_ONE as int) * (
        FP_ONE as int)));
        assert(3 * ((FP_ONE as int) * (FP_ONE as int)) / (FP_ONE as int) == 3 * (FP_ONE as int))
            by (nonlinear_arith)
            requires FP_ONE == 65536;
    }
    let br: i64 = if d <= 0 {
        0i64
    } else {
        fxdiv(d, FP_ONE as i128) as i64
    };
    let cr: i64 = ((color >> 5) as i64) * 8192;
    let cg: i64 = (((color >> 2) & 7) as i64) * 8192;
    let cb: i64 = fxdiv(((color & 3) as i128) * (FP_ONE as i128), 3) as i64;
    proof {
        assert((color >> 5) <= 7 && ((color >> 2) & 7) <= 7 && (color & 3) <= 3) by (bit_vector);
        lemma_div_t_bound(((color & 3) as int) * (FP_ONE as int), 3, 3 * (FP_ONE as int));
    }
    let lr = lit_channel(cr, br, occluded);
    let lg = lit_channel(cg, br, occluded);
    let lb = lit_channel(cb, br, occluded);
    let qr = gamma_rg(lr);
    let qg = gamma_rg(lg);
    let qb = gamma_b(lb);
    let byte = pack_color(qr, qg, qb);
    proof {
        crate::color::lemma_packed_value(qr, qg, qb);
    }
    byte
}

/// One channel under brightness and the shadow coefficient.
fn lit_channel(c: i64, brightness: i64, occluded: bool) -> (r: i64)
    requires
        0 <= c <= 3 * FP_ONE,
        0 <= brightness <= 3 * FP_ONE,
    ensures
        r == slit_channel(c as int, brightness as int, occluded),
        0 <= r <= FP_ONE,
{
    if occluded {
        return 0;
    }
    proof {
        assert(0 <= (c as int) * (brightness as int) <= 0x9_0000_0000) by (nonlinear_arith)
            requires 0 <= c <= 196608 && 0 <= brightness <= 196608;
        lemma_div_t_bound((c as int) * (brightness as int), FP_ONE as int, 0x9_0000_0000);
    }
    let m = fxdiv((c as i128) * (brightness as i128), FP_ONE as i128);
    if m > FP_ONE as i128 {
        FP_ONE
    } else {
        m as i64
    }
}

/// The gamma level of a red or green channel.
fn gamma_rg(v: i64) -> (r: u8)
    requires
        0 <= v,
    ensures
        r as int == sgamma_rg(v as int),
        r <= 7,
{
    if v >= GAMMA_RG_7 {
        7
    } else if v >= GAMMA_RG_6 {
        6
    } else if v >= GAMMA_RG_5 {
        5
    } else if v >= GAMMA_RG_4 {
        4
    } else if v >= GAMMA_RG_3 {
        3
    } else if v >= GAMMA_RG_2 {
        2
    } else if v >= GAMMA_RG_1 {
        1
    } else {
        0
    }
}

/// The gamma level of a blue channel.
fn gamma_b(v: i64) -> (r: u8)
    requires
        0 <= v,
    ensures
        r as int == sgamma_b(v as int),
        r <= 3,
{
    if v >= GAMMA_B_3 {
        3
    } else if v >= GAMMA_B_2 {
        2
    } else if v >= GAMMA_B_1 {
        1
    } else {
        0
    }
}

/// With the light unoccluded the shadow coefficient is one, and no
/// shaded channel outshines pure diffuse: every lit channel lies
/// between zero and the Lambertian brightness, itself never negative.
pub proof fn lemma_diffuse_bound(c: int, normal: (int, int, int), light_dir: (int, int, int))
    requires
        0 <= c <= FP_ONE,
    ensures
        0 <= sbrightness(normal, light_dir),
        0 <= slit_channel(c, sbrightness(normal, light_dir), false),
        slit_channel(c, sbrightness(normal, light_dir), false) <= sbrightness(normal, light_dir),
{
    let br = sbrightness(normal, light_dir);
    assert(0 <= br);
    assert(c >= 0 && br >= 0 ==> c * br >= 0) by (nonlinear_arith);
    assert(c <= FP_ONE && br >= 0 ==> c * br <= FP_ONE * br) by (nonlinear_arith);
    assert(FP_ONE > 0 && 0 <= c * br <= FP_ONE * br ==> 0 <= c * br / (FP_ONE as int) <= br)
        by (nonlinear_arith);
}

/// A fully occluded hit is pure black: the shadow coefficient zeroes
/// every channel, and a zero channel quantizes to level zero.
pub proof fn lemma_occluded_black(
    hit_pos: (int, int, int),
    normal: (int, int, int),
    color: u8,
    light: V3,
)
    ensures
        sshade(hit_pos, normal, color, light, true) == 0,
{
}

} // verus!
