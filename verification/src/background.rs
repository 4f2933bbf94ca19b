//! The background gradient: the color of a pixel whose primary ray
//! hits nothing, varying with the pixel, the camera's yaw and pitch,
//! and the elapsed time, so camera motion stays visible on an empty
//! screen.

use vstd::prelude::*;
use crate::fixed::FP_ONE;
use crate::fixed::div_f;
use crate::fixed::fxdiv_floor;
use crate::fixed::lemma_mod8_bounds;
use crate::camera::ANGLE_LIMIT;
use crate::color::pack_color;

verus! {

/// Largest elapsed-time value (fixed-point seconds) the background
/// accepts.
pub const TIME_LIMIT: i64 = 0x100_0000_0000;

/// How fast the horizontal gradient drifts with time.
pub const DRIFT_X: i64 = 20;

/// How fast the vertical gradient drifts with time.
pub const DRIFT_Y: i64 = 14;

/// The non-negative remainder of `q` against eight.
pub open spec fn smod8(q: int) -> int {
    q - 8 * div_f(q, 8)
}

/// One gradient channel: the pixel coordinate, drifted by time and by
/// the view angle scaled to the viewport, as a fraction of the
/// viewport, times eight, floored, modulo eight.
pub open spec fn schannel(p: int, drift: int, angle: int, extent: int, time: int) -> int {
    smod8(div_f((p * FP_ONE + drift * time + angle * extent) * 8, extent * FP_ONE))
}

/// The background byte: the horizontal channel from the pixel column,
/// time and yaw; the vertical one from the row, time and pitch; blue
/// zero; packed 3-3-2.
pub open spec fn sbackground(
    x: int,
    y: int,
    w: int,
    h: int,
    yaw: int,
    pitch: int,
    time: int,
) -> int {
    32 * schannel(x, DRIFT_X as int, yaw, w, time) + 4 * schannel(
        y,
        DRIFT_Y as int,
        pitch,
        h,
        time,
    )
}

/// One gradient channel, exactly `schannel`.
fn channel(p: i64, drift: i64, angle: i64, extent: i64, time: i64) -> (r: u8)
    requires
        0 < extent <= 0x10000,
        0 <= p < extent,
        0 < drift <= 20,
        -ANGLE_LIMIT <= angle <= ANGLE_LIMIT,
        0 <= time <= TIME_LIMIT,
    ensures
        r as int == schannel(p as int, drift as int, angle as int, extent as int, time as int),
        r < 8,
{
    proof {
        crate::fixed::lemma_mul_bound(p as int, FP_ONE as int, 0x10000, FP_ONE as int);
        crate::fixed::lemma_mul_bound(drift as int, time as int, 20, TIME_LIMIT as int);
        crate::fixed::lemma_mul_bound(
            angle as int,
            extent as int,
            ANGLE_LIMIT as int,
            0x10000 as int,
        );
    }
    let num: i128 = ((p as i128) * (FP_ONE as i128) + (drift as i128) * (time as i128) + (
    angle as i128) * (extent as i128)) * 8;
    let den: i128 = (extent as i128) * (FP_ONE as i128);
    let q: i128 = fxdiv_floor(num, den);
    proof {
        lemma_mod8_bounds(q as int);
    }
    let qf: i128 = fxdiv_floor(q, 8);
    let m: i128 = q - 8 * qf;
    proof {
        assert(div_f(q as int, 8) == qf as int);
    }
    m as u8
}

/// The background byte for a pixel.
pub fn background(x: i64, y: i64, w: i64, h: i64, yaw: i64, pitch: i64, time: i64) -> (r: u8)
    requires
        0 < w <= 0x10000,
        0 < h <= 0x10000,
        0 <= x < w,
        0 <= y < h,
        -ANGLE_LIMIT <= yaw <= ANGLE_LIMIT,
        -ANGLE_LIMIT <= pitch <= ANGLE_LIMIT,
        0 <= time <= TIME_LIMIT,
    ensures
        r as int == sbackground(
            x as int,
            y as int,
            w as int,
            h as int,
            yaw as int,
            pitch as int,
            time as int,
        ),
{
    let red = channel(x, DRIFT_X, yaw, w, time);
    let green = channel(y, DRIFT_Y, pitch, h, time);
    let byte = pack_color(red, green, 0);
    proof {
        crate::color::lemma_packed_value(red, green, 0);
    }
    byte
}

} // verus!
