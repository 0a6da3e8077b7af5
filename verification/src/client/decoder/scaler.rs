//! Decoded frame (any planar YUV) to BGRA at the presentation size: what swscale is asked for.
use vstd::prelude::*;

use crate::client::app::RgbFrame;
use crate::client::decoder::ffmpeg::push_signed;
use crate::text;

verus! {

/// `SWS_BILINEAR`: the value is part of the stable API.
pub const SWS_BILINEAR_FLAG: i32 = 2;

/// What a frame is scaled to.
#[derive(Debug, Clone, Copy, PartialEq, Eq, Structural)]
pub struct ScalePlan {
    pub width: i32,
    pub height: i32,
    /// Bytes per row.
    pub stride: i32,
    /// Number of pixels.
    pub pixels: usize,
}

/// At least one pixel each way.
pub open spec fn side(n: u32) -> int {
    if n == 0 {
        1
    } else {
        n as int
    }
}

/// A frame of this size can be scaled to: its rows can be counted in bytes, its pixels can be
/// held.
pub open spec fn can_scale_to(w: u32, h: u32) -> bool {
    4 * side(w) <= i32::MAX && side(h) <= i32::MAX && side(w) * side(h) <= usize::MAX
}

/// Plans how to scale to `w`x`h`. `None` where a frame of that size cannot be held.
pub fn plan(w: u32, h: u32) -> (r: Option<ScalePlan>)
    ensures
        can_scale_to(w, h) ==> (r matches Some(p) && p.width == side(w) && p.height == side(h)
            && p.stride == 4 * side(w) && p.pixels == side(w) * side(h)),
        !can_scale_to(w, h) ==> r is None,
{
    let w: u32 = if w == 0 {
        1
    } else {
        w
    };
    let h: u32 = if h == 0 {
        1
    } else {
        h
    };
    assert(0 <= w * h <= 0xffff_ffff * 0xffff_ffff) by (nonlinear_arith)
        requires
            0 <= w <= 0xffff_ffff,
            0 <= h <= 0xffff_ffff,
    ;
    let pixels: u64 = w as u64 * h as u64;
    if w > 0x1fff_ffff || h > 0x7fff_ffff || pixels > usize::MAX as u64 {
        None
    } else {
        Some(
            ScalePlan {
                width: w as i32,
                height: h as i32,
                stride: (4 * w) as i32,
                pixels: pixels as usize,
            },
        )
    }
}

/// The message when swscale cannot be set up.
pub fn no_context_text(w: u32, h: u32, format: i32, to_w: u32, to_h: u32) -> (r: String)
    ensures
        r@ == "sws_getCachedContext failed ("@ + text::decimal(w as nat) + "x"@ + text::decimal(
            h as nat,
        ) + " fmt "@ + crate::client::decoder::ffmpeg::signed_text(format) + " -> "@
            + text::decimal(to_w as nat) + "x"@ + text::decimal(to_h as nat) + ")"@,
{
    let mut m = "sws_getCachedContext failed (".to_owned();
    text::push_decimal(&mut m, w as u64);
    m.append("x");
    text::push_decimal(&mut m, h as u64);
    m.append(" fmt ");
    push_signed(&mut m, format);
    m.append(" -> ");
    text::push_decimal(&mut m, to_w as u64);
    m.append("x");
    text::push_decimal(&mut m, to_h as u64);
    m.append(")");
    m
}

/// What scaling came to: the frame, if any rows were written.
pub fn finish(plan: ScalePlan, rows: i32, pixels: Vec<u32>) -> (r: Result<RgbFrame, String>)
    requires
        plan.width >= 0,
        plan.height >= 0,
    ensures
        rows > 0 ==> (r matches Ok(f) && f.width == plan.width && f.height == plan.height
            && f.pixels@ == pixels@),
        rows <= 0 ==> (r matches Err(m) && m@ == "sws_scale produced no rows ("@
            + crate::client::decoder::ffmpeg::signed_text(rows) + ")"@),
{
    if rows <= 0 {
        let mut m = "sws_scale produced no rows (".to_owned();
        push_signed(&mut m, rows);
        m.append(")");
        Err(m)
    } else {
        Ok(RgbFrame { width: plan.width as u32, height: plan.height as u32, pixels })
    }
}

/// A plan has the sides that are asked for, at least one pixel each way, four bytes to a pixel.
pub proof fn plan_has_the_sides_asked_for(w: u32, h: u32, r: Option<ScalePlan>)
    requires
        call_ensures(plan, (w, h), r),
        0 < w <= 0x1FFF_FFFF,
        0 < h <= 0x7FFF_FFFF,
        w * h <= usize::MAX,
    ensures
        r is Some,
        r->0.width == w,
        r->0.height == h,
        r->0.stride == 4 * w,
        r->0.pixels == w * h,
{
}

/// An empty side counts as one pixel.
pub proof fn empty_side_counts_as_one_pixel(n: u32, a: Option<ScalePlan>, b: Option<ScalePlan>)
    requires
        call_ensures(plan, (0, n), a),
        call_ensures(plan, (n, 0), b),
        0 < n <= 0x1FFF_FFFF,
    ensures
        a is Some && a->0.width == 1 && a->0.height == n,
        b is Some && b->0.width == n && b->0.height == 1,
{
}

} // verus!
