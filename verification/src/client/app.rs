//! Window, presentation and input capture.
//!
//! * Decoded frames arrive already scaled to the video area (window size, aspect preserved)
//!   as BGRA `u32` pixels in [`SharedView::latest`]; the redraw blits them centred with black
//!   bars.
//! * Keys are forwarded as physical codes, F11 toggles fullscreen, focus loss releases everything
//!   on the server.
use vstd::arithmetic::div_mod::{
    lemma_div_is_ordered, lemma_div_multiples_vanish, lemma_fundamental_div_mod,
    lemma_fundamental_div_mod_converse,
};
use vstd::prelude::*;

use crate::client::net::UiCommand;
use crate::proto::keycode::KeyCode;
use crate::proto::message::{ControlMessage, MouseButton};
use crate::text;
use crate::{elapsed_since, Nanos};

verus! {

/// Events from the network and decoder threads to the UI thread.
#[derive(Debug)]
pub enum UserEvent {
    /// A new frame is available in [`SharedView::latest`].
    Frame,
    /// Connection status text for the title bar.
    Status(String),
    /// Unrecoverable error: show it and quit.
    Fatal(String),
}

/// A frame scaled to its final on-screen size, `0x00RRGGBB` pixels.
#[derive(Debug, Clone, PartialEq, Eq)]
pub struct RgbFrame {
    pub width: u32,
    pub height: u32,
    pub pixels: Vec<u32>,
}

// ------------------------------------------------------------------------------------------
// What the threads share
// ------------------------------------------------------------------------------------------
/// What the decoder thread and the UI thread share.
#[verifier::ext_equal]
pub struct ViewState {
    /// The latest frame: width, height, pixels.
    pub latest: Option<(u32, u32, Seq<u32>)>,
    /// Window inner size; the decoder scales into it.
    pub target: (u32, u32),
    /// Source video size.
    pub source: (u32, u32),
    /// Number of frames published.
    pub decoded_frames: u64,
    /// The decoder in use.
    pub decoder: Seq<char>,
}

/// State shared between the decoder thread and the UI thread.
pub struct SharedView {
    latest: Option<RgbFrame>,
    /// Window inner size packed as `(w << 32) | h`; the decoder scales into it.
    target_size: u64,
    /// Source video size packed like `target_size`.
    source_size: u64,
    decoded_frames: u64,
    decoder_name: String,
}

/// Two numbers in one.
pub open spec fn packed(w: u32, h: u32) -> u64 {
    (((w as u64) << 32u64) | (h as u64)) as u64
}

/// The first of two packed numbers.
pub open spec fn high(v: u64) -> u32 {
    (v >> 32u64) as u32
}

/// The second of two packed numbers.
pub open spec fn low(v: u64) -> u32 {
    v as u32
}

fn pack(w: u32, h: u32) -> (r: u64)
    ensures
        r == packed(w, h),
{
    ((w as u64) << 32u64) | (h as u64)
}

fn unpack(v: u64) -> (r: (u32, u32))
    ensures
        r == (high(v), low(v)),
{
    ((v >> 32u64) as u32, v as u32)
}

/// Unpacking gives back what was packed.
pub proof fn unpacking_undoes_packing(w: u32, h: u32)
    ensures
        high(packed(w, h)) == w,
        low(packed(w, h)) == h,
{
    assert((((((w as u64) << 32u64) | (h as u64)) as u64) >> 32u64) as u32 == w) by (bit_vector);
    assert(((((w as u64) << 32u64) | (h as u64)) as u64) as u32 == h) by (bit_vector);
}

impl ViewState {
    /// The source size, once it is known.
    pub open spec fn source_known(self) -> Option<(u32, u32)> {
        if self.source.0 == 0 || self.source.1 == 0 {
            None
        } else {
            Some(self.source)
        }
    }
}

/// At least one.
pub open spec fn positive(n: u32) -> u32 {
    if n == 0 {
        1
    } else {
        n
    }
}

fn at_least_one(n: u32) -> (r: u32)
    ensures
        r == positive(n),
        r >= 1,
{
    if n == 0 {
        1
    } else {
        n
    }
}

impl SharedView {
    pub closed spec fn view(&self) -> ViewState {
        ViewState {
            latest: match self.latest {
                Some(f) => Some((f.width, f.height, f.pixels@)),
                None => None,
            },
            target: (high(self.target_size), low(self.target_size)),
            source: (high(self.source_size), low(self.source_size)),
            decoded_frames: self.decoded_frames,
            decoder: self.decoder_name@,
        }
    }

    pub fn new() -> (r: Self)
        ensures
            r@ == (ViewState {
                latest: None,
                target: (1280, 720),
                source: (0, 0),
                decoded_frames: 0,
                decoder: "starting"@,
            }),
    {
        let r = SharedView {
            latest: None,
            target_size: pack(1280, 720),
            source_size: pack(0, 0),
            decoded_frames: 0,
            decoder_name: "starting".to_owned(),
        };
        proof {
            unpacking_undoes_packing(1280, 720);
            unpacking_undoes_packing(0, 0);
        }
        r
    }

    /// Sets the size of the window.
    pub fn set_target_size(&mut self, w: u32, h: u32)
        ensures
            final(self)@ == (ViewState { target: (positive(w), positive(h)), ..old(self)@ }),
    {
        self.target_size = pack(at_least_one(w), at_least_one(h));
        proof {
            unpacking_undoes_packing(positive(w), positive(h));
        }
    }

    pub fn target_size(&self) -> (r: (u32, u32))
        ensures
            r == self@.target,
    {
        unpack(self.target_size)
    }

    /// Sets the size of the video.
    pub fn set_source_size(&mut self, w: u32, h: u32)
        ensures
            final(self)@ == (ViewState { source: (w, h), ..old(self)@ }),
    {
        self.source_size = pack(w, h);
        proof {
            unpacking_undoes_packing(w, h);
        }
    }

    /// The size of the video, once it is known.
    pub fn source_size(&self) -> (r: Option<(u32, u32)>)
        ensures
            r == self@.source_known(),
    {
        let (w, h) = unpack(self.source_size);
        if w == 0 || h == 0 {
            None
        } else {
            Some((w, h))
        }
    }

    pub fn set_decoder_name(&mut self, name: &str)
        ensures
            final(self)@ == (ViewState { decoder: name@, ..old(self)@ }),
    {
        self.decoder_name = name.to_owned();
    }

    pub fn decoder_name(&self) -> (r: String)
        ensures
            r@ == self@.decoder,
    {
        self.decoder_name.clone()
    }

    /// Makes a frame the latest and counts it.
    pub fn publish(&mut self, frame: RgbFrame)
        ensures
            final(self)@ == (ViewState {
                latest: Some((frame.width, frame.height, frame.pixels@)),
                decoded_frames: if old(self)@.decoded_frames == u64::MAX {
                    0
                } else {
                    (old(self)@.decoded_frames + 1) as u64
                },
                ..old(self)@
            }),
    {
        self.latest = Some(frame);
        self.decoded_frames = if self.decoded_frames == u64::MAX {
            0
        } else {
            self.decoded_frames + 1
        };
    }

    /// The latest frame.
    pub fn latest(&self) -> (r: &Option<RgbFrame>)
        ensures
            match *r {
                Some(f) => self@.latest == Some((f.width, f.height, f.pixels@)),
                None => self@.latest is None,
            },
    {
        &self.latest
    }

    /// Number of frames published.
    pub fn decoded_frames(&self) -> (r: u64)
        ensures
            r == self@.decoded_frames,
    {
        self.decoded_frames
    }
}

// ------------------------------------------------------------------------------------------
// Where the video goes
// ------------------------------------------------------------------------------------------
/// `n / d`, rounded to the nearest integer.
pub open spec fn nearest(n: int, d: int) -> int {
    (2 * n + d) / (2 * d)
}

/// The window is too narrow for the video at full height: the width decides.
pub open spec fn width_decides(target: (u32, u32), src: (u32, u32)) -> bool {
    positive(target.0) * positive(src.1) <= positive(target.1) * positive(src.0)
}

/// At least two.
pub open spec fn at_least_two(n: int) -> int {
    if n < 2 {
        2
    } else {
        n
    }
}

/// At least one.
pub open spec fn no_zero(n: int) -> int {
    if n < 1 {
        1
    } else {
        n
    }
}

/// The largest rectangle with the aspect of `src` that fits into `target`, to the nearest pixel.
pub open spec fn fitted(target: (u32, u32), src: (u32, u32)) -> (int, int) {
    let (tw, th) = (positive(target.0) as int, positive(target.1) as int);
    let (sw, sh) = (positive(src.0) as int, positive(src.1) as int);
    if width_decides(target, src) {
        (at_least_two(tw), at_least_two(no_zero(nearest(sh * tw, sw))))
    } else {
        (at_least_two(no_zero(nearest(sw * th, sh))), at_least_two(th))
    }
}

/// `n / d` rounded is at most `m` if `n / d` is.
proof fn lemma_nearest_bound(n: int, d: int, m: int)
    requires
        d > 0,
        0 <= n <= m * d,
    ensures
        0 <= nearest(n, d) <= m,
{
    assert(2 * n + d <= m * (2 * d) + d) by (nonlinear_arith)
        requires
            n <= m * d,
    ;
    lemma_div_is_ordered(2 * n + d, m * (2 * d) + d, 2 * d);
    lemma_fundamental_div_mod_converse(m * (2 * d) + d, 2 * d, m, d);
    lemma_fundamental_div_mod(2 * n + d, 2 * d);
    assert(nearest(n, d) >= 0) by {
        lemma_div_is_ordered(0, 2 * n + d, 2 * d);
        lemma_div_multiples_vanish(0, 2 * d);
    }
}

fn scaled(n: u32, by: u32, d: u32, Ghost(m): Ghost<int>) -> (r: u32)
    requires
        d > 0,
        n * by <= m * d,
        m <= u32::MAX,
    ensures
        r == nearest(n * by, d as int),
{
    assert(0 <= n * by <= 0xffff_ffff * 0xffff_ffff) by (nonlinear_arith)
        requires
            0 <= n <= 0xffff_ffff,
            0 <= by <= 0xffff_ffff,
    ;
    proof {
        lemma_nearest_bound(n * by, d as int, m);
    }
    let product: u128 = n as u128 * by as u128;
    let r: u128 = (2 * product + d as u128) / (2 * d as u128);
    r as u32
}

/// Computes the largest `src`-aspect rectangle that fits into `target`.
pub fn fit_aspect(target: (u32, u32), src: (u32, u32)) -> (r: (u32, u32))
    ensures
        (r.0 as int, r.1 as int) == fitted(target, src),
{
    let (tw, th) = (at_least_one(target.0), at_least_one(target.1));
    let (sw, sh) = (at_least_one(src.0), at_least_one(src.1));
    assert(0 <= tw * sh <= 0xffff_ffff * 0xffff_ffff) by (nonlinear_arith)
        requires
            0 <= tw <= 0xffff_ffff,
            0 <= sh <= 0xffff_ffff,
    ;
    assert(0 <= th * sw <= 0xffff_ffff * 0xffff_ffff) by (nonlinear_arith)
        requires
            0 <= th <= 0xffff_ffff,
            0 <= sw <= 0xffff_ffff,
    ;
    let (w, h) = if tw as u64 * sh as u64 <= th as u64 * sw as u64 {
        assert(sh * tw == tw * sh) by (nonlinear_arith);
        (tw, scaled(sh, tw, sw, Ghost(th as int)))
    } else {
        assert(sw * th == th * sw) by (nonlinear_arith);
        (scaled(sw, th, sh, Ghost(tw as int)), th)
    };
    (
        if w < 2 {
            2
        } else {
            w
        },
        if h < 2 {
            2
        } else {
            h
        },
    )
}

/// The fitted rectangle lies within the target (a target has at least two pixels each way),
/// touches it on one side, and on the other is the exact width or height to within half a
/// pixel, unless that is less than two pixels.
pub proof fn fitted_rectangle_fits(target: (u32, u32), src: (u32, u32))
    ensures
        ({
            let (w, h) = fitted(target, src);
            let (tw, th) = (positive(target.0) as int, positive(target.1) as int);
            let (sw, sh) = (positive(src.0) as int, positive(src.1) as int);
            &&& 2 <= w <= at_least_two(tw)
            &&& 2 <= h <= at_least_two(th)
            &&& w == at_least_two(tw) || h == at_least_two(th)
            &&& width_decides(target, src) && h > 2 ==> -sw <= 2 * (h * sw - sh * tw) <= sw
            &&& !width_decides(target, src) && w > 2 ==> -sh <= 2 * (w * sh - sw * th) <= sh
        }),
{
    let (tw, th) = (positive(target.0) as int, positive(target.1) as int);
    let (sw, sh) = (positive(src.0) as int, positive(src.1) as int);
    if width_decides(target, src) {
        assert(sh * tw == tw * sh) by (nonlinear_arith);
        assert(0 <= sh * tw) by (nonlinear_arith)
            requires
                sh >= 0,
                tw >= 0,
        ;
        lemma_nearest_bound(sh * tw, sw, th);
        lemma_nearest_is_near(sh * tw, sw);
    } else {
        assert(sw * th == th * sw) by (nonlinear_arith);
        assert(0 <= sw * th) by (nonlinear_arith)
            requires
                sw >= 0,
                th >= 0,
        ;
        lemma_nearest_bound(sw * th, sh, tw);
        lemma_nearest_is_near(sw * th, sh);
    }
}

proof fn lemma_nearest_is_near(n: int, d: int)
    requires
        d > 0,
    ensures
        -d <= 2 * (nearest(n, d) * d - n) <= d,
{
    let q = nearest(n, d);
    lemma_fundamental_div_mod(2 * n + d, 2 * d);
    assert((2 * d) * q == 2 * (q * d)) by (nonlinear_arith);
}

/// Where the video stands in a window of that size: `(x, y, width, height)`. The latest frame is
/// centred; where there is none, or it does not fit, the video fills the window.
pub open spec fn video_area(window: (u32, u32), frame: Option<(u32, u32)>) -> (u32, u32, u32, u32) {
    let (ww, wh) = (positive(window.0), positive(window.1));
    match frame {
        Some((fw, fh)) if fw <= ww && fh <= wh => (
            ((ww - fw) / 2) as u32,
            ((wh - fh) / 2) as u32,
            fw,
            fh,
        ),
        _ => (0, 0, ww, wh),
    }
}

/// Video rectangle `(x, y, width, height)` inside the window, from the latest frame's size.
pub fn video_rect(window: (u32, u32), frame: Option<(u32, u32)>) -> (r: (u32, u32, u32, u32))
    ensures
        r == video_area(window, frame),
{
    let (ww, wh) = (at_least_one(window.0), at_least_one(window.1));
    match frame {
        Some((fw, fh)) => {
            if fw <= ww && fh <= wh {
                ((ww - fw) / 2, (wh - fh) / 2, fw, fh)
            } else {
                (0, 0, ww, wh)
            }
        },
        None => (0, 0, ww, wh),
    }
}

// ------------------------------------------------------------------------------------------
// Drawing
// ------------------------------------------------------------------------------------------
/// The smaller of two numbers.
pub open spec fn smaller(a: int, b: int) -> int {
    if a < b {
        a
    } else {
        b
    }
}

/// How a frame is laid over a window: centred, clipped around the centre where it is larger.
pub struct Layout {
    /// Size of the frame.
    pub fw: int,
    pub fh: int,
    /// Size of the window.
    pub w: int,
    pub h: int,
}

impl Layout {
    pub open spec fn copy_w(self) -> int {
        smaller(self.fw, self.w)
    }

    pub open spec fn copy_h(self) -> int {
        smaller(self.fh, self.h)
    }

    pub open spec fn x0(self) -> int {
        (self.w - self.copy_w()) / 2
    }

    pub open spec fn y0(self) -> int {
        (self.h - self.copy_h()) / 2
    }

    pub open spec fn sx0(self) -> int {
        (self.fw - self.copy_w()) / 2
    }

    pub open spec fn sy0(self) -> int {
        (self.fh - self.copy_h()) / 2
    }

    /// Where row `row` of the part that is shown begins in the frame.
    pub open spec fn from(self, row: int) -> int {
        (self.sy0() + row) * self.fw + self.sx0()
    }

    /// Where row `row` of the part that is shown begins in the window.
    pub open spec fn to(self, row: int) -> int {
        (self.y0() + row) * self.w + self.x0()
    }

    /// The pixels reach as far as the part that is shown.
    pub open spec fn fits(self, pixels: int, dst: int) -> bool {
        self.copy_h() > 0 ==> {
            &&& self.from(self.copy_h() - 1) + self.copy_w() <= pixels
            &&& self.to(self.copy_h() - 1) + self.copy_w() <= dst
        }
    }

    /// The window's pixel `(x, y)` shows the frame.
    pub open spec fn covers(self, x: int, y: int) -> bool {
        self.x0() <= x < self.x0() + self.copy_w() && self.y0() <= y < self.y0() + self.copy_h()
    }

    /// What pixel `i` of the window shows: the frame, or black.
    pub open spec fn shown(self, pixels: Seq<u32>, i: int) -> u32 {
        if self.w > 0 && self.covers(i % self.w, i / self.w) {
            pixels[self.from(i / self.w - self.y0()) + (i % self.w - self.x0())]
        } else {
            0
        }
    }
}

/// The layout of a frame in a window.
pub open spec fn layout(frame: RgbFrame, width: u32, height: u32) -> Layout {
    Layout {
        fw: frame.width as int,
        fh: frame.height as int,
        w: width as int,
        h: height as int,
    }
}

/// The frame has just the size of the window.
pub open spec fn same_size(frame: RgbFrame, dst: nat, width: u32, height: u32) -> bool {
    frame.width == width && frame.height == height && frame.pixels@.len() == dst
}

/// The start of a row lies not behind that of a later row.
proof fn lemma_rows(base: int, row: int, last: int, width: int, x: int)
    requires
        0 <= row <= last,
        0 <= base,
        0 <= width,
    ensures
        0 <= (base + row) * width,
        (base + row) * width + x <= (base + last) * width + x,
{
    assert((base + row) * width <= (base + last) * width) by (nonlinear_arith)
        requires
            row <= last,
            0 <= width,
    ;
    assert(0 <= (base + row) * width) by (nonlinear_arith)
        requires
            0 <= base + row,
            0 <= width,
    ;
}

/// What is shown at the places of a row that the part that is shown takes, and at those of other
/// rows.
proof fn lemma_shown(l: Layout, pixels: Seq<u32>, i: int, row: int)
    requires
        0 <= l.fw,
        0 <= l.fh,
        0 <= l.w,
        0 <= l.h,
        0 <= row < l.copy_h(),
        0 <= i,
    ensures
        l.to(row) <= i < l.to(row) + l.copy_w() ==> l.shown(pixels, i) == pixels[l.from(row) + (i
            - l.to(row))],
        l.w > 0 && i / l.w == l.y0() + row && !(l.to(row) <= i < l.to(row) + l.copy_w())
            ==> l.shown(pixels, i) == 0,
{
    let y = l.y0() + row;
    if l.to(row) <= i < l.to(row) + l.copy_w() {
        let k = i - l.to(row);
        lemma_fundamental_div_mod_converse(i, l.w, y, l.x0() + k);
    } else if l.w > 0 && i / l.w == y {
        lemma_fundamental_div_mod(i, l.w);
        assert(l.w * (i / l.w) == y * l.w) by (nonlinear_arith)
            requires
                i / l.w == y,
        ;
    }
}

/// Copies `frame` centred into `dst` (a `width`x`height` buffer), black elsewhere.
pub fn blit(frame: &RgbFrame, dst: &mut [u32], width: u32, height: u32)
    requires
        same_size(*frame, old(dst)@.len(), width, height) || layout(*frame, width, height).fits(
            frame.pixels@.len() as int,
            old(dst)@.len() as int,
        ),
    ensures
        final(dst)@.len() == old(dst)@.len(),
        same_size(*frame, old(dst)@.len(), width, height) ==> final(dst)@ == frame.pixels@,
        !same_size(*frame, old(dst)@.len(), width, height) ==> forall|i: int|
            0 <= i < final(dst)@.len() ==> #[trigger] final(dst)@[i] == layout(
                *frame,
                width,
                height,
            ).shown(frame.pixels@, i),
{
    let (w, h) = (width as usize, height as usize);
    let (fw, fh) = (frame.width as usize, frame.height as usize);
    let n = dst.len();
    let pixels = &frame.pixels;
    let m = pixels.len();
    let ghost l = layout(*frame, width, height);
    if fw == w && fh == h && m == n {
        for i in 0..n
            invariant
                dst@.len() == n,
                pixels@.len() == n,
                forall|j: int| 0 <= j < i ==> dst@[j] == pixels@[j],
        {
            dst[i] = pixels[i];
        }
        assert(dst@ =~= pixels@);
        return;
    }
    for i in 0..n
        invariant
            dst@.len() == n,
            forall|j: int| 0 <= j < i ==> dst@[j] == 0,
    {
        dst[i] = 0;
    }
    let copy_w = if fw < w {
        fw
    } else {
        w
    };
    let copy_h = if fh < h {
        fh
    } else {
        h
    };
    let x0 = (w - copy_w) / 2;
    let y0 = (h - copy_h) / 2;
    let sx0 = (fw - copy_w) / 2;
    let sy0 = (fh - copy_h) / 2;
    for row in 0..copy_h
        invariant
            dst@.len() == n,
            pixels@.len() == m,
            pixels@ == frame.pixels@,
            l == layout(*frame, width, height),
            l.fw == fw,
            l.fh == fh,
            l.w == w,
            l.h == h,
            l.copy_w() == copy_w,
            l.copy_h() == copy_h,
            l.x0() == x0,
            l.y0() == y0,
            l.sx0() == sx0,
            l.sy0() == sy0,
            l.fits(pixels@.len() as int, n as int),
            forall|i: int|
                0 <= i < n && (w == 0 || i / l.w < l.y0() + row) ==> #[trigger] dst@[i] == l.shown(
                    pixels@,
                    i,
                ),
            forall|i: int|
                0 <= i < n && !(w == 0 || i / l.w < l.y0() + row) ==> #[trigger] dst@[i] == 0,
    {
        proof {
            lemma_rows(l.sy0(), row as int, copy_h - 1, l.fw, l.sx0());
            lemma_rows(l.y0(), row as int, copy_h - 1, l.w, l.x0());
        }
        let from = (sy0 + row) * fw + sx0;
        let to = (y0 + row) * w + x0;
        for k in 0..copy_w
            invariant
                dst@.len() == n,
                pixels@ == frame.pixels@,
                pixels@.len() == m,
                from + copy_w <= m,
                to + copy_w <= n,
                l == layout(*frame, width, height),
                l.w == w,
                l.h == h,
                l.copy_w() == copy_w,
                l.copy_h() == copy_h,
                l.from(row as int) == from,
                l.to(row as int) == to,
                row < copy_h,
                copy_w > 0 ==> w > 0,
                forall|i: int|
                    0 <= i < n && (w == 0 || i / l.w < l.y0() + row) ==> #[trigger] dst@[i]
                        == l.shown(pixels@, i),
                forall|i: int|
                    to <= i < to + k ==> #[trigger] dst@[i] == pixels@[from + (i - to)],
                forall|i: int|
                    0 <= i < n && !(w == 0 || i / l.w < l.y0() + row) && !(to <= i < to + k)
                        ==> #[trigger] dst@[i] == 0,
        {
            dst[to + k] = pixels[from + k];
            proof {
                lemma_place(l, row as int, k as int);
            }
        }
        proof {
            assert forall|i: int| 0 <= i < n && (w == 0 || i / l.w < l.y0() + row + 1) implies
                #[trigger] dst@[i] == l.shown(pixels@, i) by {
                if w > 0 && i / l.w == l.y0() + row {
                    lemma_shown(l, pixels@, i, row as int);
                }
            }
            assert forall|i: int| 0 <= i < n && !(w == 0 || i / l.w < l.y0() + row + 1) implies
                #[trigger] dst@[i] == 0 by {
                if to <= i < to + copy_w {
                    lemma_place(l, row as int, i - to);
                }
            }
        }
    }
}

/// The places that a row takes lie in that row of the window.
proof fn lemma_place(l: Layout, row: int, k: int)
    requires
        0 <= l.fw,
        0 <= l.fh,
        0 < l.w,
        0 <= l.h,
        0 <= row < l.copy_h(),
        0 <= k < l.copy_w(),
    ensures
        (l.to(row) + k) / l.w == l.y0() + row,
{
    lemma_fundamental_div_mod_converse(l.to(row) + k, l.w, l.y0() + row, l.x0() + k);
}

// ------------------------------------------------------------------------------------------
// Keys and buttons
// ------------------------------------------------------------------------------------------
/// What a key event comes to.
#[derive(Debug)]
pub enum KeyStep {
    /// Nothing: the key is unknown, or repeats (the X server on the VM generates auto-repeat
    /// itself).
    Nothing,
    ToggleFullscreen,
    /// This goes to the server.
    Send(ControlMessage),
}

/// The keys and buttons held down in the window.
pub struct Held {
    keys: Vec<KeyCode>,
    buttons: Vec<MouseButton>,
}

/// Nothing stands in the list twice.
pub open spec fn distinct<T>(s: Seq<T>) -> bool {
    forall|i: int, j: int| 0 <= i < j < s.len() ==> s[i] != s[j]
}

/// What a key event comes to.
pub open spec fn key_step(key: Option<KeyCode>, pressed: bool, repeat: bool) -> KeyStep {
    match key {
        Some(KeyCode::F11) => if pressed && !repeat {
            KeyStep::ToggleFullscreen
        } else {
            KeyStep::Nothing
        },
        Some(code) => if repeat {
            KeyStep::Nothing
        } else {
            KeyStep::Send(ControlMessage::Key { code, pressed })
        },
        None => KeyStep::Nothing,
    }
}

impl Held {
    pub closed spec fn keys(self) -> Set<KeyCode> {
        self.keys@.to_set()
    }

    pub closed spec fn buttons(self) -> Set<MouseButton> {
        self.buttons@.to_set()
    }

    pub closed spec fn wf(self) -> bool {
        distinct(self.keys@) && distinct(self.buttons@)
    }

    pub fn new() -> (r: Self)
        ensures
            r.wf(),
            r.keys() == Set::<KeyCode>::empty(),
            r.buttons() == Set::<MouseButton>::empty(),
    {
        let r = Held { keys: Vec::new(), buttons: Vec::new() };
        assert(r.keys() =~= Set::<KeyCode>::empty());
        assert(r.buttons() =~= Set::<MouseButton>::empty());
        r
    }

    /// A key event of the window. `key` is the physical key, where the protocol has it.
    pub fn on_key(&mut self, key: Option<KeyCode>, pressed: bool, repeat: bool) -> (r: KeyStep)
        requires
            old(self).wf(),
        ensures
            final(self).wf(),
            r == key_step(key, pressed, repeat),
            final(self).buttons() == old(self).buttons(),
            final(self).keys() == (match r {
                KeyStep::Send(ControlMessage::Key { code, pressed: true }) => old(
                    self,
                ).keys().insert(code),
                KeyStep::Send(ControlMessage::Key { code, pressed: false }) => old(
                    self,
                ).keys().remove(code),
                _ => old(self).keys(),
            }),
    {
        match key {
            None => KeyStep::Nothing,
            Some(code) => {
                if code == KeyCode::F11 {
                    if pressed && !repeat {
                        KeyStep::ToggleFullscreen
                    } else {
                        KeyStep::Nothing
                    }
                } else if repeat {
                    KeyStep::Nothing
                } else {
                    let at = key_position(&self.keys, code);
                    let ghost before = self.keys@;
                    if pressed {
                        if at == self.keys.len() {
                            self.keys.push(code);
                            proof {
                                lemma_push(before, code);
                            }
                        } else {
                            proof {
                                lemma_kept(before, at as int);
                            }
                        }
                    } else if at < self.keys.len() {
                        self.keys.remove(at);
                        proof {
                            lemma_remove(before, at as int);
                        }
                    } else {
                        proof {
                            lemma_absent(before, code);
                        }
                    }
                    KeyStep::Send(ControlMessage::Key { code, pressed })
                }
            },
        }
    }

    /// A button event of the window, and what goes to the server. `button` is the button, where
    /// the protocol has it.
    pub fn on_button(&mut self, button: Option<MouseButton>, pressed: bool) -> (r: Option<
        ControlMessage,
    >)
        requires
            old(self).wf(),
        ensures
            final(self).wf(),
            final(self).keys() == old(self).keys(),
            match button {
                Some(b) => {
                    &&& r == Some(ControlMessage::Button { button: b, pressed })
                    &&& final(self).buttons() == if pressed {
                        old(self).buttons().insert(b)
                    } else {
                        old(self).buttons().remove(b)
                    }
                },
                None => r is None && final(self).buttons() == old(self).buttons(),
            },
    {
        match button {
            None => None,
            Some(b) => {
                let at = button_position(&self.buttons, b);
                let ghost before = self.buttons@;
                if pressed {
                    if at == self.buttons.len() {
                        self.buttons.push(b);
                        proof {
                            lemma_push(before, b);
                        }
                    } else {
                        proof {
                            lemma_kept(before, at as int);
                        }
                    }
                } else if at < self.buttons.len() {
                    self.buttons.remove(at);
                    proof {
                        lemma_remove(before, at as int);
                    }
                } else {
                    proof {
                        lemma_absent(before, b);
                    }
                }
                Some(ControlMessage::Button { button: b, pressed })
            },
        }
    }

    /// Forgets what is held down and has the server release it. With the message, the number of
    /// keys and buttons.
    pub fn release_all(&mut self) -> (r: (ControlMessage, usize, usize))
        requires
            old(self).wf(),
        ensures
            final(self).wf(),
            final(self).keys() == Set::<KeyCode>::empty(),
            final(self).buttons() == Set::<MouseButton>::empty(),
            r.0 == ControlMessage::ReleaseAll,
            r.1 == old(self).keys().len(),
            r.2 == old(self).buttons().len(),
    {
        proof {
            lemma_count(self.keys@);
            lemma_count(self.buttons@);
        }
        let keys = self.keys.len();
        let buttons = self.buttons.len();
        self.keys = Vec::new();
        self.buttons = Vec::new();
        assert(self.keys() =~= Set::<KeyCode>::empty());
        assert(self.buttons() =~= Set::<MouseButton>::empty());
        (ControlMessage::ReleaseAll, keys, buttons)
    }

    /// The window got or lost the focus: losing it releases everything on the server.
    pub fn on_focus(&mut self, focused: bool) -> (r: Option<ControlMessage>)
        requires
            old(self).wf(),
        ensures
            final(self).wf(),
            focused ==> r is None && *final(self) == *old(self),
            !focused ==> r == Some(ControlMessage::ReleaseAll),
            !focused ==> final(self).keys() == Set::<KeyCode>::empty() && final(self).buttons()
                == Set::<MouseButton>::empty(),
    {
        if focused {
            None
        } else {
            Some(self.release_all().0)
        }
    }

    /// The window is about to close: everything is released on the server before the
    /// connection ends.
    pub fn on_close(&mut self) -> (r: Vec<UiCommand>)
        requires
            old(self).wf(),
        ensures
            final(self).wf(),
            final(self).keys() == Set::<KeyCode>::empty(),
            final(self).buttons() == Set::<MouseButton>::empty(),
            r@ == seq![UiCommand::Control(ControlMessage::ReleaseAll), UiCommand::Quit],
    {
        let mut out: Vec<UiCommand> = Vec::new();
        let (m, _, _) = self.release_all();
        out.push(UiCommand::Control(m));
        out.push(UiCommand::Quit);
        assert(out@ =~= seq![UiCommand::Control(ControlMessage::ReleaseAll), UiCommand::Quit]);
        out
    }
}

fn key_position(v: &Vec<KeyCode>, k: KeyCode) -> (r: usize)
    ensures
        r <= v@.len(),
        r < v@.len() ==> v@[r as int] == k,
        r == v@.len() ==> !v@.contains(k),
{
    for i in 0..v.len()
        invariant
            forall|j: int| 0 <= j < i ==> v@[j] != k,
    {
        if v[i] == k {
            return i;
        }
    }
    v.len()
}

fn button_position(v: &Vec<MouseButton>, b: MouseButton) -> (r: usize)
    ensures
        r <= v@.len(),
        r < v@.len() ==> v@[r as int] == b,
        r == v@.len() ==> !v@.contains(b),
{
    for i in 0..v.len()
        invariant
            forall|j: int| 0 <= j < i ==> v@[j] != b,
    {
        if v[i] == b {
            return i;
        }
    }
    v.len()
}

proof fn lemma_push<T>(s: Seq<T>, x: T)
    requires
        distinct(s),
        !s.contains(x),
    ensures
        distinct(s.push(x)),
        s.push(x).to_set() == s.to_set().insert(x),
{
    assert forall|y: T| s.push(x).to_set().contains(y) == s.to_set().insert(x).contains(y) by {
        if s.contains(y) {
            let i = choose|i: int| 0 <= i < s.len() && s[i] == y;
            assert(s.push(x)[i] == y);
        }
        assert(s.push(x)[s.len() as int] == x);
    }
    assert(s.push(x).to_set() =~= s.to_set().insert(x));
}

proof fn lemma_kept<T>(s: Seq<T>, at: int)
    requires
        0 <= at < s.len(),
    ensures
        s.to_set() == s.to_set().insert(s[at]),
{
    assert(s.contains(s[at]));
    assert(s.to_set() =~= s.to_set().insert(s[at]));
}

proof fn lemma_absent<T>(s: Seq<T>, x: T)
    requires
        !s.contains(x),
    ensures
        s.to_set() == s.to_set().remove(x),
{
    assert(s.to_set() =~= s.to_set().remove(x));
}

proof fn lemma_remove<T>(s: Seq<T>, at: int)
    requires
        distinct(s),
        0 <= at < s.len(),
    ensures
        distinct(s.remove(at)),
        s.remove(at).to_set() == s.to_set().remove(s[at]),
{
    let t = s.remove(at);
    let x = s[at];
    assert forall|y: T| t.to_set().contains(y) == s.to_set().remove(x).contains(y) by {
        if t.contains(y) {
            let i = choose|i: int| 0 <= i < t.len() && t[i] == y;
            let j = if i < at {
                i
            } else {
                i + 1
            };
            assert(s[j] == y);
            assert(j != at);
        }
        if s.contains(y) && y != x {
            let i = choose|i: int| 0 <= i < s.len() && s[i] == y;
            let j = if i < at {
                i
            } else {
                i - 1
            };
            assert(t[j] == y);
        }
    }
    assert(t.to_set() =~= s.to_set().remove(x));
}

proof fn lemma_count<T>(s: Seq<T>)
    requires
        distinct(s),
    ensures
        s.to_set().finite(),
        s.to_set().len() == s.len(),
{
    assert(s.no_duplicates());
    s.unique_seq_to_set();
}

// ------------------------------------------------------------------------------------------
// The title
// ------------------------------------------------------------------------------------------
/// How often the frame rate is measured anew.
pub const FPS_WINDOW: Nanos = 500_000_000;

/// The title is written anew after this time.
pub const TITLE_INTERVAL: Nanos = 1_000_000_000;

/// The frame rate in the title.
#[derive(Debug, Clone, Copy, PartialEq, Eq, Structural)]
pub struct FpsCounter {
    /// Number of frames at the last measurement.
    pub frames: u64,
    /// When that was.
    pub at: Nanos,
    /// The frame rate then.
    pub fps: u64,
}

impl FpsCounter {
    pub fn new(now: Nanos) -> (r: Self)
        ensures
            r == (FpsCounter { frames: 0, at: now, fps: 0 }),
    {
        FpsCounter { frames: 0, at: now, fps: 0 }
    }

    /// The counter at a later time, when `frames` frames have been decoded.
    pub open spec fn measured(self, now: Nanos, frames: u64) -> FpsCounter {
        let t = crate::since(now, self.at);
        if t >= FPS_WINDOW {
            FpsCounter {
                frames,
                at: now,
                fps: text::rounded((frames - self.frames) * 1_000_000_000, t) as u64,
            }
        } else {
            self
        }
    }

    /// Measures the frame rate anew once half a second has passed.
    pub fn update(&mut self, now: Nanos, frames: u64)
        requires
            old(self).frames <= frames,
            frames - old(self).frames <= u64::MAX / 4,
        ensures
            *final(self) == old(self).measured(now, frames),
    {
        let t = elapsed_since(now, self.at);
        if t >= FPS_WINDOW {
            let n: u128 = (frames - self.frames) as u128 * 1_000_000_000;
            let ghost count = frames - self.frames;
            let fps: u128 = text::rounded_quotient(n, t as u128);
            assert(n as int / t as int <= 2 * count) by (nonlinear_arith)
                requires
                    n == count * 1_000_000_000,
                    t >= 500_000_000,
                    count >= 0,
            ;
            self.fps = fps as u64;
            self.frames = frames;
            self.at = now;
        }
    }
}

/// The title of the window.
pub open spec fn title(
    status: Seq<char>,
    decoder: Seq<char>,
    source: Option<(u32, u32)>,
    fps: u64,
) -> Seq<char> {
    "vmdesk - "@ + status + " - "@ + decoder + (match source {
        Some((w, h)) => " "@ + text::decimal(w as nat) + "x"@ + text::decimal(h as nat),
        None => Seq::empty(),
    }) + " - "@ + text::decimal(fps as nat) + " fps - F11 fullscreen"@
}

/// The title of the window: connection state, decoder, video size and frame rate.
pub fn title_text(status: &str, decoder: &str, source: Option<(u32, u32)>, fps: u64) -> (r: String)
    ensures
        r@ == title(status@, decoder@, source, fps),
{
    let mut out = "vmdesk - ".to_owned();
    out.append(status);
    out.append(" - ");
    out.append(decoder);
    match source {
        Some((w, h)) => {
            out.append(" ");
            text::push_decimal(&mut out, w as u64);
            out.append("x");
            text::push_decimal(&mut out, h as u64);
        },
        None => {},
    }
    out.append(" - ");
    text::push_decimal(&mut out, fps);
    out.append(" fps - F11 fullscreen");
    assert(out@ =~= title(status@, decoder@, source, fps));
    out
}

// ------------------------------------------------------------------------------------------
// Laws
// ------------------------------------------------------------------------------------------
/// A size is known once both of its sides are; it is then given as it was set.
pub proof fn known_sizes_have_two_sides(v: ViewState)
    ensures
        v.source_known() is Some <==> v.source.0 > 0 && v.source.1 > 0,
        v.source_known() is Some ==> v.source_known()->0 == v.source,
        positive(v.target.0) >= 1,
        v.target.0 > 0 ==> positive(v.target.0) == v.target.0,
        v.target.0 == 0 ==> positive(v.target.0) == 1,
{
}

/// A video that fits exactly fills the window, and one of a window's own size keeps it.
pub proof fn window_of_the_same_aspect_is_filled(target: (u32, u32), src: (u32, u32), r: (u32, u32))
    requires
        call_ensures(fit_aspect, (target, src), r),
        target.0 >= 2,
        target.1 >= 2,
        src.0 > 0,
        src.1 > 0,
        target.0 * src.1 == target.1 * src.0,
    ensures
        r == target,
{
    let (tw, th, sw, sh) = (target.0 as int, target.1 as int, src.0 as int, src.1 as int);
    assert(sh * tw == th * sw) by (nonlinear_arith)
        requires
            tw * sh == th * sw,
    ;
    assert(nearest(th * sw, sw) == th) by {
        assert(2 * (th * sw) + sw == th * (2 * sw) + sw) by (nonlinear_arith);
        lemma_fundamental_div_mod_converse(2 * (th * sw) + sw, 2 * sw, th, sw);
    }
}

/// The video stands in the middle of the window, to within a pixel, in its own size; without a
/// frame, or with one that does not fit, it takes the whole window.
pub proof fn video_stands_in_the_middle(
    window: (u32, u32),
    frame: Option<(u32, u32)>,
    r: (u32, u32, u32, u32),
)
    requires
        call_ensures(video_rect, (window, frame), r),
        window.0 > 0,
        window.1 > 0,
    ensures
        frame matches Some((w, h)) ==> (w <= window.0 && h <= window.1 ==> {
            &&& r.2 == w
            &&& r.3 == h
            &&& 0 <= window.0 - w - 2 * r.0 <= 1
            &&& 0 <= window.1 - h - 2 * r.1 <= 1
        }),
        frame is None ==> r == (0u32, 0u32, window.0, window.1),
        frame matches Some((w, h)) ==> (w > window.0 || h > window.1 ==> r == (
            0u32,
            0u32,
            window.0,
            window.1,
        )),
{
}

/// What the pixel in column `x`, row `y` of a window shows: the pixel of the frame that stands
/// there when the frame is centred over the window, or cut evenly where it is larger; black where
/// there is none.
pub proof fn window_shows_the_centred_frame(
    frame: RgbFrame,
    width: u32,
    height: u32,
    x: int,
    y: int,
)
    requires
        0 <= x < width,
        0 <= y < height,
    ensures
        ({
            let c = if frame.width <= width {
                x - (width - frame.width) / 2
            } else {
                x + (frame.width - width) / 2
            };
            let r = if frame.height <= height {
                y - (height - frame.height) / 2
            } else {
                y + (frame.height - height) / 2
            };
            layout(frame, width, height).shown(frame.pixels@, y * width + x) == if 0 <= c
                < frame.width && 0 <= r < frame.height {
                frame.pixels@[r * frame.width + c]
            } else {
                0u32
            }
        }),
{
    lemma_fundamental_div_mod_converse(y * width + x, width as int, y, x);
}

/// F11 stays here and turns full screen on or off when it goes down; every other key goes to the
/// server as it is, and neither repeats nor unknown keys go anywhere.
pub proof fn keys_go_to_the_server(code: KeyCode, pressed: bool, repeat: bool)
    ensures
        code is F11 ==> (key_step(Some(code), pressed, repeat) is ToggleFullscreen <==> pressed
            && !repeat),
        code is F11 ==> key_step(Some(code), pressed, repeat) !is Send,
        code !is F11 && !repeat ==> key_step(Some(code), pressed, repeat) == KeyStep::Send(
            ControlMessage::Key { code, pressed },
        ),
        code !is F11 && repeat ==> key_step(Some(code), pressed, repeat) is Nothing,
        key_step(None, pressed, repeat) is Nothing,
{
}

/// The frame rate is measured anew once half a second has passed, and not before: it is then the
/// nearest whole number of frames per second since the last measurement.
pub proof fn frame_rate_is_per_second(c: FpsCounter, now: Nanos, frames: u64, fps: u64)
    requires
        c.at <= now,
        c.frames <= frames,
    ensures
        now - c.at < 500_000_000 ==> c.measured(now, frames) == c,
        now - c.at >= 500_000_000 ==> c.measured(now, frames).at == now && c.measured(
            now,
            frames,
        ).frames == frames,
        now - c.at >= 500_000_000 && -(now - c.at) < 2 * (fps * (now - c.at) - (frames - c.frames)
            * 1_000_000_000) < now - c.at ==> c.measured(now, frames).fps == fps,
{
    if now - c.at >= 500_000_000 && -(now - c.at) < 2 * (fps * (now - c.at) - (frames - c.frames)
        * 1_000_000_000) < now - c.at {
        text::rounding_is_to_the_nearest(
            (frames - c.frames) * 1_000_000_000,
            now - c.at,
            fps as int,
        );
    }
}

/// The title says how things stand, what decodes, the size once it is known, and the frame rate.
pub proof fn title_says_everything(
    status: &str,
    decoder: &str,
    source: Option<(u32, u32)>,
    fps: u64,
    r: String,
)
    requires
        call_ensures(title_text, (status, decoder, source, fps), r),
    ensures
        source is None ==> r@ == "vmdesk - "@ + status@ + " - "@ + decoder@ + Seq::empty() + " - "@
            + text::decimal(fps as nat) + " fps - F11 fullscreen"@,
        source matches Some((w, h)) ==> r@ == "vmdesk - "@ + status@ + " - "@ + decoder@ + (" "@
            + text::decimal(w as nat) + "x"@ + text::decimal(h as nat)) + " - "@ + text::decimal(
            fps as nat,
        ) + " fps - F11 fullscreen"@,
{
}

/// What is set is read back: the sizes of the window and the video, and the decoder's name.
pub proof fn settings_are_read_back(
    a: &mut SharedView,
    b: &mut SharedView,
    c: &mut SharedView,
    w: u32,
    h: u32,
    sw: u32,
    sh: u32,
    name: &str,
    target: (u32, u32),
    source: Option<(u32, u32)>,
    shown: String,
)
    requires
        w > 0 && h > 0 && sw > 0 && sh > 0,
        call_ensures(SharedView::set_target_size, (a, w, h), ()),
        *old(b) == *final(a),
        call_ensures(SharedView::set_source_size, (b, sw, sh), ()),
        *old(c) == *final(b),
        call_ensures(SharedView::set_decoder_name, (c, name), ()),
        call_ensures(SharedView::target_size, (final(c),), target),
        call_ensures(SharedView::source_size, (final(c),), source),
        call_ensures(SharedView::decoder_name, (final(c),), shown),
    ensures
        target == (w, h),
        source == Some((sw, sh)),
        shown@ == name@,
{
}

/// The latest frame is the one that was published last, and each counts.
pub proof fn latest_frame_is_the_last_published(
    a: &mut SharedView,
    b: &mut SharedView,
    first: RgbFrame,
    second: RgbFrame,
    n: u64,
)
    requires
        old(a)@.decoded_frames < u64::MAX - 1,
        call_ensures(SharedView::publish, (a, first), ()),
        *old(b) == *final(a),
        call_ensures(SharedView::publish, (b, second), ()),
        call_ensures(SharedView::decoded_frames, (final(b),), n),
    ensures
        final(b)@.latest == Some((second.width, second.height, second.pixels@)),
        n == old(a)@.decoded_frames + 2,
        final(b)@.target == old(a)@.target,
{
}

/// A key that goes down is held until it comes up, and losing the focus lets go of everything.
pub proof fn keys_are_held_until_they_come_up(
    a: &mut Held,
    b: &mut Held,
    code: KeyCode,
    down: KeyStep,
    up: KeyStep,
)
    requires
        old(a).wf(),
        code !is F11,
        call_ensures(Held::on_key, (a, Some(code), true, false), down),
        *old(b) == *final(a),
        call_ensures(Held::on_key, (b, Some(code), false, false), up),
    ensures
        down == KeyStep::Send(ControlMessage::Key { code, pressed: true }),
        up == KeyStep::Send(ControlMessage::Key { code, pressed: false }),
        final(a).keys().contains(code),
        !final(b).keys().contains(code),
        final(b).buttons() == old(a).buttons(),
{
}

/// Losing the focus and closing the window release everything on the server; getting the focus
/// does nothing.
pub proof fn lost_focus_releases_everything(
    a: &mut Held,
    b: &mut Held,
    focused: bool,
    sent: Option<ControlMessage>,
    last: Vec<UiCommand>,
)
    requires
        old(a).wf(),
        old(b).wf(),
        call_ensures(Held::on_focus, (a, focused), sent),
        call_ensures(Held::on_close, (b,), last),
    ensures
        !focused ==> sent == Some(ControlMessage::ReleaseAll) && final(a).keys().len() == 0
            && final(a).buttons().len() == 0,
        focused ==> sent is None && final(a).keys() == old(a).keys(),
        last@.len() == 2,
        last@[0] == UiCommand::Control(ControlMessage::ReleaseAll),
        last@[1] == UiCommand::Quit,
{
}

/// A frame is drawn in the middle of the window, black around it.
pub proof fn frame_is_drawn_in_the_middle(
    frame: RgbFrame,
    dst: &mut [u32],
    width: u32,
    height: u32,
    x: int,
    y: int,
)
    requires
        call_ensures(blit, (&frame, dst, width, height), ()),
        old(dst)@.len() == width * height,
        frame.width < width,
        0 <= x < width,
        0 <= y < height,
    ensures
        ({
            let c = x - (width - frame.width) / 2;
            let r = if frame.height <= height {
                y - (height - frame.height) / 2
            } else {
                y + (frame.height - height) / 2
            };
            final(dst)@[y * width + x] == if 0 <= c < frame.width && 0 <= r < frame.height {
                frame.pixels@[r * frame.width + c]
            } else {
                0u32
            }
        }),
{
    assert(0 <= y * width + x < width * height) by (nonlinear_arith)
        requires
            0 <= x < width,
            0 <= y < height,
    ;
    window_shows_the_centred_frame(frame, width, height, x, y);
}

} // verus!
