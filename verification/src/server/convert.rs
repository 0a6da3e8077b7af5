//! Pixel format conversion: DRM `XRGB8888` scanout → planar I420 for the encoder.
//!
//! BT.601 limited-range coefficients (what decoders assume for an H.264 stream without VUI
//! colour information). Chroma is the average of each 2x2 block.
//!
//! Row pairs are distributed over rayon's thread pool.
//!
//! [`copy_xrgb`] copies the scanout buffer (a PRIME mmap of the vkms GEM object) into an
//! ordinary heap buffer first: one linear read of the mapping per frame, and the conversion
//! then works on memory it owns.
use vstd::prelude::*;

use rayon::iter::{IndexedParallelIterator, ParallelIterator};
use rayon::slice::ParallelSliceMut;

verus! {

// ------------------------------------------------------------------------------------------
// Colour
// ------------------------------------------------------------------------------------------
/// Luma of a colour.
pub open spec fn luma_of(r: int, g: int, b: int) -> int {
    (66 * r + 129 * g + 25 * b + 128) / 256 + 16
}

/// Blue-difference chroma of a colour.
pub open spec fn chroma_u(r: int, g: int, b: int) -> int {
    (-38 * r - 74 * g + 112 * b + 128) / 256 + 128
}

/// Red-difference chroma of a colour.
pub open spec fn chroma_v(r: int, g: int, b: int) -> int {
    (112 * r - 94 * g - 18 * b + 128) / 256 + 128
}

/// A colour component is a byte.
pub open spec fn is_byte(c: int) -> bool {
    0 <= c <= 255
}

/// Luma stays within 16..=235 and chroma within 16..=240, the limited range.
pub proof fn range_is_limited(r: int, g: int, b: int)
    requires
        is_byte(r),
        is_byte(g),
        is_byte(b),
    ensures
        16 <= luma_of(r, g, b) <= 235,
        16 <= chroma_u(r, g, b) <= 240,
        16 <= chroma_v(r, g, b) <= 240,
{
}

/// A grey has no colour difference.
pub proof fn grey_has_neutral_chroma(c: int)
    requires
        is_byte(c),
    ensures
        chroma_u(c, c, c) == 128,
        chroma_v(c, c, c) == 128,
{
}

fn luma(r: u32, g: u32, b: u32) -> (y: u8)
    requires
        r <= 255,
        g <= 255,
        b <= 255,
    ensures
        y == luma_of(r as int, g as int, b as int),
{
    ((66 * r + 129 * g + 25 * b + 128) / 256 + 16) as u8
}

fn chroma(r: u32, g: u32, b: u32) -> (uv: (u8, u8))
    requires
        r <= 255,
        g <= 255,
        b <= 255,
    ensures
        uv.0 == chroma_u(r as int, g as int, b as int),
        uv.1 == chroma_v(r as int, g as int, b as int),
{
    // 32896 is 128 * 256 + 128: the sums stay positive, so the division rounds down.
    let u: u32 = (32896 + 112 * b - 38 * r - 74 * g) / 256;
    let v: u32 = (32896 + 112 * r - 94 * g - 18 * b) / 256;
    (u as u8, v as u8)
}

/// Component `k` (0 blue, 1 green, 2 red) of pixel `x` in a row of BGRX bytes.
pub open spec fn component(row: Seq<u8>, x: int, k: int) -> int {
    row[4 * x + k] as int
}

/// Luma of pixel `x` in a row of BGRX bytes.
pub open spec fn luma_px(row: Seq<u8>, x: int) -> int {
    luma_of(component(row, x, 2), component(row, x, 1), component(row, x, 0))
}

/// Component `k` averaged over the 2x2 block `i` of two rows.
pub open spec fn mean(row0: Seq<u8>, row1: Seq<u8>, i: int, k: int) -> int {
    (component(row0, 2 * i, k) + component(row0, 2 * i + 1, k) + component(row1, 2 * i, k)
        + component(row1, 2 * i + 1, k) + 2) / 4
}

/// Blue-difference chroma of the 2x2 block `i` of two rows.
pub open spec fn block_u(row0: Seq<u8>, row1: Seq<u8>, i: int) -> int {
    chroma_u(mean(row0, row1, i, 2), mean(row0, row1, i, 1), mean(row0, row1, i, 0))
}

/// Red-difference chroma of the 2x2 block `i` of two rows.
pub open spec fn block_v(row0: Seq<u8>, row1: Seq<u8>, i: int) -> int {
    chroma_v(mean(row0, row1, i, 2), mean(row0, row1, i, 1), mean(row0, row1, i, 0))
}

/// What two rows become: two rows of luma and one of each chroma.
pub open spec fn rows_converted(
    row0: Seq<u8>,
    row1: Seq<u8>,
    y0: Seq<u8>,
    y1: Seq<u8>,
    u: Seq<u8>,
    v: Seq<u8>,
) -> bool {
    &&& forall|x: int| 0 <= x < y0.len() ==> #[trigger] y0[x] == luma_px(row0, x)
    &&& forall|x: int| 0 <= x < y1.len() ==> #[trigger] y1[x] == luma_px(row1, x)
    &&& forall|i: int| 0 <= i < u.len() ==> #[trigger] u[i] == block_u(row0, row1, i)
    &&& forall|i: int| 0 <= i < v.len() ==> #[trigger] v[i] == block_v(row0, row1, i)
}

/// Converts the 2x2 block `i` of two rows: the luma of its upper and lower two pixels, and its
/// chroma.
fn convert_block(row0: &[u8], row1: &[u8], i: usize) -> (r: ([u8; 4], (u8, u8)))
    requires
        8 * i + 8 <= row0@.len(),
        row1@.len() == row0@.len(),
    ensures
        r.0@[0] == luma_px(row0@, 2 * i as int),
        r.0@[1] == luma_px(row0@, 2 * i + 1),
        r.0@[2] == luma_px(row1@, 2 * i as int),
        r.0@[3] == luma_px(row1@, 2 * i + 1),
        r.1.0 == block_u(row0@, row1@, i as int),
        r.1.1 == block_v(row0@, row1@, i as int),
{
    assert(row0.len() <= usize::MAX);
    // Two horizontally adjacent pixels per row: bytes [B G R X B G R X].
    let at: usize = 8 * i;
    let (b00, g00, r00) = (row0[at] as u32, row0[at + 1] as u32, row0[at + 2] as u32);
    let (b01, g01, r01) = (row0[at + 4] as u32, row0[at + 5] as u32, row0[at + 6] as u32);
    let (b10, g10, r10) = (row1[at] as u32, row1[at + 1] as u32, row1[at + 2] as u32);
    let (b11, g11, r11) = (row1[at + 4] as u32, row1[at + 5] as u32, row1[at + 6] as u32);
    let r: u32 = (r00 + r01 + r10 + r11 + 2) / 4;
    let g: u32 = (g00 + g01 + g10 + g11 + 2) / 4;
    let b: u32 = (b00 + b01 + b10 + b11 + 2) / 4;
    let y = [
        luma(r00, g00, b00),
        luma(r01, g01, b01),
        luma(r10, g10, b10),
        luma(r11, g11, b11),
    ];
    (y, chroma(r, g, b))
}

/// Converts two rows (`width` pixels each, `width` even) of BGRX bytes into two Y rows and one
/// U/V row.
fn convert_row_pair(
    row0: &[u8],
    row1: &[u8],
    y0: &mut [u8],
    y1: &mut [u8],
    u: &mut [u8],
    v: &mut [u8],
)
    requires
        old(u)@.len() * 8 == row0@.len(),
        old(v)@.len() == old(u)@.len(),
        row1@.len() == row0@.len(),
        old(y0)@.len() == 2 * old(u)@.len(),
        old(y1)@.len() == 2 * old(u)@.len(),
    ensures
        final(y0)@.len() == old(y0)@.len(),
        final(y1)@.len() == old(y1)@.len(),
        final(u)@.len() == old(u)@.len(),
        final(v)@.len() == old(v)@.len(),
        rows_converted(row0@, row1@, final(y0)@, final(y1)@, final(u)@, final(v)@),
{
    let n = u.len();
    let mut i: usize = 0;
    while i < n
        invariant
            i <= n,
            n * 8 == row0.len(),
            row1.len() == row0.len(),
            y0.len() == 2 * n,
            y1.len() == 2 * n,
            u.len() == n,
            v.len() == n,
            forall|x: int| 0 <= x < 2 * i ==> #[trigger] y0@[x] == luma_px(row0@, x),
            forall|x: int| 0 <= x < 2 * i ==> #[trigger] y1@[x] == luma_px(row1@, x),
            forall|j: int| 0 <= j < i ==> #[trigger] u@[j] == block_u(row0@, row1@, j),
            forall|j: int| 0 <= j < i ==> #[trigger] v@[j] == block_v(row0@, row1@, j),
        decreases n - i,
    {
        let (y, uv) = convert_block(row0, row1, i);
        y0[2 * i] = y[0];
        y0[2 * i + 1] = y[1];
        y1[2 * i] = y[2];
        y1[2 * i + 1] = y[3];
        u[i] = uv.0;
        v[i] = uv.1;
        i = i + 1;
    }
}

// ------------------------------------------------------------------------------------------
// Images
// ------------------------------------------------------------------------------------------
/// The visible part of row `r`: `width` pixels of an image whose rows are `pitch` bytes apart.
pub open spec fn row_of(src: Seq<u8>, pitch: int, width: int, r: int) -> Seq<u8> {
    src.subrange(r * pitch, r * pitch + 4 * width)
}

/// The source holds `height` rows of `width` pixels, `pitch` bytes apart.
pub open spec fn holds_rows(len: nat, width: int, height: int, pitch: int) -> bool {
    width > 0 && height > 0 ==> (height - 1) * pitch + 4 * width <= len
}

/// A size without the odd pixel at its end.
pub open spec fn even(n: usize) -> usize {
    (n - n % 2) as usize
}

/// A size without the odd pixel at its end.
fn rounded_down(n: usize) -> (r: usize)
    ensures
        r == even(n),
{
    n - n % 2
}

/// The sample in row `r`, column `c` of a plane of `width` columns.
pub open spec fn sample(plane: Seq<u8>, width: int, r: int, c: int) -> u8 {
    plane[r * width + c]
}

/// A planar I420 frame with tightly packed planes (Y stride = width, U/V stride = width/2).
#[derive(Debug, Clone, PartialEq, Eq)]
pub struct I420Frame {
    pub width: usize,
    pub height: usize,
    pub y: Vec<u8>,
    pub u: Vec<u8>,
    pub v: Vec<u8>,
}

impl I420Frame {
    /// The sides are even, and the planes have the size that goes with them.
    pub open spec fn wf(self) -> bool {
        &&& self.width % 2 == 0
        &&& self.height % 2 == 0
        &&& self.y@.len() == self.width * self.height
        &&& self.u@.len() == (self.width / 2) * (self.height / 2)
        &&& self.v@.len() == (self.width / 2) * (self.height / 2)
    }

    /// Every sample is what the image's pixels make it.
    pub open spec fn shows(self, src: Seq<u8>, pitch: int) -> bool {
        &&& forall|r: int, c: int|
            0 <= r < self.height && 0 <= c < self.width ==> #[trigger] sample(
                self.y@,
                self.width as int,
                r,
                c,
            ) == luma_px(row_of(src, pitch, self.width as int, r), c)
        &&& forall|r: int, c: int|
            0 <= r < self.height / 2 && 0 <= c < self.width / 2 ==> #[trigger] sample(
                self.u@,
                (self.width / 2) as int,
                r,
                c,
            ) == block_u(
                row_of(src, pitch, self.width as int, 2 * r),
                row_of(src, pitch, self.width as int, 2 * r + 1),
                c,
            )
        &&& forall|r: int, c: int|
            0 <= r < self.height / 2 && 0 <= c < self.width / 2 ==> #[trigger] sample(
                self.v@,
                (self.width / 2) as int,
                r,
                c,
            ) == block_v(
                row_of(src, pitch, self.width as int, 2 * r),
                row_of(src, pitch, self.width as int, 2 * r + 1),
                c,
            )
    }

    /// Allocates a black frame. `width` and `height` are rounded down to even values.
    pub fn new(width: usize, height: usize) -> (r: Self)
        requires
            even(width) * even(height) <= usize::MAX,
        ensures
            r.wf(),
            r.width == even(width),
            r.height == even(height),
            forall|i: int| 0 <= i < r.y@.len() ==> #[trigger] r.y@[i] == 16,
            forall|i: int| 0 <= i < r.u@.len() ==> #[trigger] r.u@[i] == 128,
            forall|i: int| 0 <= i < r.v@.len() ==> #[trigger] r.v@[i] == 128,
    {
        let w = rounded_down(width);
        let h = rounded_down(height);
        assert((w / 2) * (h / 2) <= w * h) by (nonlinear_arith)
            requires
                w >= 0,
                h >= 0,
        ;
        I420Frame {
            width: w,
            height: h,
            y: vec![16;w * h],
            u: vec![128;(w / 2) * (h / 2)],
            v: vec![128;(w / 2) * (h / 2)],
        }
    }

    /// Bytes per row of the Y, U and V planes.
    pub fn strides(&self) -> (r: (usize, usize, usize))
        ensures
            r == (self.width, (self.width / 2) as usize, (self.width / 2) as usize),
    {
        (self.width, self.width / 2, self.width / 2)
    }
}

/// A tightly packed copy of an `XRGB8888` image (pitch = `width * 4`).
#[derive(Debug, Clone)]
pub struct XrgbImage {
    pub width: usize,
    pub height: usize,
    pub data: Vec<u8>,
}

impl Default for XrgbImage {
    fn default() -> (r: Self)
        ensures
            r.width == 0,
            r.height == 0,
            r.data@ == Seq::<u8>::empty(),
    {
        XrgbImage { width: 0, height: 0, data: Vec::new() }
    }
}

impl XrgbImage {
    /// The data has the size that goes with the sides.
    pub open spec fn wf(self) -> bool {
        self.data@.len() == 4 * self.width * self.height
    }

    /// Bytes per row.
    pub fn pitch(&self) -> (r: usize)
        requires
            4 * self.width <= usize::MAX,
        ensures
            r == 4 * self.width,
    {
        self.width * 4
    }
}

/// Piece `i` of a sequence cut into pieces of `n`.
pub open spec fn piece(s: Seq<u8>, n: int, i: int) -> Seq<u8> {
    s.subrange(i * n, (i + 1) * n)
}

/// The row pair `pair` converted: its two rows of luma, one after the other, and its rows of
/// chroma.
pub open spec fn pair_converted(
    src: Seq<u8>,
    width: int,
    pitch: int,
    pair: int,
    y2: Seq<u8>,
    u: Seq<u8>,
    v: Seq<u8>,
) -> bool {
    rows_converted(
        row_of(src, pitch, width, 2 * pair),
        row_of(src, pitch, width, 2 * pair + 1),
        y2.take(width),
        y2.skip(width),
        u,
        v,
    )
}

/// Converts one row pair of an image.
fn convert_pair(
    src: &[u8],
    width: usize,
    pitch: usize,
    pair: usize,
    y2: &mut [u8],
    u: &mut [u8],
    v: &mut [u8],
)
    requires
        old(u)@.len() == old(v)@.len(),
        width == 2 * old(u)@.len(),
        old(y2)@.len() == 2 * width,
        4 * width <= pitch,
        (2 * pair + 1) * pitch + 4 * width <= src@.len(),
    ensures
        final(y2)@.len() == old(y2)@.len(),
        final(u)@.len() == old(u)@.len(),
        final(v)@.len() == old(v)@.len(),
        pair_converted(
            src@,
            width as int,
            pitch as int,
            pair as int,
            final(y2)@,
            final(u)@,
            final(v)@,
        ),
{
    if u.len() == 0 {
        assert(y2@.take(width as int) =~= Seq::empty());
        assert(y2@.skip(width as int) =~= Seq::empty());
        return;
    }
    assert(src.len() <= usize::MAX);
    assert((2 * pair + 1) * pitch == 2 * pair * pitch + pitch) by (nonlinear_arith);
    assert(pitch >= 1);
    assert(2 * pair <= 2 * pair * pitch) by (nonlinear_arith)
        requires
            pitch >= 1,
            pair >= 0,
    ;
    let start0: usize = 2 * pair * pitch;
    let start1: usize = start0 + pitch;
    let row0 = vstd::slice::slice_subrange(src, start0, start0 + 4 * width);
    let row1 = vstd::slice::slice_subrange(src, start1, start1 + 4 * width);
    let ghost (lu, lv) = (u@.len(), v@.len());
    let (y0, y1) = y2.split_at_mut(width);
    convert_row_pair(row0, row1, y0, y1, u, v);
    assert(row0@ == row_of(src@, pitch as int, width as int, 2 * pair as int));
    assert(row1@ == row_of(src@, pitch as int, width as int, 2 * pair + 1));
    assert(y2@.take(width as int) =~= y0@);
    assert(y2@.skip(width as int) =~= y1@);
}

/// Converts all row pairs of an image, each into its own piece of the three planes.
///
/// This is rayon's `par_chunks_mut` on the three planes, zipped, enumerated and run with
/// `for_each`: each plane is cut into pieces of equal size, and the closure, a call of
/// [`convert_pair`], is run once on each triple of pieces with its number, in parallel.
#[verifier::external_body]
fn convert_pairs(
    src: &[u8],
    width: usize,
    pitch: usize,
    y_piece: usize,
    c_piece: usize,
    y: &mut Vec<u8>,
    u: &mut Vec<u8>,
    v: &mut Vec<u8>,
)
    requires
        c_piece > 0,
        width == 2 * c_piece,
        y_piece == 4 * c_piece,
        4 * width <= pitch,
        old(u)@.len() % (c_piece as nat) == 0,
        old(v)@.len() == old(u)@.len(),
        old(y)@.len() == 4 * old(u)@.len(),
        forall|i: int|
            0 <= i < old(u)@.len() / (c_piece as nat) ==> #[trigger] ((2 * i + 1) * pitch) + 4
                * width <= src@.len(),
    ensures
        final(y)@.len() == old(y)@.len(),
        final(u)@.len() == old(u)@.len(),
        final(v)@.len() == old(v)@.len(),
        forall|i: int|
            0 <= i < old(u)@.len() / (c_piece as nat) ==> #[trigger] pair_converted(
                src@,
                width as int,
                pitch as int,
                i,
                piece(final(y)@, y_piece as int, i),
                piece(final(u)@, c_piece as int, i),
                piece(final(v)@, c_piece as int, i),
            ),
{
    y.par_chunks_mut(y_piece)
        .zip(u.par_chunks_mut(c_piece))
        .zip(v.par_chunks_mut(c_piece))
        .enumerate()
        .for_each(|(pair, ((y2, u_row), v_row))| {
            convert_pair(src, width, pitch, pair, y2, u_row, v_row)
        });
}

/// The sample in row `r` of a plane stands in the piece of its row pair.
proof fn lemma_sample_in_piece(plane: Seq<u8>, width: int, r: int, c: int, rows: int, i: int)
    requires
        0 <= c < width,
        1 <= rows,
        i * rows <= r < i * rows + rows,
        i >= 0,
        plane.len() >= (i + 1) * (rows * width),
    ensures
        sample(plane, width, r, c) == piece(plane, rows * width, i)[(r - i * rows) * width + c],
        0 <= (r - i * rows) * width + c < rows * width,
        piece(plane, rows * width, i).len() == rows * width,
{
    let k = r - i * rows;
    assert(i * (rows * width) + (k * width + c) == r * width + c) by (nonlinear_arith)
        requires
            k == r - i * rows,
    ;
    assert(0 <= k * width) by (nonlinear_arith)
        requires
            k >= 0,
            width >= 0,
    ;
    assert(k * width + width <= rows * width) by (nonlinear_arith)
        requires
            k + 1 <= rows,
            width >= 0,
    ;
    assert(i * (rows * width) >= 0) by (nonlinear_arith)
        requires
            i >= 0,
            rows >= 1,
            width >= 0,
    ;
    assert((i + 1) * (rows * width) == i * (rows * width) + rows * width) by (nonlinear_arith);
}

/// Converts a `XRGB8888` (little-endian: bytes B, G, R, X) image of `width`x`height` pixels
/// whose rows are `pitch` bytes apart into `dst`, resizing `dst` if needed.
///
/// Odd widths/heights are cropped by one pixel (the encoder needs even dimensions).
pub fn xrgb_to_i420(src: &[u8], width: usize, height: usize, pitch: usize, dst: &mut I420Frame)
    requires
        old(dst).wf(),
        4 * even(width) <= pitch,
        holds_rows(src@.len(), even(width) as int, even(height) as int, pitch as int),
    ensures
        final(dst).wf(),
        even(width) == 0 || even(height) == 0 ==> final(dst).width == 0 && final(dst).height == 0,
        even(width) > 0 && even(height) > 0 ==> final(dst).width == even(width)
            && final(dst).height == even(height),
        final(dst).shows(src@, pitch as int),
{
    let w = rounded_down(width);
    let h = rounded_down(height);
    if w == 0 || h == 0 {
        assert(even(0) == 0);
        *dst = I420Frame::new(0, 0);
        return;
    }
    assert(h * (4 * w) <= (h - 1) * pitch + 4 * w) by (nonlinear_arith)
        requires
            4 * w <= pitch,
            h >= 1,
    ;
    assert(h * (4 * w) == 4 * (w * h)) by (nonlinear_arith);
    if dst.width != w || dst.height != h {
        assert(even(w) == w && even(h) == h);
        assert(src.len() <= usize::MAX);
        assert(w * h <= usize::MAX);
        *dst = I420Frame::new(w, h);
    }
    let cw: usize = w / 2;
    let ghost ch = (h / 2) as int;
    assert(w * h == 4 * (cw * ch)) by (nonlinear_arith)
        requires
            w == 2 * cw,
            h == 2 * ch,
    ;
    proof {
        vstd::arithmetic::div_mod::lemma_mod_multiples_basic(ch, cw as int);
        vstd::arithmetic::div_mod::lemma_div_multiples_vanish(ch, cw as int);
        assert(cw * ch == ch * cw) by (nonlinear_arith);
    }
    assert forall|i: int| 0 <= i < ch implies #[trigger] ((2 * i + 1) * pitch) + 4 * w
        <= src@.len() by {
        assert((2 * i + 1) * pitch <= (h - 1) * pitch) by (nonlinear_arith)
            requires
                2 * i + 1 <= h - 1,
                pitch >= 0,
        ;
    }
    convert_pairs(src, w, pitch, w * 2, cw, &mut dst.y, &mut dst.u, &mut dst.v);
    proof {
        let (p, ww) = (pitch as int, w as int);
        assert forall|r: int, c: int| 0 <= r < h && 0 <= c < w implies #[trigger] sample(
            dst.y@,
            ww,
            r,
            c,
        ) == luma_px(row_of(src@, p, ww, r), c) by {
            let i = r / 2;
            lemma_pieces_fit(2 * ww, ch, i);
            assert(ch * (2 * ww) == w * h) by (nonlinear_arith)
                requires
                    h == 2 * ch,
                    w == ww,
            ;
            lemma_sample_in_piece(dst.y@, ww, r, c, 2, i);
            let y2 = piece(dst.y@, 2 * ww, i);
            assert(pair_converted(
                src@,
                ww,
                p,
                i,
                y2,
                piece(dst.u@, cw as int, i),
                piece(dst.v@, cw as int, i),
            ));
            if r % 2 == 0 {
                assert((r - i * 2) * ww == 0) by (nonlinear_arith)
                    requires
                        r - i * 2 == 0,
                ;
                assert(y2.take(ww)[c] == y2[c]);
            } else {
                assert((r - i * 2) * ww == ww) by (nonlinear_arith)
                    requires
                        r - i * 2 == 1,
                ;
                assert(y2.skip(ww)[c] == y2[ww + c]);
            }
        }
        assert forall|r: int, c: int| 0 <= r < ch && 0 <= c < cw implies #[trigger] sample(
            dst.u@,
            cw as int,
            r,
            c,
        ) == block_u(row_of(src@, p, ww, 2 * r), row_of(src@, p, ww, 2 * r + 1), c) by {
            lemma_pieces_fit(cw as int, ch, r);
            lemma_sample_in_piece(dst.u@, cw as int, r, c, 1, r);
            assert((r - r * 1) * cw + c == c) by (nonlinear_arith);
            assert(pair_converted(
                src@,
                ww,
                p,
                r,
                piece(dst.y@, 2 * ww, r),
                piece(dst.u@, cw as int, r),
                piece(dst.v@, cw as int, r),
            ));
        }
        assert forall|r: int, c: int| 0 <= r < ch && 0 <= c < cw implies #[trigger] sample(
            dst.v@,
            cw as int,
            r,
            c,
        ) == block_v(row_of(src@, p, ww, 2 * r), row_of(src@, p, ww, 2 * r + 1), c) by {
            lemma_pieces_fit(cw as int, ch, r);
            lemma_sample_in_piece(dst.v@, cw as int, r, c, 1, r);
            assert((r - r * 1) * cw + c == c) by (nonlinear_arith);
            assert(pair_converted(
                src@,
                ww,
                p,
                r,
                piece(dst.y@, 2 * ww, r),
                piece(dst.u@, cw as int, r),
                piece(dst.v@, cw as int, r),
            ));
        }
    }
}

/// Piece `i` of `n` pieces ends within them.
proof fn lemma_pieces_fit(size: int, n: int, i: int)
    requires
        0 <= i < n,
        size >= 0,
    ensures
        (i + 1) * size <= n * size,
{
    assert((i + 1) * size <= n * size) by (nonlinear_arith)
        requires
            i + 1 <= n,
            size >= 0,
    ;
}

/// Same as [`xrgb_to_i420`]: one kernel serves every platform.
pub fn xrgb_to_i420_scalar(
    src: &[u8],
    width: usize,
    height: usize,
    pitch: usize,
    dst: &mut I420Frame,
)
    requires
        old(dst).wf(),
        4 * even(width) <= pitch,
        holds_rows(src@.len(), even(width) as int, even(height) as int, pitch as int),
    ensures
        final(dst).wf(),
        even(width) == 0 || even(height) == 0 ==> final(dst).width == 0 && final(dst).height == 0,
        even(width) > 0 && even(height) > 0 ==> final(dst).width == even(width)
            && final(dst).height == even(height),
        final(dst).shows(src@, pitch as int),
{
    xrgb_to_i420(src, width, height, pitch, dst)
}

/// Name of the conversion kernel in use, for logs and `doctor`.
pub fn kernel_name() -> (r: &'static str)
    ensures
        r@ == "scalar"@,
{
    "scalar"
}

// ------------------------------------------------------------------------------------------
// Copies
// ------------------------------------------------------------------------------------------
/// Where piece `i` ends when `len` bytes are cut into pieces of `size`.
pub open spec fn piece_end(len: int, size: int, i: int) -> int {
    if (i + 1) * size <= len {
        (i + 1) * size
    } else {
        len
    }
}

/// Copies the bytes of `src` from `i * stride` on.
fn copy_piece(src: &[u8], stride: usize, i: usize, out: &mut [u8])
    requires
        i * stride + old(out)@.len() <= src@.len(),
    ensures
        final(out)@ == src@.subrange(i * stride, i * stride + old(out)@.len()),
{
    assert(src.len() <= usize::MAX);
    assert(i * stride >= 0) by (nonlinear_arith);
    let start: usize = i * stride;
    let n = out.len();
    let mut k: usize = 0;
    while k < n
        invariant
            k <= n,
            out.len() == n,
            start + n <= src.len(),
            forall|j: int| 0 <= j < k ==> #[trigger] out@[j] == src@[start + j],
        decreases n - k,
    {
        out[k] = src[start + k];
        k = k + 1;
    }
    assert(out@ =~= src@.subrange(start as int, start + n));
}

/// Copies pieces of `size` bytes that stand `stride` bytes apart in `src` into `dst`, one after
/// the other.
///
/// This is rayon's `par_chunks_mut` on `dst`, enumerated and run with `for_each`: `dst` is cut
/// into pieces of `size` bytes, the last one possibly shorter, and the closure, a call of
/// [`copy_piece`], is run once on each piece with its number, in parallel.
#[verifier::external_body]
fn copy_pieces(src: &[u8], stride: usize, size: usize, dst: &mut Vec<u8>)
    requires
        size > 0,
        forall|i: int|
            0 <= i && #[trigger] (i * size) < old(dst)@.len() ==> i * stride + (piece_end(
                old(dst)@.len() as int,
                size as int,
                i,
            ) - i * size) <= src@.len(),
    ensures
        final(dst)@.len() == old(dst)@.len(),
        forall|i: int|
            0 <= i && #[trigger] (i * size) < old(dst)@.len() ==> final(dst)@.subrange(
                i * size,
                piece_end(old(dst)@.len() as int, size as int, i),
            ) == src@.subrange(
                i * stride,
                i * stride + (piece_end(old(dst)@.len() as int, size as int, i) - i * size),
            ),
{
    dst.par_chunks_mut(size).enumerate().for_each(|(i, out)| copy_piece(src, stride, i, out));
}

/// Number of threads in rayon's pool.
///
/// This is `rayon::current_num_threads`; nothing is claimed of the number, which depends on
/// the machine.
#[verifier::external_body]
fn current_num_threads() -> usize {
    rayon::current_num_threads()
}

/// Copies the visible part of an `XRGB8888` scanout buffer (`pitch` bytes per row, possibly
/// larger than `width * 4`) into `dst`, tightly packed. Rows are copied in parallel.
pub fn copy_xrgb(src: &[u8], width: usize, height: usize, pitch: usize, dst: &mut XrgbImage)
    requires
        old(dst).wf(),
        4 * width <= pitch,
        holds_rows(src@.len(), width as int, height as int, pitch as int),
    ensures
        final(dst).wf(),
        width == 0 || height == 0 ==> final(dst).width == 0 && final(dst).height == 0,
        width > 0 && height > 0 ==> final(dst).width == width && final(dst).height == height,
        forall|r: int|
            0 <= r < final(dst).height ==> #[trigger] row_of(
                final(dst).data@,
                4 * width,
                width as int,
                r,
            ) == row_of(src@, pitch as int, width as int, r),
{
    if width == 0 || height == 0 {
        *dst = XrgbImage::default();
        return;
    }
    let row_bytes: usize = width * 4;
    let ghost total = row_bytes * height;
    assert(src.len() <= usize::MAX);
    assert(total <= (height - 1) * pitch + 4 * width) by (nonlinear_arith)
        requires
            total == row_bytes * height,
            row_bytes == 4 * width,
            4 * width <= pitch,
            height >= 1,
    ;
    assert(4 * width * height == total) by (nonlinear_arith)
        requires
            total == row_bytes * height,
            row_bytes == 4 * width,
    ;
    if dst.width != width || dst.height != height {
        dst.width = width;
        dst.height = height;
        dst.data = vec![0;row_bytes * height];
    }
    if pitch == row_bytes {
        // Contiguous: a few large copies instead of one per row.
        let threads = current_num_threads();
        let parts: usize = if threads < 1 {
            1
        } else if threads > 8 {
            8
        } else {
            threads
        };
        assert(height / parts <= height && (height % parts != 0 ==> height / parts < height))
            by (nonlinear_arith)
            requires
                1 <= parts,
                1 <= height,
        ;
        let chunk_rows: usize = height / parts + if height % parts == 0 {
            0
        } else {
            1
        };
        assert(1 <= chunk_rows <= height) by (nonlinear_arith)
            requires
                height >= 1,
                1 <= parts,
                chunk_rows == height / parts + if height % parts == 0 {
                    0int
                } else {
                    1int
                },
        ;
        assert(1 <= chunk_rows * row_bytes <= total) by (nonlinear_arith)
            requires
                1 <= chunk_rows <= height,
                row_bytes >= 4,
                total == row_bytes * height,
        ;
        let size: usize = chunk_rows * row_bytes;
        copy_pieces(src, size, size, &mut dst.data);
        proof {
            assert forall|k: int| 0 <= k < total implies dst.data@[k] == src@[k] by {
                let i = k / size as int;
                vstd::arithmetic::div_mod::lemma_fundamental_div_mod(k, size as int);
                assert(i >= 0) by {
                    vstd::arithmetic::div_mod::lemma_div_pos_is_pos(k, size as int);
                }
                assert(size * i == i * size) by (nonlinear_arith);
                assert((i + 1) * size == i * size + size) by (nonlinear_arith);
                let e = piece_end(total, size as int, i);
                assert(i * size <= k < e);
                assert(dst.data@.subrange(i * size, e)[k - i * size] == src@.subrange(
                    i * size,
                    e,
                )[k - i * size]);
            }
            assert forall|r: int| 0 <= r < height implies #[trigger] row_of(
                dst.data@,
                4 * width,
                width as int,
                r,
            ) == row_of(src@, pitch as int, width as int, r) by {
                lemma_pieces_fit(4 * width, height as int, r);
                assert((r + 1) * (4 * width) == r * (4 * width) + 4 * width) by (nonlinear_arith);
                assert(height * (4 * width) == total) by (nonlinear_arith)
                    requires
                        total == row_bytes * height,
                        row_bytes == 4 * width,
                ;
                assert(r * (4 * width) >= 0) by (nonlinear_arith)
                    requires
                        r >= 0,
                        width >= 0,
                ;
                assert(row_of(dst.data@, 4 * width, width as int, r) =~= row_of(
                    src@,
                    pitch as int,
                    width as int,
                    r,
                ));
            }
        }
    } else {
        proof {
            assert forall|i: int| 0 <= i && #[trigger] (i * row_bytes) < total implies {
                &&& i < height
                &&& piece_end(total, row_bytes as int, i) == i * row_bytes + row_bytes
                &&& i * pitch + row_bytes <= src@.len()
            } by {
                assert(i < height) by (nonlinear_arith)
                    requires
                        i * row_bytes < total,
                        total == row_bytes * height,
                        row_bytes >= 1,
                ;
                assert((i + 1) * row_bytes == i * row_bytes + row_bytes) by (nonlinear_arith);
                assert((i + 1) * row_bytes <= total) by (nonlinear_arith)
                    requires
                        i + 1 <= height,
                        total == row_bytes * height,
                        row_bytes >= 1,
                ;
                assert(i * pitch <= (height - 1) * pitch) by (nonlinear_arith)
                    requires
                        i <= height - 1,
                        pitch >= 0,
                ;
            }
        }
        copy_pieces(src, pitch, row_bytes, &mut dst.data);
        proof {
            assert forall|r: int| 0 <= r < height implies #[trigger] row_of(
                dst.data@,
                4 * width,
                width as int,
                r,
            ) == row_of(src@, pitch as int, width as int, r) by {
                assert(r * row_bytes < total) by (nonlinear_arith)
                    requires
                        r < height,
                        total == row_bytes * height,
                        row_bytes >= 1,
                ;
                assert(row_bytes == 4 * width);
            }
        }
    }
}

/// Component `k` of the pixel in row `r`, column `c` of a packed image of `width` columns with
/// three components each.
pub open spec fn rgb_at(out: Seq<u8>, width: int, r: int, c: int, k: int) -> u8 {
    out[3 * (r * width + c) + k]
}

/// Converts `XRGB8888` to packed `RGB8` (for PNG output).
pub fn xrgb_to_rgb8(src: &[u8], width: usize, height: usize, pitch: usize) -> (out: Vec<u8>)
    requires
        forall|r: int| 0 <= r < height ==> #[trigger] (r * pitch) + 4 * width <= src@.len(),
        3 * (width * height) <= usize::MAX,
    ensures
        out@.len() == 3 * (width * height),
        forall|r: int, c: int, k: int|
            0 <= r < height && 0 <= c < width && 0 <= k < 3 ==> #[trigger] rgb_at(
                out@,
                width as int,
                r,
                c,
                k,
            ) == component(row_of(src@, pitch as int, width as int, r), c, 2 - k),
{
    let mut out: Vec<u8> = Vec::new();
    assert(src.len() <= usize::MAX);
    assert(0 * width == 0) by (nonlinear_arith);
    for r in 0..height
        invariant
            src.len() <= usize::MAX,
            forall|r: int| 0 <= r < height ==> #[trigger] (r * pitch) + 4 * width <= src@.len(),
            out@.len() == 3 * (r * width),
            forall|rr: int, c: int, k: int|
                0 <= rr < r && 0 <= c < width && 0 <= k < 3 ==> #[trigger] rgb_at(
                    out@,
                    width as int,
                    rr,
                    c,
                    k,
                ) == component(row_of(src@, pitch as int, width as int, rr), c, 2 - k),
    {
        assert(r as int * pitch as int >= 0) by (nonlinear_arith);
        assert((r as int) * pitch + 4 * width <= src@.len());
        let start: usize = r * pitch;
        for c in 0..width
            invariant
                start == r * pitch,
                start + 4 * width <= src.len(),
                out@.len() == 3 * (r * width + c),
                forall|rr: int, cc: int, k: int|
                    0 <= rr < r && 0 <= cc < width && 0 <= k < 3 ==> #[trigger] rgb_at(
                        out@,
                        width as int,
                        rr,
                        cc,
                        k,
                    ) == component(row_of(src@, pitch as int, width as int, rr), cc, 2 - k),
                forall|cc: int, k: int|
                    0 <= cc < c && 0 <= k < 3 ==> #[trigger] rgb_at(
                        out@,
                        width as int,
                        r as int,
                        cc,
                        k,
                    ) == component(row_of(src@, pitch as int, width as int, r as int), cc, 2 - k),
        {
            let ghost before = out@;
            let at: usize = start + 4 * c;
            out.push(src[at + 2]);
            out.push(src[at + 1]);
            out.push(src[at]);
            proof {
                let w = width as int;
                assert forall|rr: int, cc: int, k: int|
                    0 <= rr < r && 0 <= cc < width && 0 <= k < 3 implies #[trigger] rgb_at(
                    out@,
                    w,
                    rr,
                    cc,
                    k,
                ) == component(row_of(src@, pitch as int, w, rr), cc, 2 - k) by {
                    assert(0 <= rr * w + cc < r * w) by (nonlinear_arith)
                        requires
                            0 <= rr < r,
                            0 <= cc < w,
                    ;
                    assert(rgb_at(out@, w, rr, cc, k) == rgb_at(before, w, rr, cc, k));
                }
                assert forall|cc: int, k: int| 0 <= cc < c + 1 && 0 <= k < 3 implies
                    #[trigger] rgb_at(out@, w, r as int, cc, k) == component(
                    row_of(src@, pitch as int, w, r as int),
                    cc,
                    2 - k,
                ) by {
                    assert(r * w >= 0) by (nonlinear_arith)
                        requires
                            r >= 0,
                            w >= 0,
                    ;
                    if cc < c {
                        assert(rgb_at(out@, w, r as int, cc, k) == rgb_at(
                            before,
                            w,
                            r as int,
                            cc,
                            k,
                        ));
                    }
                }
            }
        }
        assert((r + 1) * width == r * width + width) by (nonlinear_arith);
    }
    assert(height * width == width * height) by (nonlinear_arith);
    out
}

// ------------------------------------------------------------------------------------------
// Laws
// ------------------------------------------------------------------------------------------
/// Two frames of one size that show images with the same visible rows are the same frame: the
/// bytes between the rows never matter, and neither does where the rows stand.
pub proof fn conversion_sees_only_visible_rows(
    a: I420Frame,
    b: I420Frame,
    src_a: Seq<u8>,
    pitch_a: int,
    src_b: Seq<u8>,
    pitch_b: int,
)
    requires
        a.wf() && b.wf(),
        a.width == b.width && a.height == b.height,
        a.shows(src_a, pitch_a),
        b.shows(src_b, pitch_b),
        forall|r: int|
            0 <= r < a.height ==> #[trigger] row_of(src_a, pitch_a, a.width as int, r) == row_of(
                src_b,
                pitch_b,
                a.width as int,
                r,
            ),
    ensures
        a.y@ == b.y@,
        a.u@ == b.u@,
        a.v@ == b.v@,
{
    let (w, h) = (a.width as int, a.height as int);
    let (cw, ch) = (w / 2, h / 2);
    assert forall|k: int| 0 <= k < a.y@.len() implies a.y@[k] == b.y@[k] by {
        lemma_row_and_column(k, w, h);
        let (r, c) = (k / w, k % w);
        assert(sample(a.y@, w, r, c) == luma_px(row_of(src_a, pitch_a, w, r), c));
        assert(sample(b.y@, w, r, c) == luma_px(row_of(src_b, pitch_b, w, r), c));
    }
    assert forall|k: int| 0 <= k < a.u@.len() implies a.u@[k] == b.u@[k] && a.v@[k]
        == b.v@[k] by {
        lemma_row_and_column(k, cw, ch);
        let (r, c) = (k / cw, k % cw);
        assert(row_of(src_a, pitch_a, w, 2 * r) == row_of(src_b, pitch_b, w, 2 * r));
        assert(row_of(src_a, pitch_a, w, 2 * r + 1) == row_of(src_b, pitch_b, w, 2 * r + 1));
        assert(sample(a.u@, cw, r, c) == sample(b.u@, cw, r, c));
        assert(sample(a.v@, cw, r, c) == sample(b.v@, cw, r, c));
    }
    assert(a.y@ =~= b.y@);
    assert(a.u@ =~= b.u@);
    assert(a.v@ =~= b.v@);
}

proof fn lemma_byte_of_row(src: Seq<u8>, pitch: int, width: int, height: int, r: int, i: int)
    requires
        holds_rows(src.len(), width, height, pitch),
        0 <= 4 * width <= pitch,
        0 <= r < height,
        0 <= i < 4 * width,
    ensures
        0 <= r * pitch,
        r * pitch + 4 * width <= src.len(),
        row_of(src, pitch, width, r)[i] == src[r * pitch + i],
{
    assert(0 <= r * pitch <= (height - 1) * pitch) by (nonlinear_arith)
        requires
            0 <= r <= height - 1,
            pitch >= 0,
    ;
}

/// Luma is the weighted sum of the pixel's red, green and blue bytes, rounded to the nearest
/// number: the pixel's blue byte stands first, then green, then red.
pub proof fn luma_follows_the_pixel(f: I420Frame, src: Seq<u8>, pitch: int, r: int, c: int)
    requires
        f.wf(),
        f.shows(src, pitch),
        4 * f.width <= pitch,
        holds_rows(src.len(), f.width as int, f.height as int, pitch),
        0 <= r < f.height,
        0 <= c < f.width,
    ensures
        ({
            let y = f.y@[r * f.width + c] as int;
            let k = r * pitch + 4 * c;
            256 * (y - 16) <= 66 * src[k + 2] + 129 * src[k + 1] + 25 * src[k] + 128 < 256 * (y
                - 15)
        }),
{
    let w = f.width as int;
    lemma_byte_of_row(src, pitch, w, f.height as int, r, 4 * c);
    lemma_byte_of_row(src, pitch, w, f.height as int, r, 4 * c + 1);
    lemma_byte_of_row(src, pitch, w, f.height as int, r, 4 * c + 2);
    assert(sample(f.y@, w, r, c) == luma_px(row_of(src, pitch, w, r), c));
}

/// `m` is the average of the four bytes at `p`, `p + 4`, `q` and `q + 4`, rounded half up: that
/// of one component over two pixels in each of two rows.
pub open spec fn averages(src: Seq<u8>, p: int, q: int, m: int) -> bool {
    4 * m - 2 <= src[p] + src[p + 4] + src[q] + src[q + 4] < 4 * m + 2
}

proof fn lemma_mean_averages(
    src: Seq<u8>,
    pitch: int,
    w: int,
    h: int,
    r: int,
    c: int,
    k: int,
    m: int,
)
    requires
        0 <= 4 * w <= pitch,
        holds_rows(src.len(), w, h, pitch),
        0 <= r,
        2 * r + 1 < h,
        0 <= c,
        2 * c + 1 < w,
        0 <= k < 3,
        averages(src, 2 * r * pitch + 8 * c + k, (2 * r + 1) * pitch + 8 * c + k, m),
    ensures
        mean(row_of(src, pitch, w, 2 * r), row_of(src, pitch, w, 2 * r + 1), c, k) == m,
{
    lemma_byte_of_row(src, pitch, w, h, 2 * r, 8 * c + k);
    lemma_byte_of_row(src, pitch, w, h, 2 * r, 8 * c + 4 + k);
    lemma_byte_of_row(src, pitch, w, h, 2 * r + 1, 8 * c + k);
    lemma_byte_of_row(src, pitch, w, h, 2 * r + 1, 8 * c + 4 + k);
}

/// Chroma is the weighted difference of the averages over all four pixels of a block, rounded to
/// the nearest number.
#[verifier::spinoff_prover]
pub proof fn chroma_follows_the_averages(
    f: I420Frame,
    src: Seq<u8>,
    pitch: int,
    r: int,
    c: int,
    red: int,
    green: int,
    blue: int,
)
    requires
        f.wf(),
        f.shows(src, pitch),
        4 * f.width <= pitch,
        holds_rows(src.len(), f.width as int, f.height as int, pitch),
        0 <= r < f.height / 2,
        0 <= c < f.width / 2,
        averages(src, 2 * r * pitch + 8 * c, (2 * r + 1) * pitch + 8 * c, blue),
        averages(src, 2 * r * pitch + 8 * c + 1, (2 * r + 1) * pitch + 8 * c + 1, green),
        averages(src, 2 * r * pitch + 8 * c + 2, (2 * r + 1) * pitch + 8 * c + 2, red),
    ensures
        ({
            let u = f.u@[r * (f.width / 2) + c] as int;
            let v = f.v@[r * (f.width / 2) + c] as int;
            &&& 256 * (u - 128) <= -38 * red - 74 * green + 112 * blue + 128 < 256 * (u - 127)
            &&& 256 * (v - 128) <= 112 * red - 94 * green - 18 * blue + 128 < 256 * (v - 127)
        }),
{
    let w = f.width as int;
    let h = f.height as int;
    let row0 = row_of(src, pitch, w, 2 * r);
    let row1 = row_of(src, pitch, w, 2 * r + 1);
    lemma_mean_averages(src, pitch, w, h, r, c, 0, blue);
    lemma_mean_averages(src, pitch, w, h, r, c, 1, green);
    lemma_mean_averages(src, pitch, w, h, r, c, 2, red);
    assert(sample(f.u@, w / 2, r, c) == block_u(row0, row1, c));
    assert(sample(f.v@, w / 2, r, c) == block_v(row0, row1, c));
}

/// The four bytes of one component in the 2x2 block `i` of two rows, added up.
pub open spec fn block_sum(row0: Seq<u8>, row1: Seq<u8>, i: int, k: int) -> int {
    row0[8 * i + k] + row0[8 * i + 4 + k] + row1[8 * i + k] + row1[8 * i + 4 + k]
}

/// Only the sums over a block matter to its chroma, so exchanging pixels within it changes
/// nothing, and neither does the fourth byte of a pixel.
pub proof fn chroma_depends_on_the_sums(
    a0: Seq<u8>,
    a1: Seq<u8>,
    i: int,
    b0: Seq<u8>,
    b1: Seq<u8>,
    j: int,
)
    requires
        forall|k: int|
            0 <= k < 3 ==> #[trigger] block_sum(a0, a1, i, k) == block_sum(b0, b1, j, k),
    ensures
        block_u(a0, a1, i) == block_u(b0, b1, j),
        block_v(a0, a1, i) == block_v(b0, b1, j),
{
    assert(block_sum(a0, a1, i, 0) == block_sum(b0, b1, j, 0));
    assert(block_sum(a0, a1, i, 1) == block_sum(b0, b1, j, 1));
    assert(block_sum(a0, a1, i, 2) == block_sum(b0, b1, j, 2));
}

/// An odd side loses one pixel, an even one none.
pub proof fn sides_are_rounded_down(n: usize)
    ensures
        even(n) % 2 == 0,
        even(n) <= n < even(n) + 2,
{
}

/// A copied row holds the bytes of the row it was copied from.
pub proof fn copied_row_holds_the_bytes(
    src: Seq<u8>,
    pitch: int,
    copy: Seq<u8>,
    width: int,
    height: int,
    r: int,
    i: int,
)
    requires
        holds_rows(src.len(), width, height, pitch),
        0 <= 4 * width <= pitch,
        copy.len() == 4 * width * height,
        0 <= r < height,
        0 <= i < 4 * width,
        row_of(copy, 4 * width, width, r) == row_of(src, pitch, width, r),
    ensures
        copy[r * (4 * width) + i] == src[r * pitch + i],
{
    lemma_byte_of_row(src, pitch, width, height, r, i);
    assert((height - 1) * (4 * width) + 4 * width == 4 * width * height) by (nonlinear_arith);
    lemma_byte_of_row(copy, 4 * width, width, height, r, i);
}

/// A packed pixel holds the red, green and blue bytes of the pixel it comes from, in this order.
pub proof fn packed_pixel_is_red_green_blue(
    src: &[u8],
    width: usize,
    height: usize,
    pitch: usize,
    out: Vec<u8>,
    r: int,
    c: int,
)
    requires
        forall|i: int| 0 <= i < height ==> #[trigger] (i * pitch) + 4 * width <= src@.len(),
        call_ensures(xrgb_to_rgb8, (src, width, height, pitch), out),
        0 <= r < height,
        0 <= c < width,
    ensures
        ({
            let p = 3 * (r * width + c);
            let k = r * pitch + 4 * c;
            &&& out@[p] == src@[k + 2]
            &&& out@[p + 1] == src@[k + 1]
            &&& out@[p + 2] == src@[k]
        }),
{
    let w = width as int;
    assert(r * pitch >= 0) by (nonlinear_arith)
        requires
            r >= 0,
            pitch >= 0,
    ;
    assert((r * pitch) + 4 * width <= src@.len());
    assert(rgb_at(out@, w, r, c, 0) == component(row_of(src@, pitch as int, w, r), c, 2));
    assert(rgb_at(out@, w, r, c, 1) == component(row_of(src@, pitch as int, w, r), c, 1));
    assert(rgb_at(out@, w, r, c, 2) == component(row_of(src@, pitch as int, w, r), c, 0));
}

proof fn lemma_row_and_column(k: int, w: int, h: int)
    requires
        0 <= k < w * h,
        w >= 0,
        h >= 0,
    ensures
        0 <= k / w < h,
        0 <= k % w < w,
        (k / w) * w + k % w == k,
{
    assert(w > 0) by (nonlinear_arith)
        requires
            0 <= k < w * h,
            w >= 0,
            h >= 0,
    ;
    vstd::arithmetic::div_mod::lemma_fundamental_div_mod(k, w);
    vstd::arithmetic::div_mod::lemma_div_pos_is_pos(k, w);
    assert(w * (k / w) == (k / w) * w) by (nonlinear_arith);
    assert(k / w < h) by (nonlinear_arith)
        requires
            (k / w) * w <= k,
            k < w * h,
            w > 0,
    ;
}

/// What a conversion makes of an image: each pixel's luma from its own bytes, and a block's chroma
/// from the averages over its four pixels, with an odd pixel at the end cut off.
pub proof fn image_is_converted_pixel_by_pixel(
    src: &[u8],
    width: usize,
    height: usize,
    pitch: usize,
    dst: &mut I420Frame,
    r: int,
    c: int,
)
    requires
        width >= 2,
        height >= 2,
        4 * width <= pitch,
        holds_rows(src@.len(), width as int, height as int, pitch as int),
        call_ensures(xrgb_to_i420, (src, width, height, pitch, dst), ()),
        0 <= r < height - 1,
        0 <= c < width - 1,
    ensures
        final(dst).width <= width < final(dst).width + 2,
        final(dst).height <= height < final(dst).height + 2,
        final(dst).width % 2 == 0,
        final(dst).height % 2 == 0,
        ({
            let y = final(dst).y@[r * final(dst).width + c] as int;
            let k = r * pitch + 4 * c;
            256 * (y - 16) <= 66 * src@[k + 2] + 129 * src@[k + 1] + 25 * src@[k] + 128 < 256 * (y
                - 15)
        }),
{
    let f = *final(dst);
    assert(holds_rows(src@.len(), f.width as int, f.height as int, pitch as int)) by {
        assert((f.height - 1) * pitch <= (height - 1) * pitch) by (nonlinear_arith)
            requires
                f.height <= height,
                pitch >= 0,
        ;
    }
    luma_follows_the_pixel(f, src@, pitch as int, r, c);
}

/// What a conversion makes of a block of four pixels: its chroma from the rounded averages of
/// their red, green and blue bytes.
pub proof fn block_is_converted_from_its_averages(
    src: &[u8],
    width: usize,
    height: usize,
    pitch: usize,
    dst: &mut I420Frame,
    r: int,
    c: int,
    red: int,
    green: int,
    blue: int,
)
    requires
        4 * width <= pitch,
        holds_rows(src@.len(), width as int, height as int, pitch as int),
        call_ensures(xrgb_to_i420, (src, width, height, pitch, dst), ()),
        0 <= r < height / 2,
        0 <= c < width / 2,
        averages(src@, 2 * r * pitch + 8 * c, (2 * r + 1) * pitch + 8 * c, blue),
        averages(src@, 2 * r * pitch + 8 * c + 1, (2 * r + 1) * pitch + 8 * c + 1, green),
        averages(src@, 2 * r * pitch + 8 * c + 2, (2 * r + 1) * pitch + 8 * c + 2, red),
    ensures
        ({
            let u = final(dst).u@[r * (width / 2) + c] as int;
            let v = final(dst).v@[r * (width / 2) + c] as int;
            &&& 256 * (u - 128) <= -38 * red - 74 * green + 112 * blue + 128 < 256 * (u - 127)
            &&& 256 * (v - 128) <= 112 * red - 94 * green - 18 * blue + 128 < 256 * (v - 127)
        }),
{
    let f = *final(dst);
    assert(f.width / 2 == width / 2 && f.height / 2 == height / 2);
    assert(holds_rows(src@.len(), f.width as int, f.height as int, pitch as int)) by {
        assert((f.height - 1) * pitch <= (height - 1) * pitch) by (nonlinear_arith)
            requires
                f.height <= height,
                pitch >= 0,
        ;
    }
    chroma_follows_the_averages(f, src@, pitch as int, r, c, red, green, blue);
}

/// A copy holds every byte of the visible rows, packed.
pub proof fn copy_holds_every_byte(
    src: &[u8],
    width: usize,
    height: usize,
    pitch: usize,
    dst: &mut XrgbImage,
    r: int,
    i: int,
)
    requires
        4 * width <= pitch,
        holds_rows(src@.len(), width as int, height as int, pitch as int),
        call_ensures(copy_xrgb, (src, width, height, pitch, dst), ()),
        0 <= r < height,
        0 <= i < 4 * width,
    ensures
        final(dst).width == width,
        final(dst).height == height,
        final(dst).data@[r * (4 * width) + i] == src@[r * pitch + i],
{
    let f = *final(dst);
    assert(row_of(f.data@, 4 * width, width as int, r) == row_of(
        src@,
        pitch as int,
        width as int,
        r,
    ));
    copied_row_holds_the_bytes(
        src@,
        pitch as int,
        f.data@,
        width as int,
        height as int,
        r,
        i,
    );
}

} // verus!
