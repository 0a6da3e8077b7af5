//! Synthetic desktop-like test images, shared by `doctor`, the tests and the end-to-end runs.
//!
//! The pattern has smooth gradients, hard edges (a text-like grid) and a moving block, so an
//! encoder produces realistic keyframe and P-frame sizes rather than the near-empty output a
//! flat colour would give.
use vstd::prelude::*;

use crate::server::convert::{xrgb_to_i420, I420Frame};

verus! {

/// The smaller of two numbers.
pub open spec fn smaller(a: int, b: int) -> int {
    if a <= b {
        a
    } else {
        b
    }
}

/// The number, but at least one.
pub open spec fn at_least_one(a: int) -> int {
    if a >= 1 {
        a
    } else {
        1
    }
}

/// Side of the moving block.
pub open spec fn block_side(width: int) -> int {
    at_least_one(smaller(64, width / 4))
}

/// Position of the moving block along a side of `size` pixels, moving `step` per frame.
pub open spec fn block_at(size: int, side: int, step: int, index: int) -> int {
    (index * step) % at_least_one(size - side)
}

/// A component with 90 added, up to 255.
pub open spec fn brighter(c: int) -> int {
    smaller(c + 90, 255)
}

/// Component `k` (0 blue, 1 green, 2 red, 3 unused) of a pixel of the pattern.
pub open spec fn pattern(x: int, y: int, width: int, height: int, index: int, k: int) -> int {
    let side = block_side(width);
    let bx = block_at(width, side, 9, index);
    let by = block_at(height, side, 5, index);
    // Two gradients plus an 8x16 "character cell" grid with bright lines.
    let plain = if k == 2 {
        x * 255 / at_least_one(width)
    } else if k == 1 {
        y * 255 / at_least_one(height)
    } else {
        (x / 8 + y / 16 + index / 30) % 2 * 40 + 40
    };
    if k == 3 {
        255
    } else if bx <= x < bx + side && by <= y < by + side {
        // A white block with a dark border.
        if x == bx || y == by || x + 1 == bx + side || y + 1 == by + side {
            10
        } else {
            245
        }
    } else if x % 8 == 0 || y % 16 == 0 {
        brighter(plain)
    } else {
        plain
    }
}

/// Byte `k` of row `y`: a pixel's component, or zero behind the pixels.
pub open spec fn pattern_byte(k: int, y: int, width: int, height: int, index: int) -> int {
    if k < 4 * width {
        pattern(k / 4, y, width, height, index, k % 4)
    } else {
        0
    }
}

/// A frame of the pattern with `pitch` bytes per row.
pub open spec fn pattern_image(width: int, height: int, pitch: int, index: int) -> Seq<u8> {
    Seq::new(
        (pitch * height) as nat,
        |i: int| pattern_byte(i % pitch, i / pitch, width, height, index) as u8,
    )
}

/// The numbers that rendering works with fit.
pub open spec fn renderable(width: usize, height: usize, pitch: usize, index: usize) -> bool {
    &&& 4 * width <= pitch
    &&& pitch * height <= usize::MAX
    &&& 255 * width <= usize::MAX
    &&& 255 * height <= usize::MAX
    &&& 9 * index <= usize::MAX
    &&& width + height + index <= usize::MAX
}

fn bright(c: u8) -> (r: u8)
    ensures
        r == brighter(c as int),
{
    if c > 165 {
        255
    } else {
        c + 90
    }
}

/// One pixel of the pattern: its blue, green and red components.
fn pixel(
    x: usize,
    y: usize,
    width: usize,
    height: usize,
    index: usize,
    side: usize,
    bx: usize,
    by: usize,
) -> (r: (u8, u8, u8))
    requires
        x < width,
        y < height,
        255 * width <= usize::MAX,
        255 * height <= usize::MAX,
        width + height + index <= usize::MAX,
        side == block_side(width as int),
        bx == block_at(width as int, side as int, 9, index as int),
        by == block_at(height as int, side as int, 5, index as int),
        bx + side <= usize::MAX,
        by + side <= usize::MAX,
    ensures
        r.0 == pattern(x as int, y as int, width as int, height as int, index as int, 0),
        r.1 == pattern(x as int, y as int, width as int, height as int, index as int, 1),
        r.2 == pattern(x as int, y as int, width as int, height as int, index as int, 2),
{
    if x >= bx && x < bx + side && y >= by && y < by + side {
        let edge = x == bx || y == by || x + 1 == bx + side || y + 1 == by + side;
        return if edge {
            (10, 10, 10)
        } else {
            (245, 245, 245)
        };
    }
    assert(0 <= x as int * 255 / width as int <= 255) by (nonlinear_arith)
        requires
            0 <= x < width,
    ;
    assert(0 <= y as int * 255 / height as int <= 255) by (nonlinear_arith)
        requires
            0 <= y < height,
    ;
    let r: u8 = (x * 255 / width) as u8;
    let g: u8 = (y * 255 / height) as u8;
    let b: u8 = ((x / 8 + y / 16 + index / 30) % 2 * 40 + 40) as u8;
    if x % 8 == 0 || y % 16 == 0 {
        (bright(b), bright(g), bright(r))
    } else {
        (b, g, r)
    }
}

proof fn lemma_block_fits(size: int, side: int, step: int, index: int)
    requires
        size >= 0,
        side >= 1,
        index >= 0,
        step >= 0,
    ensures
        0 <= block_at(size, side, step, index) < at_least_one(size - side),
        block_at(size, side, step, index) + side <= size + side,
{
    vstd::arithmetic::div_mod::lemma_mod_bound(index * step, at_least_one(size - side));
}

/// Renders frame `index` of the moving pattern as `XRGB8888` (bytes B, G, R, X) with
/// `pitch` bytes per row.
pub fn xrgb(width: usize, height: usize, pitch: usize, index: usize) -> (out: Vec<u8>)
    requires
        renderable(width, height, pitch, index),
    ensures
        out@ == pattern_image(width as int, height as int, pitch as int, index as int),
{
    let quarter: usize = width / 4;
    let side: usize = if quarter >= 64 {
        64
    } else if quarter >= 1 {
        quarter
    } else {
        1
    };
    let free_x: usize = if width > side {
        width - side
    } else {
        1
    };
    let free_y: usize = if height > side {
        height - side
    } else {
        1
    };
    let bx: usize = (index * 9) % free_x;
    let by: usize = (index * 5) % free_y;
    proof {
        lemma_block_fits(width as int, side as int, 9, index as int);
        lemma_block_fits(height as int, side as int, 5, index as int);
    }
    let mut out: Vec<u8> = Vec::new();
    assert(0 * pitch == 0) by (nonlinear_arith);
    for y in 0..height
        invariant
            renderable(width, height, pitch, index),
            side == block_side(width as int),
            bx == block_at(width as int, side as int, 9, index as int),
            by == block_at(height as int, side as int, 5, index as int),
            bx + side <= usize::MAX,
            by + side <= usize::MAX,
            out@.len() == y * pitch,
            forall|i: int|
                0 <= i < out@.len() ==> #[trigger] out@[i] == pattern_byte(
                    i % (pitch as int),
                    i / (pitch as int),
                    width as int,
                    height as int,
                    index as int,
                ),
    {
        for x in 0..width
            invariant
                y < height,
                renderable(width, height, pitch, index),
                side == block_side(width as int),
                bx == block_at(width as int, side as int, 9, index as int),
                by == block_at(height as int, side as int, 5, index as int),
                bx + side <= usize::MAX,
                by + side <= usize::MAX,
                out@.len() == y * pitch + 4 * x,
                forall|i: int|
                    0 <= i < out@.len() ==> #[trigger] out@[i] == pattern_byte(
                        i % (pitch as int),
                        i / (pitch as int),
                        width as int,
                        height as int,
                        index as int,
                    ),
        {
            let (b, g, r) = pixel(x, y, width, height, index, side, bx, by);
            proof {
                lemma_byte_at(y as int, 4 * x as int, pitch as int);
                lemma_byte_at(y as int, 4 * x + 1, pitch as int);
                lemma_byte_at(y as int, 4 * x + 2, pitch as int);
                lemma_byte_at(y as int, 4 * x + 3, pitch as int);
            }
            out.push(b);
            out.push(g);
            out.push(r);
            out.push(255);
        }
        for k in 4 * width..pitch
            invariant
                y < height,
                renderable(width, height, pitch, index),
                out@.len() == y * pitch + k,
                forall|i: int|
                    0 <= i < out@.len() ==> #[trigger] out@[i] == pattern_byte(
                        i % (pitch as int),
                        i / (pitch as int),
                        width as int,
                        height as int,
                        index as int,
                    ),
        {
            proof {
                lemma_byte_at(y as int, k as int, pitch as int);
            }
            out.push(0);
        }
        assert((y + 1) * pitch == y * pitch + pitch) by (nonlinear_arith);
    }
    assert(height * pitch == pitch * height) by (nonlinear_arith);
    assert(out@ =~= pattern_image(width as int, height as int, pitch as int, index as int));
    out
}

proof fn lemma_byte_at(y: int, k: int, pitch: int)
    requires
        y >= 0,
        0 <= k < pitch,
    ensures
        (y * pitch + k) % pitch == k,
        (y * pitch + k) / pitch == y,
{
    vstd::arithmetic::div_mod::lemma_fundamental_div_mod_converse(y * pitch + k, pitch, y, k);
}

/// Frame `index` of the pattern already converted to I420.
pub fn i420(width: usize, height: usize, index: usize) -> (r: I420Frame)
    requires
        4 * width <= usize::MAX,
        renderable(width, height, (4 * width) as usize, index),
    ensures
        r.wf(),
        width < 2 || height < 2 ==> r.width == 0 && r.height == 0,
        width >= 2 && height >= 2 ==> r.width == crate::server::convert::even(width) && r.height
            == crate::server::convert::even(height),
        r.shows(
            pattern_image(width as int, height as int, 4 * width, index as int),
            4 * width,
        ),
{
    let pitch: usize = width * 4;
    let src = xrgb(width, height, pitch, index);
    assert(crate::server::convert::even(0) == 0);
    let mut frame = I420Frame::new(0, 0);
    proof {
        let (w, h) = (
            crate::server::convert::even(width) as int,
            crate::server::convert::even(height) as int,
        );
        if w > 0 && h > 0 {
            assert((h - 1) * pitch + 4 * w <= pitch * height) by (nonlinear_arith)
                requires
                    h <= height,
                    w <= width,
                    h >= 1,
                    pitch == 4 * width,
            ;
        }
        assert(pitch * height >= 0) by (nonlinear_arith);
    }
    xrgb_to_i420(src.as_slice(), width, height, pitch, &mut frame);
    frame
}

/// The block is a quarter of the width wide, but at most 64 pixels and at least one, and moves by
/// nine pixels to the right and five down with every frame, round and round.
pub proof fn block_moves(width: int, height: int, index: int)
    requires
        width > 64,
        height > 64,
        index >= 0,
    ensures
        ({
            let side = block_side(width);
            &&& 1 <= side <= 64
            &&& side == 64 || 4 * side <= width < 4 * side + 4
            &&& 0 <= block_at(width, side, 9, index) < width - side
            &&& 0 <= block_at(height, side, 5, index) < height - side
            &&& block_at(width, side, 9, 0) == 0
            &&& block_at(width, side, 9, index + 1) == block_at(width, side, 9, index) + 9
                || block_at(width, side, 9, index + 1) == block_at(width, side, 9, index) + 9
                - (width - side) || width - side < 9
        }),
{
    let side = block_side(width);
    let m = width - side;
    let a = index * 9;
    vstd::arithmetic::div_mod::lemma_mod_bound(a, m);
    vstd::arithmetic::div_mod::lemma_mod_bound(index * 5, height - side);
    vstd::arithmetic::div_mod::lemma_small_mod(0, m as nat);
    if m >= 9 {
        assert((index + 1) * 9 == a + 9);
        vstd::arithmetic::div_mod::lemma_fundamental_div_mod(a, m);
        let (q, rest) = (a / m, a % m);
        assert(a == m * q + rest);
        if rest + 9 < m {
            assert(a + 9 == q * m + (rest + 9)) by (nonlinear_arith)
                requires
                    a == m * q + rest,
            ;
            vstd::arithmetic::div_mod::lemma_fundamental_div_mod_converse(a + 9, m, q, rest + 9);
        } else {
            assert(a + 9 == (q + 1) * m + (rest + 9 - m)) by (nonlinear_arith)
                requires
                    a == m * q + rest,
            ;
            if rest + 9 - m < m {
                vstd::arithmetic::div_mod::lemma_fundamental_div_mod_converse(
                    a + 9,
                    m,
                    q + 1,
                    rest + 9 - m,
                );
            }
        }
    }
}

/// Off the block and the grid lines, red is the place from left to right and green that from top
/// to bottom, in 255ths, and blue is 40 or 80, changing from cell to cell.
pub proof fn gradients_fill_the_picture(x: int, y: int, width: int, height: int, index: int)
    requires
        0 <= x < width,
        0 <= y < height,
        index >= 0,
        x % 8 != 0,
        y % 16 != 0,
        ({
            let side = block_side(width);
            let bx = block_at(width, side, 9, index);
            let by = block_at(height, side, 5, index);
            x < bx || x >= bx + side || y < by || y >= by + side
        }),
    ensures
        ({
            let red = pattern(x, y, width, height, index, 2);
            let green = pattern(x, y, width, height, index, 1);
            let blue = pattern(x, y, width, height, index, 0);
            &&& red * width <= 255 * x < (red + 1) * width
            &&& green * height <= 255 * y < (green + 1) * height
            &&& blue == 40 <==> (x / 8 + y / 16 + index / 30) % 2 == 0
            &&& blue == 40 || blue == 80
        }),
{
    vstd::arithmetic::div_mod::lemma_fundamental_div_mod(x * 255, width);
    vstd::arithmetic::div_mod::lemma_fundamental_div_mod(y * 255, height);
    vstd::arithmetic::div_mod::lemma_mod_bound(x * 255, width);
    vstd::arithmetic::div_mod::lemma_mod_bound(y * 255, height);
    let red = x * 255 / width;
    let green = y * 255 / height;
    assert(red * width == width * red) by (nonlinear_arith);
    assert((red + 1) * width == red * width + width) by (nonlinear_arith);
    assert(green * height == height * green) by (nonlinear_arith);
    assert((green + 1) * height == green * height + height) by (nonlinear_arith);
}

/// The block is white inside and dark along its border, in every component.
pub proof fn block_is_white_with_a_dark_border(
    x: int,
    y: int,
    width: int,
    height: int,
    index: int,
    k: int,
)
    requires
        0 <= k < 3,
        ({
            let side = block_side(width);
            let bx = block_at(width, side, 9, index);
            let by = block_at(height, side, 5, index);
            bx <= x < bx + side && by <= y < by + side
        }),
    ensures
        ({
            let side = block_side(width);
            let bx = block_at(width, side, 9, index);
            let by = block_at(height, side, 5, index);
            let inside = bx < x && x + 1 < bx + side && by < y && y + 1 < by + side;
            pattern(x, y, width, height, index, k) == if inside {
                245int
            } else {
                10
            }
        }),
{
}

/// In memory a pixel is blue, green, red and an unused byte; behind the pixels of a row stand
/// zeros.
pub proof fn rows_stand_a_pitch_apart(
    width: int,
    height: int,
    pitch: int,
    index: int,
    y: int,
    b: int,
)
    requires
        0 <= y < height,
        0 <= b < pitch,
        0 <= width,
    ensures
        ({
            let image = pattern_image(width, height, pitch, index);
            &&& image.len() == pitch * height
            &&& b < 4 * width ==> image[y * pitch + b] == pattern(
                b / 4,
                y,
                width,
                height,
                index,
                b % 4,
            ) as u8
            &&& b >= 4 * width ==> image[y * pitch + b] == 0
        }),
{
    assert(0 <= y * pitch + b < pitch * height) by (nonlinear_arith)
        requires
            0 <= y < height,
            0 <= b < pitch,
    ;
    vstd::arithmetic::div_mod::lemma_fundamental_div_mod_converse(y * pitch + b, pitch, y, b);
}

/// Along the grid lines, every eighth column and every sixteenth row, the picture is brighter by
/// 90, up to white.
pub proof fn grid_lines_are_brighter(
    x: int,
    y: int,
    width: int,
    height: int,
    index: int,
    red: int,
    green: int,
)
    requires
        0 <= x < width,
        0 <= y < height,
        index >= 0,
        x % 8 == 0 || y % 16 == 0,
        red * width <= 255 * x < (red + 1) * width,
        green * height <= 255 * y < (green + 1) * height,
        ({
            let side = block_side(width);
            let bx = block_at(width, side, 9, index);
            let by = block_at(height, side, 5, index);
            x < bx || x >= bx + side || y < by || y >= by + side
        }),
    ensures
        pattern(x, y, width, height, index, 2) == if red + 90 < 255 {
            red + 90
        } else {
            255
        },
        pattern(x, y, width, height, index, 1) == if green + 90 < 255 {
            green + 90
        } else {
            255
        },
        pattern(x, y, width, height, index, 0) == if (x / 8 + y / 16 + index / 30) % 2 == 0 {
            130int
        } else {
            170
        },
{
    assert(255 * x - red * width < width) by (nonlinear_arith)
        requires
            255 * x < (red + 1) * width,
    ;
    assert(255 * y - green * height < height) by (nonlinear_arith)
        requires
            255 * y < (green + 1) * height,
    ;
    vstd::arithmetic::div_mod::lemma_fundamental_div_mod_converse(
        x * 255,
        width,
        red,
        x * 255 - red * width,
    );
    vstd::arithmetic::div_mod::lemma_fundamental_div_mod_converse(
        y * 255,
        height,
        green,
        y * 255 - green * height,
    );
}

} // verus!
