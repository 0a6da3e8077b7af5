//! PNG output for `capture --png`.
use vstd::prelude::*;

use crate::server::convert::xrgb_to_rgb8;

verus! {

/// The bytes of an 8-bit RGB PNG, as `png`'s encoder writes them; `None` where it fails.
pub uninterp spec fn png_rgb8(rgb: Seq<u8>, width: u32, height: u32) -> Option<Seq<u8>>;

/// A 32-bit number, most significant byte first.
pub open spec fn be32(v: u32) -> Seq<u8> {
    seq![
        (v / 0x100_0000) as u8,
        (v / 0x1_0000 % 256) as u8,
        (v / 0x100 % 256) as u8,
        (v % 256) as u8,
    ]
}

/// How an 8-bit RGB PNG starts: the signature, then the header chunk with size, depth and
/// colour type.
pub open spec fn png_start(width: u32, height: u32) -> Seq<u8> {
    seq![137u8, 80, 78, 71, 13, 10, 26, 10, 0, 0, 0, 13, 73, 72, 68, 82] + be32(width) + be32(
        height,
    ) + seq![8u8, 2]
}

/// Encodes packed 8-bit RGB pixels as PNG.
///
/// This is `png::Encoder` writing to memory with colour type RGB and depth 8: `write_header`,
/// `write_image_data` and `finish`. The result is named; beside the name it is claimed that an
/// image without pixels is refused, and how an encoded image starts.
#[verifier::external_body]
fn encode_rgb8(rgb: &[u8], width: u32, height: u32) -> (r: Option<Vec<u8>>)
    requires
        rgb@.len() == 3 * (width * height),
    ensures
        match r {
            Some(b) => png_rgb8(rgb@, width, height) == Some(b@) && png_start(
                width,
                height,
            ).is_prefix_of(b@),
            None => png_rgb8(rgb@, width, height) is None,
        },
        width == 0 || height == 0 ==> r is None,
{
    let mut out: Vec<u8> = Vec::new();
    let mut encoder = png::Encoder::new(&mut out, width, height);
    encoder.set_color(png::ColorType::Rgb);
    encoder.set_depth(png::BitDepth::Eight);
    let mut writer = encoder.write_header().ok()?;
    writer.write_image_data(rgb).ok()?;
    writer.finish().ok()?;
    Some(out)
}

/// The packed RGB pixels of an `XRGB8888` image.
pub open spec fn rgb_pixels(src: Seq<u8>, width: int, height: int, pitch: int) -> Seq<u8> {
    Seq::new(
        (3 * (width * height)) as nat,
        |i: int|
            crate::server::convert::component(
                crate::server::convert::row_of(src, pitch, width, i / 3 / width),
                i / 3 % width,
                2 - i % 3,
            ) as u8,
    )
}

proof fn lemma_rgb_pixels(out: Seq<u8>, src: Seq<u8>, width: int, height: int, pitch: int)
    requires
        width >= 0,
        height >= 0,
        out.len() == 3 * (width * height),
        forall|r: int, c: int, k: int|
            0 <= r < height && 0 <= c < width && 0 <= k < 3
                ==> #[trigger] crate::server::convert::rgb_at(out, width, r, c, k)
                == crate::server::convert::component(
                crate::server::convert::row_of(src, pitch, width, r),
                c,
                2 - k,
            ),
    ensures
        out == rgb_pixels(src, width, height, pitch),
{
    assert forall|i: int| 0 <= i < out.len() implies out[i] == rgb_pixels(
        src,
        width,
        height,
        pitch,
    )[i] by {
        let p = i / 3;
        assert(width > 0) by (nonlinear_arith)
            requires
                0 <= p < width * height,
                width >= 0,
                height >= 0,
        ;
        let (r, c, k) = (p / width, p % width, i % 3);
        vstd::arithmetic::div_mod::lemma_fundamental_div_mod(p, width);
        vstd::arithmetic::div_mod::lemma_div_pos_is_pos(p, width);
        assert(width * r == r * width) by (nonlinear_arith);
        assert(r < height) by (nonlinear_arith)
            requires
                r * width <= p,
                p < width * height,
                width > 0,
        ;
        assert(crate::server::convert::rgb_at(out, width, r, c, k) == out[i]);
    }
    assert(out =~= rgb_pixels(src, width, height, pitch));
}

/// Encodes an `XRGB8888` image as an 8-bit RGB PNG. `None` if a side is zero or too large for
/// the format, or if the encoder fails.
pub fn xrgb_png(src: &[u8], width: usize, height: usize, pitch: usize) -> (r: Option<Vec<u8>>)
    requires
        forall|r: int| 0 <= r < height ==> #[trigger] (r * pitch) + 4 * width <= src@.len(),
        3 * (width * height) <= usize::MAX,
    ensures
        width > u32::MAX || height > u32::MAX ==> r is None,
        width <= u32::MAX && height <= u32::MAX ==> match r {
            Some(b) => png_rgb8(
                rgb_pixels(src@, width as int, height as int, pitch as int),
                width as u32,
                height as u32,
            ) == Some(b@) && png_start(width as u32, height as u32).is_prefix_of(b@),
            None => png_rgb8(
                rgb_pixels(src@, width as int, height as int, pitch as int),
                width as u32,
                height as u32,
            ) is None,
        },
        width == 0 || height == 0 ==> r is None,
{
    if width as u64 > 0xffff_ffff || height as u64 > 0xffff_ffff {
        return None;
    }
    let rgb = xrgb_to_rgb8(src, width, height, pitch);
    proof {
        lemma_rgb_pixels(rgb@, src@, width as int, height as int, pitch as int);
    }
    encode_rgb8(rgb.as_slice(), width as u32, height as u32)
}

/// The packed pixels are those of the image, row by row, red before green before blue.
pub proof fn packed_pixels_are_those_of_the_image(
    src: Seq<u8>,
    width: int,
    height: int,
    pitch: int,
    r: int,
    c: int,
)
    requires
        0 <= r < height,
        0 <= c < width,
        0 <= r * pitch,
        r * pitch + 4 * width <= src.len(),
    ensures
        ({
            let out = rgb_pixels(src, width, height, pitch);
            let p = 3 * (r * width + c);
            let k = r * pitch + 4 * c;
            &&& out.len() == 3 * (width * height)
            &&& out[p] == src[k + 2]
            &&& out[p + 1] == src[k + 1]
            &&& out[p + 2] == src[k]
        }),
{
    let n = r * width + c;
    assert(0 <= n < width * height) by (nonlinear_arith)
        requires
            0 <= r < height,
            0 <= c < width,
            n == r * width + c,
    ;
    vstd::arithmetic::div_mod::lemma_fundamental_div_mod_converse(n, width, r, c);
    let row = crate::server::convert::row_of(src, pitch, width, r);
    assert(row[4 * c] == src[r * pitch + 4 * c]);
    assert(row[4 * c + 1] == src[r * pitch + 4 * c + 1]);
    assert(row[4 * c + 2] == src[r * pitch + 4 * c + 2]);
    assert((3 * n) / 3 == n && (3 * n + 1) / 3 == n && (3 * n + 2) / 3 == n);
    assert((3 * n) % 3 == 0 && (3 * n + 1) % 3 == 1 && (3 * n + 2) % 3 == 2);
}

/// The header of an image says its width and then its height, most significant byte first.
pub proof fn header_says_width_and_height(width: u32, height: u32)
    ensures
        ({
            let s = png_start(width, height);
            &&& s.len() == 26
            &&& s[16] * 0x100_0000 + s[17] * 0x1_0000 + s[18] * 0x100 + s[19] == width
            &&& s[20] * 0x100_0000 + s[21] * 0x1_0000 + s[22] * 0x100 + s[23] == height
            &&& s[1] == 'P' as u8 && s[2] == 'N' as u8 && s[3] == 'G' as u8
            &&& s[24] == 8 && s[25] == 2
        }),
{
}

} // verus!
