//! App icons: from the PC's pixel format to the device's.

use vstd::prelude::*;

use crate::screen;
use crate::sh8601;
use crate::text;

verus! {

pub const ICON_SIZE: u32 = 64;

/// Pixels of an icon.
pub const ICON_PIXELS: usize = 4096;

/// Blue, green, red and alpha of pixel `i`.
pub open spec fn bgra_at(bgra: Seq<u8>, i: int) -> (u8, u8, u8, u8) {
    (bgra[i * 4], bgra[i * 4 + 1], bgra[i * 4 + 2], bgra[i * 4 + 3])
}

/// Some pixel is not fully transparent.
pub open spec fn has_alpha(bgra: Seq<u8>, pixels: int) -> bool {
    exists|i: int| 0 <= i < pixels && (#[trigger] bgra_at(bgra, i)).3 != 0
}

/// A colour channel blended against black.
pub open spec fn blended(c: u8, a: u8, alpha: bool) -> u8 {
    if alpha {
        (c * a / 255) as u8
    } else {
        c
    }
}

/// Red, green and blue of pixel `i` on a black background. An icon without any
/// alpha counts as fully opaque.
pub open spec fn rgb_at(bgra: Seq<u8>, pixels: int, i: int) -> (u8, u8, u8) {
    let (b, g, r, a) = bgra_at(bgra, i);
    let alpha = has_alpha(bgra, pixels);
    (blended(r, a, alpha), blended(g, a, alpha), blended(b, a, alpha))
}

/// Five bits of red, six of green, five of blue.
pub open spec fn rgb565(r: u8, g: u8, b: u8) -> u16 {
    ((r / 8) * 2048 + (g / 4) * 32 + b / 8) as u16
}

fn any_alpha(bgra: &[u8], pixels: usize) -> (r: bool)
    requires
        pixels * 4 <= bgra@.len(),
    ensures
        r == has_alpha(bgra@, pixels as int),
{
    let mut i: usize = 0;
    while i < pixels
        invariant
            i <= pixels,
            pixels * 4 <= bgra.len(),
            !has_alpha(bgra@, i as int),
        decreases pixels - i,
    {
        if bgra[i * 4 + 3] != 0 {
            assert(bgra_at(bgra@, i as int).3 != 0);
            return true;
        }
        i = i + 1;
    }
    false
}

fn blend(c: u8, a: u8, alpha: bool) -> (r: u8)
    ensures
        r == blended(c, a, alpha),
{
    if alpha {
        assert(c * a <= 255 * 255) by (nonlinear_arith)
            requires
                c <= 255,
                a <= 255,
        ;
        (c as u16 * a as u16 / 255) as u8
    } else {
        c
    }
}

/// Convert a top-down BGRA8888 buffer to big-endian RGB565, alpha-blended
/// against a black background.
///
/// Some icons (legacy 24-bit or poorly authored) come with the alpha channel
/// all zeros, and naively premultiplying would blank the whole image. Such an
/// icon is treated as fully opaque.
pub fn bgra_to_rgb565_be(bgra: &[u8], width: u32, height: u32) -> (out: Vec<u8>)
    requires
        width * height <= u32::MAX,
        width * height * 4 <= bgra@.len(),
    ensures
        out@.len() == width * height * 2,
        forall|i: int|
            0 <= i < width * height ==> sh8601::big_endian(
                #[trigger] out@[2 * i],
                out@[2 * i + 1],
            ) == {
                let (r, g, b) = rgb_at(bgra@, width * height, i);
                rgb565(r, g, b)
            },
{
    let pixels: usize = (width * height) as usize;
    let alpha = any_alpha(bgra, pixels);
    let mut out: Vec<u8> = Vec::new();
    let mut i: usize = 0;
    while i < pixels
        invariant
            i <= pixels,
            pixels == width * height,
            pixels * 4 <= bgra.len(),
            alpha == has_alpha(bgra@, pixels as int),
            out@.len() == 2 * i,
            forall|k: int|
                0 <= k < i ==> sh8601::big_endian(#[trigger] out@[2 * k], out@[2 * k + 1]) == {
                    let (r, g, b) = rgb_at(bgra@, pixels as int, k);
                    rgb565(r, g, b)
                },
        decreases pixels - i,
    {
        let a = bgra[i * 4 + 3];
        let b8 = blend(bgra[i * 4], a, alpha);
        let g8 = blend(bgra[i * 4 + 1], a, alpha);
        let r8 = blend(bgra[i * 4 + 2], a, alpha);
        let (r, g, b) = (r8 as u16, g8 as u16, b8 as u16);
        let packed: u16 = ((r & 0xF8) << 8) | ((g & 0xFC) << 3) | ((b & 0xF8) >> 3);
        assert((((r & 0xF8) << 8) | ((g & 0xFC) << 3) | ((b & 0xF8) >> 3)) == (r / 8) * 2048 + (g
            / 4) * 32 + b / 8) by (bit_vector)
            requires
                r <= 255,
                g <= 255,
                b <= 255,
        ;
        assert(((packed >> 8) as u8) * 256 + ((packed & 0xFF) as u8) == packed) by (bit_vector);
        let ghost so_far = out@;
        out.push((packed >> 8) as u8);
        out.push((packed & 0xFF) as u8);
        assert forall|k: int| 0 <= k < i + 1 implies sh8601::big_endian(
            #[trigger] out@[2 * k],
            out@[2 * k + 1],
        ) == {
            let (r, g, b) = rgb_at(bgra@, pixels as int, k);
            rgb565(r, g, b)
        } by {
            if k < i {
                assert(out@[2 * k] == so_far[2 * k]);
                assert(out@[2 * k + 1] == so_far[2 * k + 1]);
            }
        }
        i = i + 1;
    }
    out
}

/// The 64x64 icon as RGB565 big-endian pixel bytes (length = 64 * 64 * 2 =
/// 8192), given its BGRA pixels where they could be extracted. Alpha-blended
/// against black so transparent pixels show as background color on the AMOLED.
pub fn extract_rgb565(bgra: Option<Vec<u8>>) -> (out: Option<Vec<u8>>)
    requires
        bgra is Some ==> bgra->0@.len() == ICON_PIXELS * 4,
    ensures
        out is Some <==> bgra is Some,
        out is Some ==> {
            &&& out->0@.len() == screen::ICON_BYTES
            &&& forall|i: int|
                0 <= i < ICON_PIXELS ==> sh8601::big_endian(
                    #[trigger] out->0@[2 * i],
                    out->0@[2 * i + 1],
                ) == {
                    let (r, g, b) = rgb_at(bgra->0@, ICON_PIXELS as int, i);
                    rgb565(r, g, b)
                }
        },
{
    match bgra {
        Some(pixels) => Some(bgra_to_rgb565_be(pixels.as_slice(), ICON_SIZE, ICON_SIZE)),
        None => None,
    }
}

/// The header of the picture file: its kind, size and greatest channel value.
pub open spec fn ppm_header() -> Seq<u8> {
    // P6, 64 64 and 255, each on a line.
    seq![80u8, 54, 10, 54, 52, 32, 54, 52, 10, 50, 53, 53, 10]
}

/// The bytes of a picture file with the icon as it looks on black, to visually
/// verify that the extraction step is working.
pub fn ppm(bgra: &[u8]) -> (out: Vec<u8>)
    requires
        bgra@.len() == ICON_PIXELS * 4,
    ensures
        out@.len() == 13 + ICON_PIXELS * 3,
        out@.take(13) == ppm_header(),
        forall|i: int|
            0 <= i < ICON_PIXELS ==> (
                #[trigger] out@[13 + 3 * i],
                out@[13 + 3 * i + 1],
                out@[13 + 3 * i + 2],
            ) == rgb_at(bgra@, ICON_PIXELS as int, i),
{
    let alpha = any_alpha(bgra, ICON_PIXELS);
    let mut out: Vec<u8> = vec![80u8, 54, 10, 54, 52, 32, 54, 52, 10, 50, 53, 53, 10];
    assert(out@.take(13) =~= ppm_header());
    let mut i: usize = 0;
    while i < ICON_PIXELS
        invariant
            i <= ICON_PIXELS,
            bgra@.len() == ICON_PIXELS * 4,
            alpha == has_alpha(bgra@, ICON_PIXELS as int),
            out@.len() == 13 + 3 * i,
            out@.take(13) == ppm_header(),
            forall|k: int|
                0 <= k < i ==> (
                    #[trigger] out@[13 + 3 * k],
                    out@[13 + 3 * k + 1],
                    out@[13 + 3 * k + 2],
                ) == rgb_at(bgra@, ICON_PIXELS as int, k),
        decreases ICON_PIXELS - i,
    {
        let a = bgra[i * 4 + 3];
        let ghost so_far = out@;
        out.push(blend(bgra[i * 4 + 2], a, alpha));
        out.push(blend(bgra[i * 4 + 1], a, alpha));
        out.push(blend(bgra[i * 4], a, alpha));
        assert(out@.take(13) =~= so_far.take(13));
        assert forall|k: int| 0 <= k < i + 1 implies (
            #[trigger] out@[13 + 3 * k],
            out@[13 + 3 * k + 1],
            out@[13 + 3 * k + 2],
        ) == rgb_at(bgra@, ICON_PIXELS as int, k) by {
            if k < i {
                assert(out@[13 + 3 * k] == so_far[13 + 3 * k]);
                assert(out@[13 + 3 * k + 1] == so_far[13 + 3 * k + 1]);
                assert(out@[13 + 3 * k + 2] == so_far[13 + 3 * k + 2]);
            }
        }
        i = i + 1;
    }
    out
}

/// The name of the picture file for the icon of a process.
pub fn ppm_name(pid: u32, process_name: &str) -> (name: String)
    ensures
        name@ == "icon-"@ + text::decimal(pid as nat) + "-"@ + process_name@ + ".ppm"@,
{
    let mut name = "icon-".to_owned();
    text::push_decimal(&mut name, pid as u64);
    name.append("-");
    name.append(process_name);
    name.append(".ppm");
    name
}

/// Length of the path buffer that icon extraction takes.
pub const PATH_LEN: usize = 260;

/// A path, given as UTF-16 code units, with its terminator in a buffer of fixed
/// size. What does not fit is cut off.
pub fn path_buffer(units: &[u16]) -> (buf: [u16; PATH_LEN])
    ensures
        forall|i: int|
            0 <= i < PATH_LEN ==> #[trigger] buf@[i] == if i < units@.len() && i < PATH_LEN - 1 {
                units@[i]
            } else {
                0
            },
{
    let mut buf: [u16; PATH_LEN] = [0u16; PATH_LEN];
    let mut i: usize = 0;
    while i < units.len() && i < PATH_LEN - 1
        invariant
            i <= units@.len(),
            i <= PATH_LEN - 1,
            forall|k: int|
                0 <= k < PATH_LEN ==> #[trigger] buf@[k] == if k < i {
                    units@[k]
                } else {
                    0
                },
        decreases units@.len() - i,
    {
        buf[i] = units[i];
        i = i + 1;
    }
    buf
}

/// Blending never brightens, and leaves opaque pixels alone.
pub proof fn law_blending(c: u8, a: u8, alpha: bool)
    ensures
        blended(c, a, alpha) <= c,
        blended(c, 255, alpha) == c,
        alpha ==> blended(c, 0, alpha) == 0,
{
    assert(c * a <= c * 255) by (nonlinear_arith)
        requires
            a <= 255,
            c >= 0,
    ;
    assert(c * a >= 0) by (nonlinear_arith)
        requires
            a >= 0,
            c >= 0,
    ;
}

/// The pixel's channels are packed with red on top, green in the middle and blue
/// at the bottom, each with its highest bits.
pub proof fn law_channels_are_packed(r: u8, g: u8, b: u8)
    ensures
        rgb565(r, g, b) / 2048 == r / 8,
        (rgb565(r, g, b) / 32) % 64 == g / 4,
        rgb565(r, g, b) % 32 == b / 8,
{
}

/// Blending scales a channel with its pixel's opacity, rounded down; where no
/// pixel of the icon has any, all count as opaque.
pub proof fn law_blending_is_proportional(c: u8, a: u8)
    ensures
        255 * blended(c, a, true) <= c * a < 255 * (blended(c, a, true) + 1),
        blended(c, a, false) == c,
{
    assert(0 <= c * a <= 255 * 255) by (nonlinear_arith)
        requires
            0 <= c <= 255,
            0 <= a <= 255,
    ;
}

/// Pixels come blue first, then green, red and opacity: a pixel that is opaque,
/// or one of an icon without any opacity, keeps its colour.
pub proof fn law_opaque_pixels_keep_colour(bgra: Seq<u8>, pixels: int, i: int)
    requires
        0 <= i < pixels,
        4 * pixels <= bgra.len(),
        bgra[4 * i + 3] == 255 || forall|k: int|
            0 <= k < pixels ==> #[trigger] bgra[4 * k + 3] == 0,
    ensures
        rgb_at(bgra, pixels, i) == (bgra[4 * i + 2], bgra[4 * i + 1], bgra[4 * i]),
{
    if bgra[4 * i + 3] == 255 {
        law_blending(bgra[4 * i], 255, true);
        law_blending(bgra[4 * i + 1], 255, true);
        law_blending(bgra[4 * i + 2], 255, true);
    } else if has_alpha(bgra, pixels) {
        let k = choose|k: int| 0 <= k < pixels && (#[trigger] bgra_at(bgra, k)).3 != 0;
        assert(bgra[4 * k + 3] == 0);
    }
}

/// A transparent pixel is black, where any pixel of the icon is not transparent.
pub proof fn law_transparent_pixels_are_black(bgra: Seq<u8>, pixels: int, i: int, k: int)
    requires
        0 <= i < pixels,
        0 <= k < pixels,
        4 * pixels <= bgra.len(),
        bgra[4 * i + 3] == 0,
        bgra[4 * k + 3] != 0,
    ensures
        rgb_at(bgra, pixels, i) == (0u8, 0u8, 0u8),
{
    assert(bgra_at(bgra, k).3 != 0);
}

} // verus!
