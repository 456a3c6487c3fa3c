use vstd::prelude::*;
use crate::canvas::{px, Canvas, lemma_set_pixel_px, lemma_pixel_index_in_bounds};
use crate::decode::frame_pos_done;
use crate::fade::is_fade_radius_str;

verus! {

/// Whether the text-composited raster differs from the original at a pixel,
/// in any channel.
pub open spec fn pixels_differ(orig: Seq<u8>, text: Seq<u8>, w: int, x: int, y: int) -> bool {
    px(orig, w, x, y, 0) != px(text, w, x, y, 0) || px(orig, w, x, y, 1) != px(text, w, x, y, 1)
        || px(orig, w, x, y, 2) != px(text, w, x, y, 2) || px(orig, w, x, y, 3) != px(
        text,
        w,
        x,
        y,
        3,
    )
}

/// One channel of the binary text-presence mask: opaque white where the two
/// rasters differ, opaque black elsewhere.
pub open spec fn mask_channel(orig: Seq<u8>, text: Seq<u8>, w: int, x: int, y: int, ch: int) -> u8 {
    if pixels_differ(orig, text, w, x, y) {
        255u8
    } else if ch == 3 {
        255u8
    } else {
        0u8
    }
}

/// The raster that a Gaussian blur of the radius named by the given decimal
/// numeral produces from the given raster.
pub uninterp spec fn blurred_mask(pixels: Seq<u8>, width: u16, height: u16, sigma: Seq<char>) -> Seq<
    u8,
>;

/// Relies on imageproc's gaussian blur: the result is a function of the
/// raster and the radius alone, and keeps the dimensions. The radius must be
/// one of the fade curve's numerals, each of which parses as a positive
/// finite number.
#[verifier::external_body]
fn gaussian_blur_raw(pixels: Vec<u8>, width: u16, height: u16, sigma_str: &str) -> (r: Vec<u8>)
    requires
        pixels@.len() == 4 * (width as int) * (height as int),
        is_fade_radius_str(sigma_str@),
    ensures
        r@ == blurred_mask(pixels@, width, height, sigma_str@),
        r@.len() == pixels@.len(),
{
    let img = image::RgbaImage::from_raw(width as u32, height as u32, pixels).unwrap();
    let blurred = imageproc::filter::gaussian_blur_f32(&img, sigma_str.parse().unwrap_or_default());
    blurred.into_raw()
}

/// Blurs the text-presence mask with the given radius; an empty radius
/// numeral means no blur at all and leaves the mask as it is.
pub fn blur_mask(mask: Canvas, sigma_str: &str) -> (r: Canvas)
    requires
        mask.wf(),
        sigma_str@.len() == 0 || is_fade_radius_str(sigma_str@),
    ensures
        r.wf(),
        r.width == mask.width,
        r.height == mask.height,
        r.pixels@ == (if sigma_str@.len() == 0 {
            mask.pixels@
        } else {
            blurred_mask(mask.pixels@, mask.width, mask.height, sigma_str@)
        }),
{
    if sigma_str.unicode_len() == 0 {
        mask
    } else {
        let width = mask.width;
        let height = mask.height;
        let blurred = gaussian_blur_raw(mask.pixels, width, height, sigma_str);
        Canvas { width, height, pixels: blurred }
    }
}

/// The numerator of the boosted caption visibility, out of 255: the alpha
/// tripled, saturated at full.
pub open spec fn boosted_num(alpha: u8) -> int {
    if 3 * alpha > 255 {
        255
    } else {
        3 * alpha
    }
}

/// The numerator of a pixel's visibility, out of 65025: the blurred mask
/// value weighted by the boosted alpha.
pub open spec fn visibility_num(m: u8, alpha: u8) -> int {
    m * boosted_num(alpha)
}

/// One color channel of the blended output: the original and text-composited
/// values interpolated by the visibility, rounded to the nearest integer.
pub open spec fn blend_channel(o: u8, t: u8, m: u8, alpha: u8) -> u8 {
    ((2 * (o * (65025 - visibility_num(m, alpha)) + t * visibility_num(m, alpha)) + 65025)
        / 130050) as u8
}

/// One channel of the blended raster: interpolated color, alpha forced to
/// fully opaque.
pub open spec fn blended_channel(
    orig: Seq<u8>,
    text: Seq<u8>,
    mask: Seq<u8>,
    w: int,
    x: int,
    y: int,
    ch: int,
    alpha: u8,
) -> u8 {
    if ch == 3 {
        255u8
    } else {
        blend_channel(
            px(orig, w, x, y, ch),
            px(text, w, x, y, ch),
            px(mask, w, x, y, 0),
            alpha,
        )
    }
}

/// Builds the binary text-presence mask: opaque white where the
/// text-composited raster differs from the original in any channel, opaque
/// black elsewhere.
pub fn build_mask(orig: &Canvas, text: &Canvas) -> (r: Canvas)
    requires
        orig.wf(),
        text.wf(),
        orig.width == text.width,
        orig.height == text.height,
    ensures
        r.wf(),
        r.width == orig.width,
        r.height == orig.height,
        forall|x: int, y: int, ch: int|
            0 <= x < orig.width && 0 <= y < orig.height && 0 <= ch < 4
                ==> #[trigger] px(r.pixels@, orig.width as int, x, y, ch)
                    == mask_channel(orig.pixels@, text.pixels@, orig.width as int, x, y, ch),
{
    let width = orig.width;
    let height = orig.height;
    let _buf_len: usize = orig.pixels.len();
    let mut mask = Canvas::new(width, height);
    proof {
        assert forall|x: int, y: int, ch: int|
            0 <= x < width && 0 <= y < height && 0 <= ch < 4
                implies #[trigger] px(mask.pixels@, width as int, x, y, ch) == 0u8 by {
            lemma_pixel_index_in_bounds(width as int, height as int, x, y);
        }
    }
    let mut y: u16 = 0;
    while y < height
        invariant
            y <= height,
            orig.wf(),
            text.wf(),
            orig.width == width,
            orig.height == height,
            text.width == width,
            text.height == height,
            mask.wf(),
            mask.width == width,
            mask.height == height,
            forall|x2: int, y2: int, ch2: int|
                0 <= x2 < width && 0 <= y2 < height && 0 <= ch2 < 4
                    ==> #[trigger] px(mask.pixels@, width as int, x2, y2, ch2) == (if frame_pos_done(
                        x2,
                        y2,
                        0,
                        y as int,
                    ) {
                        mask_channel(orig.pixels@, text.pixels@, width as int, x2, y2, ch2)
                    } else {
                        0u8
                    }),
        decreases height - y,
    {
        let mut x: u16 = 0;
        while x < width
            invariant
                x <= width,
                y < height,
                orig.wf(),
                text.wf(),
                orig.width == width,
                orig.height == height,
                text.width == width,
                text.height == height,
                mask.wf(),
                mask.width == width,
                mask.height == height,
                forall|x2: int, y2: int, ch2: int|
                    0 <= x2 < width && 0 <= y2 < height && 0 <= ch2 < 4
                        ==> #[trigger] px(mask.pixels@, width as int, x2, y2, ch2) == (
                        if frame_pos_done(x2, y2, x as int, y as int) {
                            mask_channel(orig.pixels@, text.pixels@, width as int, x2, y2, ch2)
                        } else {
                            0u8
                        }),
            decreases width - x,
        {
            let ghost prev = mask.pixels@;
            let op = orig.get_pixel(x, y);
            let tp = text.get_pixel(x, y);
            let differs: bool = op.0 != tp.0 || op.1 != tp.1 || op.2 != tp.2 || op.3 != tp.3;
            let c: u8 = if differs {
                255
            } else {
                0
            };
            mask.set_pixel(x, y, c, c, c, 255);
            proof {
                lemma_set_pixel_px(
                    prev,
                    mask.pixels@,
                    width as int,
                    height as int,
                    x as int,
                    y as int,
                    c,
                    c,
                    c,
                    255,
                );
                assert(differs == pixels_differ(
                    orig.pixels@,
                    text.pixels@,
                    width as int,
                    x as int,
                    y as int,
                ));
                assert forall|x2: int, y2: int, ch2: int|
                    0 <= x2 < width && 0 <= y2 < height && 0 <= ch2 < 4
                        implies #[trigger] px(mask.pixels@, width as int, x2, y2, ch2) == (
                        if frame_pos_done(x2, y2, x as int + 1, y as int) {
                            mask_channel(orig.pixels@, text.pixels@, width as int, x2, y2, ch2)
                        } else {
                            0u8
                        }) by {
                    if !(x2 == x && y2 == y) {
                        assert(px(mask.pixels@, width as int, x2, y2, ch2) == px(
                            prev,
                            width as int,
                            x2,
                            y2,
                            ch2,
                        ));
                    }
                }
            }
            x = x + 1;
        }
        y = y + 1;
    }
    mask
}

/// Blends the original and text-composited rasters through the blurred
/// text-presence mask at the given caption alpha: color channels are
/// interpolated by the per-pixel visibility, the output alpha is forced to
/// fully opaque.
pub fn blend_canvases(orig: &Canvas, text: &Canvas, mask: &Canvas, alpha: u8) -> (r: Canvas)
    requires
        orig.wf(),
        text.wf(),
        mask.wf(),
        orig.width == text.width && orig.width == mask.width,
        orig.height == text.height && orig.height == mask.height,
    ensures
        r.wf(),
        r.width == orig.width,
        r.height == orig.height,
        forall|x: int, y: int, ch: int|
            0 <= x < orig.width && 0 <= y < orig.height && 0 <= ch < 4
                ==> #[trigger] px(r.pixels@, orig.width as int, x, y, ch)
                    == blended_channel(
                    orig.pixels@,
                    text.pixels@,
                    mask.pixels@,
                    orig.width as int,
                    x,
                    y,
                    ch,
                    alpha,
                ),
{
    let width = orig.width;
    let height = orig.height;
    let _buf_len: usize = orig.pixels.len();
    let mut blended = Canvas::new(width, height);
    let mut y: u16 = 0;
    while y < height
        invariant
            y <= height,
            orig.wf(),
            text.wf(),
            mask.wf(),
            orig.width == width && text.width == width && mask.width == width,
            orig.height == height && text.height == height && mask.height == height,
            blended.wf(),
            blended.width == width,
            blended.height == height,
            forall|x2: int, y2: int, ch2: int|
                0 <= x2 < width && 0 <= y2 < height && 0 <= ch2 < 4 && frame_pos_done(
                    x2,
                    y2,
                    0,
                    y as int,
                ) ==> #[trigger] px(blended.pixels@, width as int, x2, y2, ch2)
                    == blended_channel(
                    orig.pixels@,
                    text.pixels@,
                    mask.pixels@,
                    width as int,
                    x2,
                    y2,
                    ch2,
                    alpha,
                ),
        decreases height - y,
    {
        let mut x: u16 = 0;
        while x < width
            invariant
                x <= width,
                y < height,
                orig.wf(),
                text.wf(),
                mask.wf(),
                orig.width == width && text.width == width && mask.width == width,
                orig.height == height && text.height == height && mask.height == height,
                blended.wf(),
                blended.width == width,
                blended.height == height,
                forall|x2: int, y2: int, ch2: int|
                    0 <= x2 < width && 0 <= y2 < height && 0 <= ch2 < 4 && frame_pos_done(
                        x2,
                        y2,
                        x as int,
                        y as int,
                    ) ==> #[trigger] px(blended.pixels@, width as int, x2, y2, ch2)
                        == blended_channel(
                        orig.pixels@,
                        text.pixels@,
                        mask.pixels@,
                        width as int,
                        x2,
                        y2,
                        ch2,
                        alpha,
                    ),
            decreases width - x,
        {
            let ghost prev = blended.pixels@;
            let op = orig.get_pixel(x, y);
            let tp = text.get_pixel(x, y);
            let mp = mask.get_pixel(x, y);
            let rr = blend_one(op.0, tp.0, mp.0, alpha);
            let gg = blend_one(op.1, tp.1, mp.0, alpha);
            let bb = blend_one(op.2, tp.2, mp.0, alpha);
            blended.set_pixel(x, y, rr, gg, bb, 255);
            proof {
                lemma_set_pixel_px(
                    prev,
                    blended.pixels@,
                    width as int,
                    height as int,
                    x as int,
                    y as int,
                    rr,
                    gg,
                    bb,
                    255,
                );
                assert forall|x2: int, y2: int, ch2: int|
                    0 <= x2 < width && 0 <= y2 < height && 0 <= ch2 < 4 && frame_pos_done(
                        x2,
                        y2,
                        x as int + 1,
                        y as int,
                    ) implies #[trigger] px(blended.pixels@, width as int, x2, y2, ch2)
                        == blended_channel(
                        orig.pixels@,
                        text.pixels@,
                        mask.pixels@,
                        width as int,
                        x2,
                        y2,
                        ch2,
                        alpha,
                    ) by {
                    if !(x2 == x && y2 == y) {
                        assert(px(blended.pixels@, width as int, x2, y2, ch2) == px(
                            prev,
                            width as int,
                            x2,
                            y2,
                            ch2,
                        ));
                    }
                }
            }
            x = x + 1;
        }
        y = y + 1;
    }
    blended
}

/// Interpolates one color channel between the original and the
/// text-composited value, by the mask value weighted with the boosted alpha,
/// rounding to the nearest integer.
fn blend_one(o: u8, t: u8, m: u8, alpha: u8) -> (r: u8)
    ensures
        r == blend_channel(o, t, m, alpha),
{
    let t3: u32 = 3 * (alpha as u32);
    let boosted: u32 = if t3 > 255 {
        255
    } else {
        t3
    };
    proof {
        assert((m as int) * (boosted as int) <= 65025) by (nonlinear_arith)
            requires
                0 <= m <= 255,
                0 <= boosted <= 255,
        ;
    }
    let v: u32 = (m as u32) * boosted;
    proof {
        assert((o as int) * (65025 - v as int) <= 255 * (65025 - v as int)) by (nonlinear_arith)
            requires
                0 <= o <= 255,
                v <= 65025,
        ;
        assert((t as int) * (v as int) <= 255 * (v as int)) by (nonlinear_arith)
            requires
                0 <= t <= 255,
                0 <= v,
        ;
    }
    let num: u32 = (o as u32) * (65025 - v) + (t as u32) * v;
    let out: u32 = (2 * num + 65025) / 130050;
    proof {
        assert(v as int == visibility_num(m, alpha));
        assert(out <= 255);
    }
    out as u8
}

} // verus!
