use vstd::prelude::*;
use crate::canvas::Canvas;

verus! {

/// Whether the given bytes parse as a font usable for layout: they parse,
/// every glyph of the font reports a horizontal advance, and every
/// character the font's Unicode character maps cover resolves to a glyph
/// the font has.
pub uninterp spec fn font_parses(font: Seq<u8>) -> bool;

/// Relies on ttf_parser::Face::from_slice, Face::glyph_hor_advance and the
/// cmap subtables' codepoints and glyph_index (the same parser, in the same
/// version, that rusttype::Font::try_from_vec runs): all three checks are
/// functions of the bytes alone. Both extra checks matter for layout:
/// rusttype unwraps each glyph's advance, so a font that parses without
/// usable metrics would abort there, and it asserts that every character
/// map lookup stays below the glyph count, so a character map pointing past
/// it would abort there.
#[verifier::external_body]
pub fn font_ok(font_data: &[u8]) -> (r: bool)
    ensures
        r == font_parses(font_data@),
{
    let face = match ttf_parser::Face::from_slice(font_data, 0) { Ok(f) => f, Err(_) => return false };
    let n = face.number_of_glyphs();
    let mut ok = true;
    for g in 0..n {
        if face.glyph_hor_advance(ttf_parser::GlyphId(g)).is_none() { ok = false; }
    }
    if let Some(cmap) = face.tables().cmap {
        for sub in cmap.subtables {
            if sub.is_unicode() {
                sub.codepoints(|cp| if sub.glyph_index(cp).map_or(false, |id| id.0 >= n) { ok = false });
            }
        }
    }
    ok
}

/// The raster that drawing the given text once onto the given raster
/// produces: glyphs laid out at the given anchor (centered horizontally,
/// top-anchored vertically, no wrapping), at the point size named by the
/// decimal numeral, in the given RGBA color.
pub uninterp spec fn drawn_text(
    pixels: Seq<u8>,
    width: u16,
    height: u16,
    font: Seq<u8>,
    text: Seq<char>,
    x: int,
    y: int,
    scale: Seq<char>,
    color: (u8, u8, u8, u8),
) -> Seq<u8>;

/// Relies on rusttype::Font::try_from_vec and text_on_image's text_on_image:
/// glyph rasterization is a function of the font bytes, text, scale,
/// position and color alone, and keeps the raster's dimensions. The scale
/// numeral must be the fixed point size, which parses as a positive number,
/// the font must be usable for layout (every glyph reports an advance), and
/// the anchor must stay well inside the 32-bit range, clear of the glyph
/// placement arithmetic.
#[verifier::external_body]
fn draw_text_raw(
    pixels: Vec<u8>,
    width: u16,
    height: u16,
    font_data: &[u8],
    text: &str,
    x: i32,
    y: i32,
    scale_str: &str,
    color: (u8, u8, u8, u8),
) -> (r: Vec<u8>)
    requires
        font_parses(font_data@),
        pixels@.len() == 4 * (width as int) * (height as int),
        scale_str@ == "30"@,
        -1000000 <= x <= 1000000,
        -1000000 <= y <= 1000000,
    ensures
        r@ == drawn_text(pixels@, width, height, font_data@, text@, x as int, y as int, scale_str@, color),
        r@.len() == pixels@.len(),
{
    let font = rusttype::Font::try_from_vec(font_data.to_vec()).unwrap();
    let img = image::RgbaImage::from_raw(width as u32, height as u32, pixels).unwrap();
    let mut dyn_img = image::DynamicImage::ImageRgba8(img);
    let scale = scale_str.parse().unwrap_or_default();
    let bundle = text_on_image::FontBundle::new(&font, rusttype::Scale { x: scale, y: scale },
        image::Rgba([color.0, color.1, color.2, color.3]));
    text_on_image::text_on_image(&mut dyn_img, text, &bundle, x, y,
        text_on_image::TextJustify::Center, text_on_image::VerticalAnchor::Top,
        text_on_image::WrapBehavior::NoWrap);
    dyn_img.into_rgba8().into_raw()
}

/// The black color of the caption outline.
pub open spec fn outline_color() -> (u8, u8, u8, u8) {
    (0u8, 0u8, 0u8, 255u8)
}

/// The white color of the caption fill.
pub open spec fn fill_color() -> (u8, u8, u8, u8) {
    (255u8, 255u8, 255u8, 255u8)
}

/// The 24 offsets of the two-pixel outline ring around the anchor: every
/// combination of dx and dy in [-2, 2] except the center itself.
pub open spec fn outline_offsets() -> Seq<(i32, i32)> {
    seq![
        (-2i32, -2i32), (-1i32, -2i32), (0i32, -2i32), (1i32, -2i32), (2i32, -2i32),
        (-2i32, -1i32), (-1i32, -1i32), (0i32, -1i32), (1i32, -1i32), (2i32, -1i32),
        (-2i32, 0i32), (-1i32, 0i32), (1i32, 0i32), (2i32, 0i32),
        (-2i32, 1i32), (-1i32, 1i32), (0i32, 1i32), (1i32, 1i32), (2i32, 1i32),
        (-2i32, 2i32), (-1i32, 2i32), (0i32, 2i32), (1i32, 2i32), (2i32, 2i32),
    ]
}

/// The raster after the first `k` outline draws: the text drawn in black at
/// each of the first `k` ring offsets, in order.
pub open spec fn outline_pass(
    pixels: Seq<u8>,
    width: u16,
    height: u16,
    font: Seq<u8>,
    text: Seq<char>,
    cx: int,
    cy: int,
    k: int,
) -> Seq<u8>
    decreases k,
{
    if k <= 0 {
        pixels
    } else {
        drawn_text(
            outline_pass(pixels, width, height, font, text, cx, cy, k - 1),
            width,
            height,
            font,
            text,
            cx + outline_offsets()[k - 1].0,
            cy + outline_offsets()[k - 1].1,
            "30"@,
            outline_color(),
        )
    }
}

/// The fully composited caption: the black outline drawn at all 24 ring
/// offsets, then the white fill drawn once at the anchor.
pub open spec fn caption_composited(
    pixels: Seq<u8>,
    width: u16,
    height: u16,
    font: Seq<u8>,
    text: Seq<char>,
    cx: int,
    cy: int,
) -> Seq<u8> {
    drawn_text(
        outline_pass(pixels, width, height, font, text, cx, cy, 24),
        width,
        height,
        font,
        text,
        cx,
        cy,
        "30"@,
        fill_color(),
    )
}

/// The outline ring offsets as a vector, each component within two pixels.
fn outline_offset_vec() -> (r: Vec<(i32, i32)>)
    ensures
        r@ == outline_offsets(),
        forall|j: int|
            0 <= j < r@.len() ==> -2 <= (#[trigger] r@[j]).0 <= 2 && -2 <= r@[j].1 <= 2,
{
    let mut v: Vec<(i32, i32)> = Vec::new();
    v.push((-2, -2)); v.push((-1, -2)); v.push((0, -2)); v.push((1, -2)); v.push((2, -2));
    v.push((-2, -1)); v.push((-1, -1)); v.push((0, -1)); v.push((1, -1)); v.push((2, -1));
    v.push((-2, 0)); v.push((-1, 0)); v.push((1, 0)); v.push((2, 0));
    v.push((-2, 1)); v.push((-1, 1)); v.push((0, 1)); v.push((1, 1)); v.push((2, 1));
    v.push((-2, 2)); v.push((-1, 2)); v.push((0, 2)); v.push((1, 2)); v.push((2, 2));
    proof {
        assert(v@ =~= outline_offsets());
    }
    v
}

/// Renders the caption onto the canvas: the text drawn in solid black at
/// the 24 ring offsets around the anchor, then once in white at the anchor
/// itself, on top.
pub fn draw_caption(canvas: Canvas, font_data: &[u8], text: &str, cx: i32, cy: i32) -> (r: Canvas)
    requires
        canvas.wf(),
        font_parses(font_data@),
        -999998 <= cx <= 999998,
        -999998 <= cy <= 999998,
    ensures
        r.wf(),
        r.width == canvas.width,
        r.height == canvas.height,
        r.pixels@ == caption_composited(
            canvas.pixels@,
            canvas.width,
            canvas.height,
            font_data@,
            text@,
            cx as int,
            cy as int,
        ),
{
    let width = canvas.width;
    let height = canvas.height;
    let ghost orig = canvas.pixels@;
    let offs = outline_offset_vec();
    let mut pixels = canvas.pixels;
    let n: usize = offs.len();
    let mut k: usize = 0;
    while k < n
        invariant
            k <= n,
            n == 24,
            offs@ == outline_offsets(),
            forall|j: int|
                0 <= j < offs@.len() ==> -2 <= (#[trigger] offs@[j]).0 <= 2 && -2 <= offs@[j].1
                    <= 2,
            font_parses(font_data@),
            -999998 <= cx <= 999998,
            -999998 <= cy <= 999998,
            orig.len() == 4 * (width as int) * (height as int),
            pixels@ == outline_pass(
                orig,
                width,
                height,
                font_data@,
                text@,
                cx as int,
                cy as int,
                k as int,
            ),
            pixels@.len() == orig.len(),
        decreases n - k,
    {
        let off = offs[k];
        pixels = draw_text_raw(
            pixels,
            width,
            height,
            font_data,
            text,
            cx + off.0,
            cy + off.1,
            "30",
            (0, 0, 0, 255),
        );
        k = k + 1;
    }
    let final_pixels = draw_text_raw(
        pixels,
        width,
        height,
        font_data,
        text,
        cx,
        cy,
        "30",
        (255, 255, 255, 255),
    );
    Canvas { width, height, pixels: final_pixels }
}

} // verus!
