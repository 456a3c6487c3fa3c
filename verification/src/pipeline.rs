use vstd::prelude::*;
use vstd::arithmetic::div_mod::{
    lemma_fundamental_div_mod, lemma_fundamental_div_mod_converse, lemma_div_pos_is_pos,
    lemma_mod_division_less_than_divisor,
};
use crate::blend::{
    blend_canvases, blended_channel, blur_mask, build_mask, blurred_mask, mask_channel,
};
use crate::canvas::{px, Canvas};
use crate::codec::{
    decoder_global_palette, decoder_height, decoder_meta, decoder_pending, decoder_width,
    encoder_frames, encoder_meta, finish_encoder, gif_encoding, gif_pending_frames,
    decoder_healthy, gif_decodes, gif_stream_meta, open_decoder, open_encoder, read_next_frame,
    write_frame, EncoderMeta, FrameView, GifFrame,
};
use crate::decode::{decode_bad_index, decoded_channel, frame_to_rgba};
use crate::emoji::{replace_emojis_with_text, replaced_text};
use crate::error::PipelineError;
use crate::fade::{fade_alpha_spec, fade_blur_str_spec, fade_params, lemma_fade_blur_str_valid};
use crate::quantize::{ipx, palette_color_count, quant_pixel, rgba_to_indexed};
use crate::text::{caption_composited, draw_caption, font_ok, font_parses};

verus! {

/// The palette a frame resolves through: its own when it carries one, else
/// the stream's global palette, else nothing.
pub open spec fn effective_palette(f: FrameView, gp: Option<Seq<u8>>) -> Seq<u8> {
    match f.palette {
        Some(p) => p,
        None => match gp {
            Some(g) => g,
            None => Seq::empty(),
        },
    }
}

/// Whether a frame has any palette to resolve through.
pub open spec fn has_effective_palette(f: FrameView, gp: Option<Seq<u8>>) -> bool {
    f.palette is Some || gp is Some
}

/// The full-canvas RGBA raster a decoded frame produces, as a flat buffer.
pub open spec fn decoded_pixels(f: FrameView, pal: Seq<u8>, w: u16, h: u16) -> Seq<u8> {
    Seq::new(
        (4 * (w as int) * (h as int)) as nat,
        |i: int| decoded_channel(f, pal, (i / 4) % (w as int), (i / 4) / (w as int), i % 4),
    )
}

/// The binary text-presence mask of two rasters, as a flat buffer.
pub open spec fn mask_pixels(orig: Seq<u8>, text: Seq<u8>, w: u16, h: u16) -> Seq<u8> {
    Seq::new(
        (4 * (w as int) * (h as int)) as nat,
        |i: int| mask_channel(orig, text, w as int, (i / 4) % (w as int), (i / 4) / (w as int), i % 4),
    )
}

/// The blend of two rasters through a mask raster, as a flat buffer.
pub open spec fn blended_pixels(
    orig: Seq<u8>,
    text: Seq<u8>,
    mask: Seq<u8>,
    w: u16,
    h: u16,
    alpha: u8,
) -> Seq<u8> {
    Seq::new(
        (4 * (w as int) * (h as int)) as nat,
        |i: int| blended_channel(
            orig,
            text,
            mask,
            w as int,
            (i / 4) % (w as int),
            (i / 4) / (w as int),
            i % 4,
            alpha,
        ),
    )
}

/// The index buffer a raster quantizes to against a palette.
pub open spec fn quantized_indices(pixels: Seq<u8>, w: u16, h: u16, pal: Seq<u8>) -> Seq<u8> {
    Seq::new(
        ((w as int) * (h as int)) as nat,
        |i: int| quant_pixel(
            pal,
            px(pixels, w as int, i % (w as int), i / (w as int), 0),
            px(pixels, w as int, i % (w as int), i / (w as int), 1),
            px(pixels, w as int, i % (w as int), i / (w as int), 2),
            px(pixels, w as int, i % (w as int), i / (w as int), 3),
        ) as u8,
    )
}

/// The raster of frame `i` after decoding, captioning and fading: the plain
/// decoded raster while the caption is invisible, the captioned raster once
/// it is fully visible, and in between the blend of the two through the
/// blurred text-presence mask.
pub open spec fn final_raster(
    i: int,
    f: FrameView,
    w: u16,
    h: u16,
    pal: Seq<u8>,
    font: Seq<u8>,
    caption: Seq<char>,
) -> Seq<u8> {
    let decoded = decoded_pixels(f, pal, w, h);
    let alpha = fade_alpha_spec(i);
    if alpha == 0 {
        decoded
    } else {
        let drawn = caption_composited(
            decoded,
            w,
            h,
            font,
            replaced_text(caption),
            w as int / 2,
            22,
        );
        if alpha < 255 {
            let mask = mask_pixels(decoded, drawn, w, h);
            let blurred = if fade_blur_str_spec(i).len() == 0 {
                mask
            } else {
                blurred_mask(mask, w, h, fade_blur_str_spec(i))
            };
            blended_pixels(decoded, drawn, blurred, w, h, alpha)
        } else {
            drawn
        }
    }
}

/// The output frame that source frame `i` becomes: its raster re-quantized
/// against its effective palette, bound to that palette, emitted full-size
/// at the origin and non-interlaced, with delay, dispose, transparency and
/// user-input metadata copied through.
pub open spec fn process_frame_spec(
    i: int,
    f: FrameView,
    w: u16,
    h: u16,
    gp: Option<Seq<u8>>,
    font: Seq<u8>,
    caption: Seq<char>,
) -> FrameView {
    let pal = effective_palette(f, gp);
    FrameView {
        buffer: quantized_indices(final_raster(i, f, w, h, pal, font, caption), w, h, pal),
        palette: Some(pal),
        left: 0,
        top: 0,
        width: w,
        height: h,
        delay: f.delay,
        dispose: f.dispose,
        transparent: f.transparent,
        needs_user_input: f.needs_user_input,
        interlaced: false,
    }
}

/// The inputs on which the transcode owes success: the stream decodes
/// fully, the font is usable, the canvas fits in memory, and every frame
/// resolves to a palette that has at least one complete entry and that none
/// of its indices reads past.
pub open spec fn transcode_succeeds_on(data: Seq<u8>, font: Seq<u8>) -> bool {
    &&& gif_decodes(data)
    &&& font_parses(font)
    &&& 4 * (gif_stream_meta(data).width as int) * (gif_stream_meta(data).height as int)
        <= usize::MAX
    &&& forall|i: int|
        0 <= i < gif_pending_frames(data).len() ==> has_effective_palette(
            #[trigger] gif_pending_frames(data)[i],
            gif_stream_meta(data).global_palette,
        ) && palette_color_count(
            effective_palette(gif_pending_frames(data)[i], gif_stream_meta(data).global_palette),
        ) >= 1 && !decode_bad_index(
            gif_pending_frames(data)[i],
            effective_palette(gif_pending_frames(data)[i], gif_stream_meta(data).global_palette),
        )
}

/// Every source frame of a stream, processed in order.
pub open spec fn processed_frames(
    frames: Seq<FrameView>,
    w: u16,
    h: u16,
    gp: Option<Seq<u8>>,
    font: Seq<u8>,
    caption: Seq<char>,
) -> Seq<FrameView> {
    Seq::new(frames.len(), |i: int| process_frame_spec(i, frames[i], w, h, gp, font, caption))
}

/// A flat byte index of an RGBA raster splits into a pixel position and a
/// channel.
proof fn lemma_flat4(w: int, h: int, i: int)
    requires
        1 <= w,
        0 <= i < 4 * w * h,
    ensures
        0 <= i % 4 < 4,
        0 <= (i / 4) % w < w,
        0 <= (i / 4) / w < h,
        4 * (((i / 4) / w) * w + ((i / 4) % w)) + (i % 4) == i,
{
    lemma_fundamental_div_mod(i, 4);
    lemma_mod_division_less_than_divisor(i, 4);
    lemma_div_pos_is_pos(i, 4);
    let q: int = i / 4;
    lemma_fundamental_div_mod(q, w);
    lemma_mod_division_less_than_divisor(q, w);
    lemma_div_pos_is_pos(q, w);
    assert(q < w * h) by (nonlinear_arith)
        requires
            i == 4 * q + (i % 4),
            0 <= i % 4 < 4,
            i < 4 * w * h,
    ;
    assert((q / w) < h) by (nonlinear_arith)
        requires
            q == w * (q / w) + (q % w),
            0 <= q % w < w,
            0 <= q < w * h,
            0 <= q / w,
            1 <= w,
    ;
}

/// A raster whose channels all agree with a channel function is exactly the
/// flat buffer that function describes.
proof fn lemma_channels_to_flat(s: Seq<u8>, w: int, h: int, f: spec_fn(int, int, int) -> u8)
    requires
        0 <= w,
        0 <= h,
        s.len() == 4 * w * h,
        forall|x: int, y: int, ch: int|
            0 <= x < w && 0 <= y < h && 0 <= ch < 4 ==> #[trigger] px(s, w, x, y, ch) == f(x, y, ch),
    ensures
        s =~= Seq::new((4 * w * h) as nat, |i: int| f((i / 4) % w, (i / 4) / w, i % 4)),
{
    assert forall|i: int| 0 <= i < s.len() implies s[i] == f((i / 4) % w, (i / 4) / w, i % 4) by {
        assert(1 <= w && 1 <= h) by (nonlinear_arith)
            requires
                0 <= w,
                0 <= h,
                0 <= i < 4 * w * h,
        ;
        lemma_flat4(w, h, i);
        let x: int = (i / 4) % w;
        let y: int = (i / 4) / w;
        let ch: int = i % 4;
        assert(px(s, w, x, y, ch) == f(x, y, ch));
        assert(px(s, w, x, y, ch) == s[4 * (y * w + x) + ch]);
    }
}

/// An index buffer whose entries all agree with a pixel function is exactly
/// the flat buffer that function describes.
proof fn lemma_indices_to_flat(s: Seq<u8>, w: int, h: int, f: spec_fn(int, int) -> u8)
    requires
        0 <= w,
        0 <= h,
        s.len() == w * h,
        forall|x: int, y: int|
            0 <= x < w && 0 <= y < h ==> #[trigger] ipx(s, w, x, y) == f(x, y),
    ensures
        s =~= Seq::new((w * h) as nat, |i: int| f(i % w, i / w)),
{
    assert forall|i: int| 0 <= i < s.len() implies s[i] == f(i % w, i / w) by {
        assert(1 <= w && 1 <= h) by (nonlinear_arith)
            requires
                0 <= w,
                0 <= h,
                0 <= i < w * h,
        ;
        lemma_fundamental_div_mod(i, w);
        lemma_mod_division_less_than_divisor(i, w);
        lemma_div_pos_is_pos(i, w);
        let x: int = i % w;
        let y: int = i / w;
        assert(y < h) by (nonlinear_arith)
            requires
                i == w * y + x,
                0 <= x < w,
                0 <= i < w * h,
                0 <= y,
                1 <= w,
        ;
        assert(w * y == y * w) by (nonlinear_arith);
        assert(0 <= y * w + x < s.len());
        assert(ipx(s, w, x, y) == f(x, y));
        assert(ipx(s, w, x, y) == s[y * w + x]);
    }
}

/// The flat byte index of a raster position recovers that position under
/// the division and remainder the flat buffers are built with.
proof fn lemma_flat_of_pos(w: int, h: int, x: int, y: int, ch: int)
    requires
        0 <= x < w,
        0 <= y < h,
        0 <= ch < 4,
    ensures
        0 <= 4 * (y * w + x) + ch < 4 * w * h,
        (4 * (y * w + x) + ch) / 4 == y * w + x,
        (4 * (y * w + x) + ch) % 4 == ch,
        (y * w + x) % w == x,
        (y * w + x) / w == y,
{
    crate::canvas::lemma_pixel_index_in_bounds(w, h, x, y);
    let q: int = y * w + x;
    let i: int = 4 * q + ch;
    assert(i == q * 4 + ch) by (nonlinear_arith)
        requires
            i == 4 * q + ch,
    ;
    lemma_fundamental_div_mod_converse(i, 4, q, ch);
    assert(q == y * w + x);
    lemma_fundamental_div_mod_converse(q, w, y, x);
}

/// Decoding one fully opaque, origin-anchored, full-size indexed frame and
/// re-quantizing the raster against its own palette reproduces the original
/// index buffer exactly, provided the palette's entries are pairwise
/// distinct and every index points at a complete entry.
pub proof fn lemma_decode_requantize_roundtrip(f: FrameView, pal: Seq<u8>, w: u16, h: u16)
    requires
        f.left == 0,
        f.top == 0,
        f.width == w,
        f.height == h,
        f.transparent is None,
        f.buffer.len() == (w as int) * (h as int),
        forall|i: int|
            0 <= i < f.buffer.len() ==> (#[trigger] f.buffer[i] as int) < palette_color_count(
                pal,
            ),
        forall|i: int, j: int|
            0 <= i < j < palette_color_count(pal) ==> !(#[trigger] crate::quantize::same_triplet(
                pal,
                i,
                j,
            )),
    ensures
        quantized_indices(decoded_pixels(f, pal, w, h), w, h, pal) == f.buffer,
{
    let count: int = palette_color_count(pal);
    let decoded = decoded_pixels(f, pal, w, h);
    let out = quantized_indices(decoded, w, h, pal);
    let wi: int = w as int;
    let hi: int = h as int;
    assert(3 * count <= pal.len());
    assert forall|i: int| 0 <= i < out.len() implies out[i] == f.buffer[i] by {
        assert(1 <= wi && 1 <= hi) by (nonlinear_arith)
            requires
                0 <= wi,
                0 <= hi,
                0 <= i < wi * hi,
        ;
        lemma_fundamental_div_mod(i, wi);
        lemma_mod_division_less_than_divisor(i, wi);
        lemma_div_pos_is_pos(i, wi);
        let x: int = i % wi;
        let y: int = i / wi;
        assert(y < hi) by (nonlinear_arith)
            requires
                i == wi * y + x,
                0 <= x < wi,
                0 <= i < wi * hi,
                0 <= y,
                1 <= wi,
        ;
        assert(y * wi + x == i) by (nonlinear_arith)
            requires
                i == wi * y + x,
        ;
        lemma_flat_of_pos(wi, hi, x, y, 0);
        lemma_flat_of_pos(wi, hi, x, y, 1);
        lemma_flat_of_pos(wi, hi, x, y, 2);
        lemma_flat_of_pos(wi, hi, x, y, 3);
        let ci: int = f.buffer[i] as int;
        assert(ci < count);
        assert(3 * ci + 2 < pal.len());
        assert(px(decoded, wi, x, y, 0) == decoded_channel(f, pal, x, y, 0));
        assert(px(decoded, wi, x, y, 1) == decoded_channel(f, pal, x, y, 1));
        assert(px(decoded, wi, x, y, 2) == decoded_channel(f, pal, x, y, 2));
        assert(px(decoded, wi, x, y, 3) == decoded_channel(f, pal, x, y, 3));
        assert(decoded_channel(f, pal, x, y, 3) == 255u8);
        let tr = pal[3 * ci];
        let tg = pal[3 * ci + 1];
        let tb = pal[3 * ci + 2];
        assert(decoded_channel(f, pal, x, y, 0) == tr);
        assert(decoded_channel(f, pal, x, y, 1) == tg);
        assert(decoded_channel(f, pal, x, y, 2) == tb);
        assert(crate::quantize::exact_match_at(pal, ci, tr, tg, tb));
        assert forall|j: int| 0 <= j < ci implies !crate::quantize::exact_match_at(
            pal,
            j,
            tr,
            tg,
            tb,
        ) by {
            assert(!crate::quantize::same_triplet(pal, j, ci));
        }
        crate::quantize::lemma_first_exact_of_match(pal, count, 0, ci, tr, tg, tb);
        assert(quant_pixel(pal, tr, tg, tb, 255u8) == ci);
    }
    assert(out =~= f.buffer);
}

/// Processing never touches a frame's timing, disposal, transparency or
/// user-input metadata, and always emits a full-size, origin-anchored,
/// non-interlaced frame bound to its effective palette.
pub proof fn lemma_frame_metadata_preserved(
    i: int,
    f: FrameView,
    w: u16,
    h: u16,
    gp: Option<Seq<u8>>,
    font: Seq<u8>,
    caption: Seq<char>,
)
    ensures
        process_frame_spec(i, f, w, h, gp, font, caption).delay == f.delay,
        process_frame_spec(i, f, w, h, gp, font, caption).dispose == f.dispose,
        process_frame_spec(i, f, w, h, gp, font, caption).transparent == f.transparent,
        process_frame_spec(i, f, w, h, gp, font, caption).needs_user_input == f.needs_user_input,
        process_frame_spec(i, f, w, h, gp, font, caption).left == 0,
        process_frame_spec(i, f, w, h, gp, font, caption).top == 0,
        process_frame_spec(i, f, w, h, gp, font, caption).width == w,
        process_frame_spec(i, f, w, h, gp, font, caption).height == h,
        !process_frame_spec(i, f, w, h, gp, font, caption).interlaced,
        process_frame_spec(i, f, w, h, gp, font, caption).palette == Some(
            effective_palette(f, gp),
        ),
{
}

/// Processing a stream yields exactly one output frame per source frame; in
/// particular an empty stream yields an empty output.
pub proof fn lemma_processed_count(
    frames: Seq<FrameView>,
    w: u16,
    h: u16,
    gp: Option<Seq<u8>>,
    font: Seq<u8>,
    caption: Seq<char>,
)
    ensures
        processed_frames(frames, w, h, gp, font, caption).len() == frames.len(),
        frames.len() == 0 ==> processed_frames(frames, w, h, gp, font, caption)
            == Seq::<FrameView>::empty(),
{
    if frames.len() == 0 {
        assert(processed_frames(frames, w, h, gp, font, caption) =~= Seq::<FrameView>::empty());
    }
}

/// While the caption is still invisible, a fully opaque, origin-anchored,
/// full-size frame with a duplicate-free palette passes through processing
/// with its index buffer intact.
pub proof fn lemma_first_frame_buffer_identity(
    i: int,
    f: FrameView,
    w: u16,
    h: u16,
    gp: Option<Seq<u8>>,
    font: Seq<u8>,
    caption: Seq<char>,
)
    requires
        i <= 8,
        f.left == 0,
        f.top == 0,
        f.width == w,
        f.height == h,
        f.transparent is None,
        f.buffer.len() == (w as int) * (h as int),
        forall|j: int|
            0 <= j < f.buffer.len() ==> (#[trigger] f.buffer[j] as int) < palette_color_count(
                effective_palette(f, gp),
            ),
        forall|j: int, l: int|
            0 <= j < l < palette_color_count(effective_palette(f, gp))
                ==> !(#[trigger] crate::quantize::same_triplet(effective_palette(f, gp), j, l)),
    ensures
        process_frame_spec(i, f, w, h, gp, font, caption).buffer == f.buffer,
{
    let pal = effective_palette(f, gp);
    assert(fade_alpha_spec(i) == 0);
    assert(final_raster(i, f, w, h, pal, font, caption) == decoded_pixels(f, pal, w, h));
    lemma_decode_requantize_roundtrip(f, pal, w, h);
}

/// A fresh canvas holding the same raster.
fn copy_canvas(c: &Canvas) -> (r: Canvas)
    requires
        c.wf(),
    ensures
        r.wf(),
        r.width == c.width,
        r.height == c.height,
        r.pixels@ == c.pixels@,
{
    let n: usize = c.pixels.len();
    let mut pixels: Vec<u8> = Vec::new();
    let mut i: usize = 0;
    while i < n
        invariant
            i <= n,
            n == c.pixels@.len(),
            pixels@ == c.pixels@.take(i as int),
        decreases n - i,
    {
        pixels.push(c.pixels[i]);
        proof {
            assert(pixels@ =~= c.pixels@.take(i + 1));
        }
        i = i + 1;
    }
    proof {
        assert(pixels@ =~= c.pixels@);
    }
    Canvas { width: c.width, height: c.height, pixels }
}

/// Overlays fading caption text onto an animated GIF: decodes each indexed
/// frame against its palette, composites the normalized caption with an
/// outline and a time-varying blur and alpha, re-quantizes every frame back
/// to its original palette, and re-encodes the result as a looping GIF of
/// the same dimensions, frame metadata preserved. Any failure aborts the
/// whole operation with no partial output; success is owed whenever the
/// stream decodes fully, the font is usable, the canvas fits in memory and
/// every frame resolves cleanly through its palette.
pub fn add_text_to_gif(gif_data: &[u8], text: &str, font_data: &[u8]) -> (r: Result<
    Vec<u8>,
    PipelineError,
>)
    ensures
        transcode_succeeds_on(gif_data@, font_data@) ==> r is Ok,
        (exists|i: int|
            0 <= i < gif_pending_frames(gif_data@).len() && !has_effective_palette(
                #[trigger] gif_pending_frames(gif_data@)[i],
                gif_stream_meta(gif_data@).global_palette,
            )) ==> r is Err,
        r matches Ok(out) ==> font_parses(font_data@) && out@ == gif_encoding(
            EncoderMeta {
                width: gif_stream_meta(gif_data@).width,
                height: gif_stream_meta(gif_data@).height,
                repeat_infinite: true,
            },
            processed_frames(
                gif_pending_frames(gif_data@),
                gif_stream_meta(gif_data@).width,
                gif_stream_meta(gif_data@).height,
                gif_stream_meta(gif_data@).global_palette,
                font_data@,
                text@,
            ),
        ),
        r matches Err(e) && e == PipelineError::FontLoadError ==> !font_parses(font_data@),
        !font_parses(font_data@) ==> !(r matches Ok(_)),
        r matches Err(e) && e == PipelineError::NoPaletteError ==> exists|i: int|
            0 <= i < gif_pending_frames(gif_data@).len() && !has_effective_palette(
                #[trigger] gif_pending_frames(gif_data@)[i],
                gif_stream_meta(gif_data@).global_palette,
            ),
        r matches Err(e) && e == PipelineError::QuantizeError ==> exists|i: int|
            0 <= i < gif_pending_frames(gif_data@).len() && palette_color_count(
                effective_palette(
                    #[trigger] gif_pending_frames(gif_data@)[i],
                    gif_stream_meta(gif_data@).global_palette,
                ),
            ) == 0,
{
    let display_text: String = replace_emojis_with_text(text);
    let mut decoder = match open_decoder(gif_data) {
        Ok(d) => d,
        Err(_) => {
            return Err(PipelineError::DecodeError);
        },
    };
    let ghost all = gif_pending_frames(gif_data@);
    let ghost meta = gif_stream_meta(gif_data@);
    let global_palette: Option<Vec<u8>> = decoder_global_palette(&decoder);
    let width: u16 = decoder_width(&decoder);
    let height: u16 = decoder_height(&decoder);
    proof {
        assert(4 * (width as int) * (height as int) <= 0x400000000) by (nonlinear_arith)
            requires
                width <= 0xFFFF,
                height <= 0xFFFF,
        ;
    }
    if !(4u64 * (width as u64) * (height as u64) <= usize::MAX as u64) {
        return Err(PipelineError::DecodeError);
    }
    let mut encoder = match open_encoder(width, height) {
        Ok(e) => e,
        Err(_) => {
            return Err(PipelineError::EncodeError);
        },
    };
    if !font_ok(font_data) {
        return Err(PipelineError::FontLoadError);
    }
    let text_x: i32 = (width as i32) / 2;
    let text_y: i32 = 22;
    let ghost processed = processed_frames(
        all,
        meta.width,
        meta.height,
        meta.global_palette,
        font_data@,
        text@,
    );
    let mut frame_number: u64 = 0;
    let ghost k: int = 0;
    let mut done: bool = false;
    while !done
        invariant
            done ==> decoder_pending(decoder).len() == 0,
            decoder_meta(decoder) == meta,
            meta == gif_stream_meta(gif_data@),
            all == gif_pending_frames(gif_data@),
            processed == processed_frames(
                all,
                meta.width,
                meta.height,
                meta.global_palette,
                font_data@,
                text@,
            ),
            0 <= k <= all.len(),
            decoder_pending(decoder) == all.skip(k),
            k <= u64::MAX ==> frame_number == k,
            k > u64::MAX ==> frame_number == u64::MAX,
            width == meta.width,
            height == meta.height,
            4 * (width as int) * (height as int) <= usize::MAX,
            match global_palette {
                Some(g) => meta.global_palette == Some(g@) && g@.len() <= 768,
                None => meta.global_palette is None,
            },
            transcode_succeeds_on(gif_data@, font_data@) ==> decoder_healthy(decoder),
            forall|i: int|
                0 <= i < k ==> has_effective_palette(#[trigger] all[i], meta.global_palette),
            font_parses(font_data@),
            display_text@ == replaced_text(text@),
            text_x == (width as i32) / 2,
            text_y == 22,
            encoder_frames(encoder) == processed.take(k),
            encoder_meta(encoder) == (EncoderMeta { width, height, repeat_infinite: true }),
        decreases decoder_pending(decoder).len() + (if done { 0int } else { 1int }),
    {
        let next = match read_next_frame(&mut decoder) {
            Ok(n) => n,
            Err(_) => {
                return Err(PipelineError::DecodeError);
            },
        };
        match next {
            None => {
                done = true;
            },
            Some(frame) => {
                proof {
                    assert(all.skip(k).len() > 0);
                    assert(frame@ == all.skip(k)[0]);
                    assert(all.skip(k)[0] == all[k]);
                    assert(decoder_pending(decoder) =~= all.skip(k + 1));
                }
                let palette_ref: &Vec<u8> = match &frame.palette {
                    Some(p) => p,
                    None => match &global_palette {
                        Some(g) => g,
                        None => {
                            proof {
                                assert(!has_effective_palette(all[k], meta.global_palette));
                                if transcode_succeeds_on(gif_data@, font_data@) {
                                    assert(has_effective_palette(
                                        gif_pending_frames(gif_data@)[k],
                                        gif_stream_meta(gif_data@).global_palette,
                                    ));
                                }
                            }
                            return Err(PipelineError::NoPaletteError);
                        },
                    },
                };
                let ghost pal: Seq<u8> = effective_palette(all[k], meta.global_palette);
                proof {
                    assert(has_effective_palette(all[k], meta.global_palette));
                    assert(palette_ref@ == pal);
                    assert(pal.len() <= 768);
                }
                let decoded: Canvas = match frame_to_rgba(
                    &frame,
                    palette_ref.as_slice(),
                    width,
                    height,
                ) {
                    Ok(c) => c,
                    Err(_) => {
                        proof {
                            if transcode_succeeds_on(gif_data@, font_data@) {
                                assert(!decode_bad_index(
                                    gif_pending_frames(gif_data@)[k],
                                    effective_palette(
                                        gif_pending_frames(gif_data@)[k],
                                        gif_stream_meta(gif_data@).global_palette,
                                    ),
                                ));
                            }
                        }
                        return Err(PipelineError::DecodeError);
                    },
                };
                proof {
                    lemma_channels_to_flat(
                        decoded.pixels@,
                        width as int,
                        height as int,
                        |x: int, y: int, ch: int| decoded_channel(frame@, pal, x, y, ch),
                    );
                    assert(decoded.pixels@ == decoded_pixels(frame@, pal, width, height));
                }
                let fade: (u8, &'static str) = fade_params(frame_number);
                let alpha: u8 = fade.0;
                proof {
                    assert(fade_alpha_spec(frame_number as int) == fade_alpha_spec(k));
                    assert(fade_blur_str_spec(frame_number as int) == fade_blur_str_spec(k));
                }
                let final_canvas: Canvas = if alpha == 0 {
                    decoded
                } else {
                    let drawn: Canvas = draw_caption(
                        copy_canvas(&decoded),
                        font_data,
                        display_text.as_str(),
                        text_x,
                        text_y,
                    );
                    proof {
                        assert(drawn.pixels@ == caption_composited(
                            decoded_pixels(frame@, pal, width, height),
                            width,
                            height,
                            font_data@,
                            replaced_text(text@),
                            width as int / 2,
                            22,
                        ));
                    }
                    if alpha < 255 {
                        let mask: Canvas = build_mask(&decoded, &drawn);
                        proof {
                            lemma_channels_to_flat(
                                mask.pixels@,
                                width as int,
                                height as int,
                                |x: int, y: int, ch: int| mask_channel(
                                    decoded.pixels@,
                                    drawn.pixels@,
                                    width as int,
                                    x,
                                    y,
                                    ch,
                                ),
                            );
                            assert(mask.pixels@ == mask_pixels(
                                decoded.pixels@,
                                drawn.pixels@,
                                width,
                                height,
                            ));
                            lemma_fade_blur_str_valid(k);
                        }
                        let blurred: Canvas = blur_mask(mask, fade.1);
                        let blended: Canvas = blend_canvases(&decoded, &drawn, &blurred, alpha);
                        proof {
                            lemma_channels_to_flat(
                                blended.pixels@,
                                width as int,
                                height as int,
                                |x: int, y: int, ch: int| blended_channel(
                                    decoded.pixels@,
                                    drawn.pixels@,
                                    blurred.pixels@,
                                    width as int,
                                    x,
                                    y,
                                    ch,
                                    alpha,
                                ),
                            );
                            assert(blended.pixels@ == blended_pixels(
                                decoded.pixels@,
                                drawn.pixels@,
                                blurred.pixels@,
                                width,
                                height,
                                alpha,
                            ));
                        }
                        blended
                    } else {
                        drawn
                    }
                };
                proof {
                    assert(final_canvas.pixels@ == final_raster(
                        k,
                        frame@,
                        width,
                        height,
                        pal,
                        font_data@,
                        text@,
                    ));
                }
                let quantized: (Vec<u8>, Vec<u8>) = match rgba_to_indexed(
                    &final_canvas,
                    width,
                    height,
                    palette_ref.as_slice(),
                ) {
                    Ok(q) => q,
                    Err(_) => {
                        proof {
                            assert(palette_color_count(
                                effective_palette(all[k], meta.global_palette),
                            ) == 0);
                            if transcode_succeeds_on(gif_data@, font_data@) {
                                assert(palette_color_count(effective_palette(
                                    gif_pending_frames(gif_data@)[k],
                                    gif_stream_meta(gif_data@).global_palette,
                                )) >= 1);
                            }
                        }
                        return Err(PipelineError::QuantizeError);
                    },
                };
                proof {
                    lemma_indices_to_flat(
                        quantized.0@,
                        width as int,
                        height as int,
                        |x: int, y: int| quant_pixel(
                            pal,
                            px(final_canvas.pixels@, width as int, x, y, 0),
                            px(final_canvas.pixels@, width as int, x, y, 1),
                            px(final_canvas.pixels@, width as int, x, y, 2),
                            px(final_canvas.pixels@, width as int, x, y, 3),
                        ) as u8,
                    );
                    assert(quantized.0@ == quantized_indices(
                        final_canvas.pixels@,
                        width,
                        height,
                        pal,
                    ));
                }
                let new_frame = GifFrame {
                    buffer: quantized.0,
                    palette: Some(quantized.1),
                    left: 0,
                    top: 0,
                    width,
                    height,
                    delay: frame.delay,
                    dispose: frame.dispose,
                    transparent: frame.transparent,
                    needs_user_input: frame.needs_user_input,
                    interlaced: false,
                };
                proof {
                    assert(new_frame@ == process_frame_spec(
                        k,
                        all[k],
                        width,
                        height,
                        meta.global_palette,
                        font_data@,
                        text@,
                    ));
                    assert(new_frame@ == processed[k]);
                }
                match write_frame(&mut encoder, &new_frame) {
                    Ok(_) => {},
                    Err(_) => {
                        return Err(PipelineError::EncodeError);
                    },
                }
                proof {
                    assert(encoder_frames(encoder) =~= processed.take(k + 1));
                }
                if frame_number < u64::MAX {
                    frame_number = frame_number + 1;
                }
                proof {
                    k = k + 1;
                }
            },
        }
    }
    proof {
        assert(all.skip(k).len() == 0);
        assert(k == all.len());
        assert(encoder_frames(encoder) =~= processed);
        assert forall|i: int| 0 <= i < gif_pending_frames(gif_data@).len()
            implies has_effective_palette(
                #[trigger] gif_pending_frames(gif_data@)[i],
                gif_stream_meta(gif_data@).global_palette,
            ) by {
            assert(gif_pending_frames(gif_data@)[i] == all[i]);
            assert(has_effective_palette(all[i], meta.global_palette));
        }
    }
    match finish_encoder(encoder) {
        Ok(out) => Ok(out),
        Err(_) => Err(PipelineError::EncodeError),
    }
}

} // verus!
