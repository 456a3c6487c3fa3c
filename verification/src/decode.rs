use vstd::prelude::*;
use crate::canvas::{px, Canvas, lemma_set_pixel_px, lemma_pixel_index_in_bounds};
use crate::codec::{FrameView, GifFrame};
use crate::error::PipelineError;

verus! {

/// Whether some pixel of the frame holds a palette index whose color entry
/// would read past the palette's byte length.
pub open spec fn decode_bad_index(f: FrameView, pal: Seq<u8>) -> bool {
    exists|i: int|
        0 <= i < f.buffer.len() && i < (f.width as int) * (f.height as int)
            && 3 * (f.buffer[i] as int) + 2 >= pal.len()
}

/// The value one channel of the canvas holds after the frame is composited
/// onto an all-zero canvas: palette color and transparency for positions the
/// frame covers, zero elsewhere. `ch` 3 is alpha.
pub open spec fn decoded_channel(f: FrameView, pal: Seq<u8>, x: int, y: int, ch: int) -> u8 {
    if f.left <= x < f.left + f.width && f.top <= y < f.top + f.height {
        let pi = (y - f.top) * (f.width as int) + (x - f.left);
        if pi < f.buffer.len() {
            let ci = f.buffer[pi] as int;
            if 3 * ci + 2 < pal.len() {
                if ch == 3 {
                    if f.transparent == Some(f.buffer[pi]) {
                        0u8
                    } else {
                        255u8
                    }
                } else {
                    pal[3 * ci + ch]
                }
            } else {
                0u8
            }
        } else {
            0u8
        }
    } else {
        0u8
    }
}

/// Whether the frame pixel at local position `(fx, fy)` has been composited,
/// given that rows before `cy` are done and row `cy` is done up to `cx`.
pub open spec fn frame_pos_done(fx: int, fy: int, cx: int, cy: int) -> bool {
    fy < cy || (fy == cy && fx < cx)
}

/// One channel of the canvas while the frame is being composited row by row:
/// the decoded value where the covering frame pixel is already done, zero
/// elsewhere.
pub open spec fn partial_channel(
    f: FrameView,
    pal: Seq<u8>,
    x: int,
    y: int,
    ch: int,
    cx: int,
    cy: int,
) -> u8 {
    if f.left <= x < f.left + f.width && f.top <= y < f.top + f.height
        && frame_pos_done(x - f.left, y - f.top, cx, cy) {
        decoded_channel(f, pal, x, y, ch)
    } else {
        0u8
    }
}

/// Turns one indexed frame plus its effective palette into a full-canvas
/// RGBA raster. Pixels resolve through the palette; a pixel whose index is
/// the frame's transparent index gets alpha 0, every other covered pixel
/// alpha 255; positions outside the canvas are silently dropped. Fails
/// exactly when some covered pixel's palette entry would read past the
/// palette's byte length.
pub fn frame_to_rgba(frame: &GifFrame, palette: &[u8], width: u16, height: u16) -> (r:
    Result<Canvas, PipelineError>)
    requires
        4 * (width as int) * (height as int) <= usize::MAX,
    ensures
        r matches Err(e) ==> e == PipelineError::DecodeError
            && decode_bad_index(frame@, palette@),
        r matches Ok(c) ==> !decode_bad_index(frame@, palette@)
            && c.wf()
            && c.width == width
            && c.height == height
            && forall|x: int, y: int, ch: int|
                0 <= x < width && 0 <= y < height && 0 <= ch < 4
                    ==> #[trigger] px(c.pixels@, width as int, x, y, ch)
                        == decoded_channel(frame@, palette@, x, y, ch),
{
    let mut image = Canvas::new(width, height);
    proof {
        assert forall|x: int, y: int, ch: int|
            0 <= x < width && 0 <= y < height && 0 <= ch < 4
                implies #[trigger] px(image.pixels@, width as int, x, y, ch)
                    == partial_channel(frame@, palette@, x, y, ch, 0, 0) by {
            lemma_pixel_index_in_bounds(width as int, height as int, x, y);
        }
    }
    let fw: u16 = frame.width;
    let fh: u16 = frame.height;
    let buf_len: usize = frame.buffer.len();
    let mut fy: u16 = 0;
    while fy < fh
        invariant
            fy <= fh,
            fw == frame.width,
            fh == frame.height,
            buf_len == frame.buffer.len(),
            image.wf(),
            image.width == width,
            image.height == height,
            4 * (width as int) * (height as int) <= usize::MAX,
            forall|i: int|
                0 <= i < buf_len && i < (fy as int) * (fw as int)
                    ==> 3 * (#[trigger] frame.buffer@[i] as int) + 2 < palette@.len(),
            forall|x: int, y: int, ch: int|
                0 <= x < width && 0 <= y < height && 0 <= ch < 4
                    ==> #[trigger] px(image.pixels@, width as int, x, y, ch)
                        == partial_channel(frame@, palette@, x, y, ch, 0, fy as int),
        decreases fh - fy,
    {
        let mut fx: u16 = 0;
        while fx < fw
            invariant
                fx <= fw,
                fy < fh,
                fw == frame.width,
                fh == frame.height,
                buf_len == frame.buffer.len(),
                image.wf(),
                image.width == width,
                image.height == height,
                4 * (width as int) * (height as int) <= usize::MAX,
                forall|i: int|
                    0 <= i < buf_len && i < (fy as int) * (fw as int) + (fx as int)
                        ==> 3 * (#[trigger] frame.buffer@[i] as int) + 2 < palette@.len(),
                forall|x: int, y: int, ch: int|
                    0 <= x < width && 0 <= y < height && 0 <= ch < 4
                        ==> #[trigger] px(image.pixels@, width as int, x, y, ch)
                            == partial_channel(frame@, palette@, x, y, ch, fx as int, fy as int),
            decreases fw - fx,
        {
            let ghost prev = image.pixels@;
            proof {
                assert((fy as int) * (fw as int) + (fx as int) < 0x100000000) by (nonlinear_arith)
                    requires
                        fy < 0x10000,
                        fw < 0x10000,
                        fx < 0x10000,
                ;
            }
            let pixel_index: u64 = (fy as u64) * (fw as u64) + (fx as u64);
            if pixel_index < buf_len as u64 {
                let color_index: usize = frame.buffer[pixel_index as usize] as usize;
                let palette_offset: usize = color_index * 3;
                if palette_offset + 2 >= palette.len() {
                    proof {
                        let pi: int = (fy as int) * (fw as int) + (fx as int);
                        assert(pi < (frame@.width as int) * (frame@.height as int))
                            by (nonlinear_arith)
                            requires
                                fy < fh,
                                fx < fw,
                                fw == frame@.width,
                                fh == frame@.height,
                                pi == (fy as int) * (fw as int) + (fx as int),
                        ;
                        assert(0 <= pi < frame@.buffer.len());
                        assert(3 * (frame@.buffer[pi] as int) + 2 >= palette@.len());
                        assert(decode_bad_index(frame@, palette@));
                    }
                    return Err(PipelineError::DecodeError);
                }
                let r = palette[palette_offset];
                let g = palette[palette_offset + 1];
                let b = palette[palette_offset + 2];
                let idx_u8: u8 = frame.buffer[pixel_index as usize];
                let a: u8 = match frame.transparent {
                    Some(t) => if t == idx_u8 { 0 } else { 255 },
                    None => 255,
                };
                let img_x: u64 = (frame.left as u64) + (fx as u64);
                let img_y: u64 = (frame.top as u64) + (fy as u64);
                if img_x < width as u64 && img_y < height as u64 {
                    image.set_pixel(img_x as u16, img_y as u16, r, g, b, a);
                    proof {
                        lemma_set_pixel_px(
                            prev,
                            image.pixels@,
                            width as int,
                            height as int,
                            img_x as int,
                            img_y as int,
                            r,
                            g,
                            b,
                            a,
                        );
                    }
                }
            }
            proof {
                lemma_partial_step(
                    frame@,
                    palette@,
                    width as int,
                    height as int,
                    prev,
                    image.pixels@,
                    fx as int,
                    fy as int,
                );
            }
            fx = fx + 1;
        }
        proof {
            assert(((fy as int) + 1) * (fw as int) == (fy as int) * (fw as int) + (fw as int))
                by (nonlinear_arith);
            assert forall|x: int, y: int, ch: int|
                0 <= x < width && 0 <= y < height && 0 <= ch < 4
                    implies #[trigger] px(image.pixels@, width as int, x, y, ch)
                        == partial_channel(frame@, palette@, x, y, ch, 0, (fy as int) + 1) by {
                assert(px(image.pixels@, width as int, x, y, ch)
                    == partial_channel(frame@, palette@, x, y, ch, fw as int, fy as int));
            }
        }
        fy = fy + 1;
    }
    proof {
        assert forall|x: int, y: int, ch: int|
            0 <= x < width && 0 <= y < height && 0 <= ch < 4
                implies #[trigger] px(image.pixels@, width as int, x, y, ch)
                    == decoded_channel(frame@, palette@, x, y, ch) by {
            assert(px(image.pixels@, width as int, x, y, ch)
                == partial_channel(frame@, palette@, x, y, ch, 0, fh as int));
        }
        assert forall|i: int|
            0 <= i < buf_len && i < (frame@.width as int) * (frame@.height as int)
                implies 3 * (#[trigger] frame.buffer@[i] as int) + 2 < palette@.len() by {
            assert((frame@.width as int) * (frame@.height as int)
                == (fh as int) * (fw as int)) by (nonlinear_arith)
                requires
                    fw == frame@.width,
                    fh == frame@.height,
            ;
        }
    }
    Ok(image)
}

proof fn lemma_partial_step(
    f: FrameView,
    pal: Seq<u8>,
    width: int,
    height: int,
    prev: Seq<u8>,
    cur: Seq<u8>,
    fx: int,
    fy: int,
)
    requires
        0 <= fx < f.width,
        0 <= fy < f.height,
        prev.len() == 4 * width * height,
        forall|x: int, y: int, ch: int|
            0 <= x < width && 0 <= y < height && 0 <= ch < 4
                ==> #[trigger] px(prev, width, x, y, ch)
                    == partial_channel(f, pal, x, y, ch, fx, fy),
        ({
            let x = f.left + fx;
            let y = f.top + fy;
            let pi = fy * (f.width as int) + fx;
            if pi < f.buffer.len() && 3 * (f.buffer[pi] as int) + 2 < pal.len()
                && 0 <= x < width && 0 <= y < height {
                cur == prev
                    .update(4 * (y * width + x), decoded_channel(f, pal, x, y, 0))
                    .update(4 * (y * width + x) + 1, decoded_channel(f, pal, x, y, 1))
                    .update(4 * (y * width + x) + 2, decoded_channel(f, pal, x, y, 2))
                    .update(4 * (y * width + x) + 3, decoded_channel(f, pal, x, y, 3))
            } else {
                cur == prev
            }
        }),
    ensures
        forall|x: int, y: int, ch: int|
            0 <= x < width && 0 <= y < height && 0 <= ch < 4
                ==> #[trigger] px(cur, width, x, y, ch)
                    == partial_channel(f, pal, x, y, ch, fx + 1, fy),
{
    let tx: int = f.left + fx;
    let ty: int = f.top + fy;
    let pi: int = fy * (f.width as int) + fx;
    let wrote: bool = pi < f.buffer.len() && 3 * (f.buffer[pi] as int) + 2 < pal.len()
        && 0 <= tx < width && 0 <= ty < height;
    if wrote {
        lemma_set_pixel_px(
            prev,
            cur,
            width,
            height,
            tx,
            ty,
            decoded_channel(f, pal, tx, ty, 0),
            decoded_channel(f, pal, tx, ty, 1),
            decoded_channel(f, pal, tx, ty, 2),
            decoded_channel(f, pal, tx, ty, 3),
        );
    }
    assert forall|x: int, y: int, ch: int|
        0 <= x < width && 0 <= y < height && 0 <= ch < 4
            implies #[trigger] px(cur, width, x, y, ch)
                == partial_channel(f, pal, x, y, ch, fx + 1, fy) by {
        if x == tx && y == ty {
            if wrote {
            } else {
                assert(px(cur, width, x, y, ch) == partial_channel(f, pal, x, y, ch, fx, fy));
            }
        } else {
            assert(px(cur, width, x, y, ch) == px(prev, width, x, y, ch));
            assert(partial_channel(f, pal, x, y, ch, fx + 1, fy)
                == partial_channel(f, pal, x, y, ch, fx, fy));
        }
    }
}

} // verus!
