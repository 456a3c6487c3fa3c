use imagine_gif::error::PipelineError;
use imagine_gif::pipeline::add_text_to_gif;

fn be16(v: &mut Vec<u8>, x: u16) {
    v.push((x >> 8) as u8);
    v.push(x as u8);
}

fn be32(v: &mut Vec<u8>, x: u32) {
    v.push((x >> 24) as u8);
    v.push((x >> 16) as u8);
    v.push((x >> 8) as u8);
    v.push(x as u8);
}

/// A small font holding one drawable glyph, mapped from the letter `A`: a
/// filled square covering half the em. Enough to lay out and rasterize a
/// caption.
fn minimal_font() -> Vec<u8> {
    let mut head: Vec<u8> = Vec::new();
    be32(&mut head, 0x00010000); // version
    be32(&mut head, 0); // font revision
    be32(&mut head, 0); // checksum adjustment
    be32(&mut head, 0x5F0F3CF5); // magic number
    be16(&mut head, 0); // flags
    be16(&mut head, 1000); // units per em
    be32(&mut head, 0);
    be32(&mut head, 0); // created
    be32(&mut head, 0);
    be32(&mut head, 0); // modified
    be16(&mut head, 0); // x min
    be16(&mut head, 0); // y min
    be16(&mut head, 500); // x max
    be16(&mut head, 500); // y max
    be16(&mut head, 0); // mac style
    be16(&mut head, 0); // lowest rec ppem
    be16(&mut head, 0); // font direction hint
    be16(&mut head, 0); // index to loc format: short
    be16(&mut head, 0); // glyph data format
    assert_eq!(head.len(), 54);

    let mut hhea: Vec<u8> = Vec::new();
    be32(&mut hhea, 0x00010000); // version
    be16(&mut hhea, 800); // ascender
    be16(&mut hhea, (-200i16) as u16); // descender
    be16(&mut hhea, 0); // line gap
    be16(&mut hhea, 600); // advance width max
    be16(&mut hhea, 0); // min left side bearing
    be16(&mut hhea, 0); // min right side bearing
    be16(&mut hhea, 500); // x max extent
    be16(&mut hhea, 1); // caret slope rise
    be16(&mut hhea, 0); // caret slope run
    be16(&mut hhea, 0); // caret offset
    be32(&mut hhea, 0);
    be32(&mut hhea, 0); // reserved
    be16(&mut hhea, 0); // metric data format
    be16(&mut hhea, 2); // number of h metrics
    assert_eq!(hhea.len(), 36);

    let mut hmtx: Vec<u8> = Vec::new();
    be16(&mut hmtx, 600); // advance width of glyph 0
    be16(&mut hmtx, 0); // left side bearing
    be16(&mut hmtx, 600); // advance width of glyph 1
    be16(&mut hmtx, 0); // left side bearing

    let mut maxp: Vec<u8> = Vec::new();
    be32(&mut maxp, 0x00005000); // version 0.5
    be16(&mut maxp, 2); // number of glyphs

    // Character map, format 4: the single segment `A`..`A` maps to glyph 1.
    let mut cmap: Vec<u8> = Vec::new();
    be16(&mut cmap, 0); // version
    be16(&mut cmap, 1); // one encoding record
    be16(&mut cmap, 3); // platform: windows
    be16(&mut cmap, 1); // encoding: unicode bmp
    be32(&mut cmap, 12); // subtable offset
    be16(&mut cmap, 4); // format
    be16(&mut cmap, 32); // length
    be16(&mut cmap, 0); // language
    be16(&mut cmap, 4); // seg count x2
    be16(&mut cmap, 4); // search range
    be16(&mut cmap, 1); // entry selector
    be16(&mut cmap, 0); // range shift
    be16(&mut cmap, 0x0041); // end codes
    be16(&mut cmap, 0xFFFF);
    be16(&mut cmap, 0); // reserved pad
    be16(&mut cmap, 0x0041); // start codes
    be16(&mut cmap, 0xFFFF);
    be16(&mut cmap, 0xFFC0); // id delta: 0x41 + 0xFFC0 = 1 mod 65536
    be16(&mut cmap, 1);
    be16(&mut cmap, 0); // id range offsets
    be16(&mut cmap, 0);
    assert_eq!(cmap.len(), 44);

    // Glyph 1: one closed contour, a 500x500 square of on-curve points.
    let mut glyf: Vec<u8> = Vec::new();
    be16(&mut glyf, 1); // number of contours
    be16(&mut glyf, 0); // x min
    be16(&mut glyf, 0); // y min
    be16(&mut glyf, 500); // x max
    be16(&mut glyf, 500); // y max
    be16(&mut glyf, 3); // last point of the contour
    be16(&mut glyf, 0); // no instructions
    for _ in 0..4 {
        glyf.push(0x01); // on-curve, 16-bit deltas
    }
    be16(&mut glyf, 0); // x deltas
    be16(&mut glyf, 500);
    be16(&mut glyf, 0);
    be16(&mut glyf, (-500i16) as u16);
    be16(&mut glyf, 0); // y deltas
    be16(&mut glyf, 0);
    be16(&mut glyf, 500);
    be16(&mut glyf, 0);
    assert_eq!(glyf.len(), 34);

    // Short-format offsets: glyph 0 is empty, glyph 1 is the whole table.
    let mut loca: Vec<u8> = Vec::new();
    be16(&mut loca, 0);
    be16(&mut loca, 0);
    be16(&mut loca, (glyf.len() / 2) as u16);

    let tables: [(&[u8; 4], &Vec<u8>); 7] = [
        (b"cmap", &cmap),
        (b"glyf", &glyf),
        (b"head", &head),
        (b"hhea", &hhea),
        (b"hmtx", &hmtx),
        (b"loca", &loca),
        (b"maxp", &maxp),
    ];
    let mut font: Vec<u8> = Vec::new();
    be32(&mut font, 0x00010000); // sfnt version
    be16(&mut font, tables.len() as u16);
    be16(&mut font, 64); // search range
    be16(&mut font, 2); // entry selector
    be16(&mut font, 0); // range shift
    let mut offset = 12 + 16 * tables.len() as u32;
    for (tag, data) in &tables {
        font.extend_from_slice(*tag);
        be32(&mut font, 0); // checksum
        be32(&mut font, offset);
        be32(&mut font, data.len() as u32);
        offset += data.len() as u32;
    }
    for (_, data) in &tables {
        font.extend_from_slice(data);
    }
    font
}

fn encode_gif(width: u16, height: u16, global_palette: &[u8], frames: &[gif::Frame]) -> Vec<u8> {
    let mut out = Vec::new();
    {
        let mut encoder = gif::Encoder::new(&mut out, width, height, global_palette).unwrap();
        encoder.set_repeat(gif::Repeat::Infinite).unwrap();
        for f in frames {
            encoder.write_frame(f).unwrap();
        }
    }
    out
}

fn decode_frames(data: &[u8]) -> (u16, u16, Vec<gif::Frame<'static>>) {
    let mut decoder = gif::Decoder::new(std::io::Cursor::new(data.to_vec())).unwrap();
    let width = decoder.width();
    let height = decoder.height();
    let mut frames = Vec::new();
    while let Some(f) = decoder.read_next_frame().unwrap() {
        frames.push(f.clone());
    }
    (width, height, frames)
}

#[test]
fn minimal_font_is_accepted() {
    assert!(imagine_gif::text::font_ok(&minimal_font()));
    assert!(!imagine_gif::text::font_ok(b"not a font"));
}

/// A font that parses but carries no glyph metrics: the required tables are
/// present, `hmtx` is not. Text layout would abort on it, so the font check
/// must turn it away.
fn font_without_metrics() -> Vec<u8> {
    let full = minimal_font();
    let mut head = Vec::new();
    let mut hhea = Vec::new();
    let mut maxp = Vec::new();
    // Reuse the tables of the full font, located through its directory.
    for i in 0..7usize {
        let rec = 12 + 16 * i;
        let tag = &full[rec..rec + 4];
        let off = u32::from_be_bytes(full[rec + 8..rec + 12].try_into().unwrap()) as usize;
        let len = u32::from_be_bytes(full[rec + 12..rec + 16].try_into().unwrap()) as usize;
        match tag {
            b"head" => head = full[off..off + len].to_vec(),
            b"hhea" => hhea = full[off..off + len].to_vec(),
            b"maxp" => maxp = full[off..off + len].to_vec(),
            _ => {}
        }
    }
    let tables: [(&[u8; 4], &Vec<u8>); 3] = [(b"head", &head), (b"hhea", &hhea), (b"maxp", &maxp)];
    let mut font: Vec<u8> = Vec::new();
    be32(&mut font, 0x00010000);
    be16(&mut font, tables.len() as u16);
    be16(&mut font, 48);
    be16(&mut font, 1);
    be16(&mut font, 0);
    let mut offset = 12 + 16 * tables.len() as u32;
    for (tag, data) in &tables {
        font.extend_from_slice(*tag);
        be32(&mut font, 0);
        be32(&mut font, offset);
        be32(&mut font, data.len() as u32);
        offset += data.len() as u32;
    }
    for (_, data) in &tables {
        font.extend_from_slice(data);
    }
    font
}

/// A font whose character map sends `A` to a glyph the font does not have:
/// it parses and its glyphs carry metrics, but laying out an `A` would
/// abort on the out-of-range lookup, so the font check must turn it away.
fn font_with_bad_cmap() -> Vec<u8> {
    let mut full = minimal_font();
    for i in 0..7usize {
        let rec = 12 + 16 * i;
        if &full[rec..rec + 4] == b"cmap" {
            let off = u32::from_be_bytes(full[rec + 8..rec + 12].try_into().unwrap()) as usize;
            // The first segment's id delta: 0x41 + 0xFFC4 = 5 mod 65536,
            // past the two glyphs the font holds.
            full[off + 36] = 0xFF;
            full[off + 37] = 0xC4;
        }
    }
    full
}

#[test]
fn font_with_bad_cmap_is_rejected() {
    assert!(!imagine_gif::text::font_ok(&font_with_bad_cmap()));
}

#[test]
fn font_with_bad_cmap_fails_with_font_load_error() {
    // Twelve frames, so the caption would really be laid out on the later
    // ones if the font were let through.
    let palette = [0u8, 0, 0, 255, 255, 255];
    let mut frames = Vec::new();
    for i in 0..12u16 {
        let mut f = gif::Frame::default();
        f.width = 4;
        f.height = 4;
        f.delay = i + 1;
        f.buffer = std::borrow::Cow::Owned(vec![0u8; 16]);
        frames.push(f);
    }
    let data = encode_gif(4, 4, &palette, &frames);
    assert_eq!(
        add_text_to_gif(&data, "A", &font_with_bad_cmap()).unwrap_err(),
        PipelineError::FontLoadError,
    );
}

#[test]
fn font_without_metrics_is_rejected() {
    assert!(!imagine_gif::text::font_ok(&font_without_metrics()));
}

#[test]
fn font_without_metrics_fails_with_font_load_error() {
    let palette = [0u8, 0, 0, 255, 255, 255];
    let mut frame = gif::Frame::default();
    frame.width = 2;
    frame.height = 2;
    frame.buffer = std::borrow::Cow::Owned(vec![0, 1, 1, 0]);
    let data = encode_gif(2, 2, &palette, &[frame]);
    assert_eq!(
        add_text_to_gif(&data, "A", &font_without_metrics()).unwrap_err(),
        PipelineError::FontLoadError,
    );
}

#[test]
fn bad_font_fails_with_font_load_error() {
    let palette = [0u8, 0, 0, 255, 255, 255];
    let mut frame = gif::Frame::default();
    frame.width = 2;
    frame.height = 2;
    frame.buffer = std::borrow::Cow::Owned(vec![0, 1, 1, 0]);
    let data = encode_gif(2, 2, &palette, &[frame]);
    assert_eq!(
        add_text_to_gif(&data, "A", b"junk").unwrap_err(),
        PipelineError::FontLoadError,
    );
}

#[test]
fn garbage_input_fails_with_decode_error() {
    assert_eq!(
        add_text_to_gif(b"not a gif", "A", &minimal_font()).unwrap_err(),
        PipelineError::DecodeError,
    );
}

#[test]
fn missing_palette_is_rejected() {
    // A hand-built one-frame GIF with neither a global nor a local palette.
    // The decoder refuses such a stream while reading the frame, so the
    // whole operation aborts with a decode failure.
    let mut data: Vec<u8> = Vec::new();
    data.extend_from_slice(b"GIF89a");
    data.extend_from_slice(&[1, 0, 1, 0, 0x00, 0, 0]); // 1x1 screen, no color table
    data.extend_from_slice(&[0x2C, 0, 0, 0, 0, 1, 0, 1, 0, 0x00]); // image descriptor
    data.extend_from_slice(&[0x02, 0x02, 0x44, 0x01, 0x00]); // pixel 0, lzw-coded
    data.push(0x3B); // trailer
    assert_eq!(
        add_text_to_gif(&data, "A", &minimal_font()).unwrap_err(),
        PipelineError::DecodeError,
    );
}

#[test]
fn single_frame_round_trips_through_the_pipeline() {
    let palette = [0u8, 0, 0, 255, 255, 255];
    let mut buffer = Vec::new();
    for i in 0..100usize {
        buffer.push((i % 2) as u8);
    }
    let mut frame = gif::Frame::default();
    frame.width = 10;
    frame.height = 10;
    frame.delay = 7;
    frame.buffer = std::borrow::Cow::Owned(buffer.clone());
    let data = encode_gif(10, 10, &palette, &[frame]);

    let out = add_text_to_gif(&data, "A", &minimal_font()).unwrap();
    let (w, h, frames) = decode_frames(&out);
    assert_eq!((w, h), (10, 10));
    assert_eq!(frames.len(), 1);
    // The only frame is still inside the invisible part of the fade, so its
    // index buffer and palette survive unchanged.
    assert_eq!(frames[0].buffer.as_ref(), &buffer[..]);
    assert_eq!(frames[0].palette.as_deref(), Some(&palette[..]));
    assert_eq!(frames[0].delay, 7);
    assert_eq!((frames[0].left, frames[0].top), (0, 0));
    assert_eq!((frames[0].width, frames[0].height), (10, 10));
    assert!(!frames[0].interlaced);
}

#[test]
fn forty_frames_keep_their_metadata() {
    let palette = [0u8, 0, 0, 255, 255, 255, 30, 60, 90];
    let mut frames = Vec::new();
    for i in 0..40u16 {
        let mut f = gif::Frame::default();
        f.width = 8;
        f.height = 8;
        f.delay = i + 1;
        f.dispose = if i % 2 == 0 {
            gif::DisposalMethod::Keep
        } else {
            gif::DisposalMethod::Background
        };
        f.transparent = if i % 3 == 0 { Some(0) } else { None };
        f.buffer = std::borrow::Cow::Owned(vec![(i % 3) as u8; 64]);
        frames.push(f);
    }
    let data = encode_gif(8, 8, &palette, &frames);

    let out = add_text_to_gif(&data, "HI \u{1F600}", &minimal_font()).unwrap();
    let (w, h, out_frames) = decode_frames(&out);
    assert_eq!((w, h), (8, 8));
    assert_eq!(out_frames.len(), 40);
    for i in 0..40usize {
        assert_eq!(out_frames[i].delay, frames[i].delay, "frame {}", i);
        assert_eq!(out_frames[i].dispose, frames[i].dispose, "frame {}", i);
        assert_eq!(out_frames[i].transparent, frames[i].transparent, "frame {}", i);
        assert_eq!(out_frames[i].needs_user_input, frames[i].needs_user_input, "frame {}", i);
        assert_eq!((out_frames[i].left, out_frames[i].top), (0, 0));
        assert_eq!((out_frames[i].width, out_frames[i].height), (8, 8));
        assert!(!out_frames[i].interlaced);
    }
}

#[test]
fn zero_frames_give_a_valid_empty_animation() {
    let palette = [0u8, 0, 0, 255, 255, 255];
    let data = encode_gif(6, 4, &palette, &[]);
    let out = add_text_to_gif(&data, "A", &minimal_font()).unwrap();
    assert!(!out.is_empty());
    let (w, h, frames) = decode_frames(&out);
    assert_eq!((w, h), (6, 4));
    assert_eq!(frames.len(), 0);
}

#[test]
fn drawing_the_caption_changes_the_raster() {
    let mut pixels = Vec::new();
    for _ in 0..60 * 60 {
        pixels.extend_from_slice(&[120u8, 120, 120, 255]);
    }
    let canvas = imagine_gif::canvas::Canvas { width: 60, height: 60, pixels: pixels.clone() };
    let drawn = imagine_gif::text::draw_caption(canvas, &minimal_font(), "A", 30, 10);
    assert_eq!(drawn.width, 60);
    assert_eq!(drawn.height, 60);
    assert_ne!(drawn.pixels, pixels);
}
