use imagine_gif::codec::GifFrame;
use imagine_gif::decode::frame_to_rgba;
use imagine_gif::error::PipelineError;

fn frame(buffer: Vec<u8>, left: u16, top: u16, width: u16, height: u16, transparent: Option<u8>) -> GifFrame {
    GifFrame {
        buffer,
        palette: None,
        left,
        top,
        width,
        height,
        delay: 0,
        dispose: gif::DisposalMethod::Keep,
        transparent,
        needs_user_input: false,
        interlaced: false,
    }
}

#[test]
fn resolves_palette_colors_and_transparency() {
    let palette = [255u8, 0, 0, 0, 255, 0];
    let f = frame(vec![0, 1, 1, 0], 0, 0, 2, 2, Some(0));
    let canvas = frame_to_rgba(&f, &palette, 2, 2).unwrap();
    // Index 0 is the transparent index: red with alpha 0.
    assert_eq!(canvas.get_pixel(0, 0), (255, 0, 0, 0));
    assert_eq!(canvas.get_pixel(1, 0), (0, 255, 0, 255));
    assert_eq!(canvas.get_pixel(0, 1), (0, 255, 0, 255));
    assert_eq!(canvas.get_pixel(1, 1), (255, 0, 0, 0));
}

#[test]
fn offsets_place_the_frame_inside_the_canvas() {
    let palette = [9u8, 8, 7];
    let f = frame(vec![0], 1, 1, 1, 1, None);
    let canvas = frame_to_rgba(&f, &palette, 3, 3).unwrap();
    assert_eq!(canvas.get_pixel(1, 1), (9, 8, 7, 255));
    assert_eq!(canvas.get_pixel(0, 0), (0, 0, 0, 0));
    assert_eq!(canvas.get_pixel(2, 2), (0, 0, 0, 0));
}

#[test]
fn out_of_canvas_pixels_are_dropped() {
    let palette = [9u8, 8, 7];
    // A 2x2 frame anchored at (1,1) of a 2x2 canvas: only (1,1) lands inside.
    let f = frame(vec![0, 0, 0, 0], 1, 1, 2, 2, None);
    let canvas = frame_to_rgba(&f, &palette, 2, 2).unwrap();
    assert_eq!(canvas.get_pixel(1, 1), (9, 8, 7, 255));
    assert_eq!(canvas.get_pixel(0, 1), (0, 0, 0, 0));
    assert_eq!(canvas.get_pixel(1, 0), (0, 0, 0, 0));
}

#[test]
fn palette_index_past_the_palette_fails() {
    let palette = [1u8, 2, 3];
    let f = frame(vec![1], 0, 0, 1, 1, None);
    assert_eq!(frame_to_rgba(&f, &palette, 1, 1).unwrap_err(), PipelineError::DecodeError);
}

#[test]
fn short_frame_buffer_leaves_the_rest_untouched() {
    let palette = [1u8, 2, 3];
    let f = frame(vec![0], 0, 0, 2, 1, None);
    let canvas = frame_to_rgba(&f, &palette, 2, 1).unwrap();
    assert_eq!(canvas.get_pixel(0, 0), (1, 2, 3, 255));
    assert_eq!(canvas.get_pixel(1, 0), (0, 0, 0, 0));
}
