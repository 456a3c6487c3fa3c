use imagine_gif::canvas::Canvas;
use imagine_gif::error::PipelineError;
use imagine_gif::quantize::{find_nearest_color, rgba_to_indexed};

fn canvas_of_pixels(width: u16, height: u16, rgba: Vec<[u8; 4]>) -> Canvas {
    let mut pixels = Vec::new();
    for p in rgba {
        pixels.push(p[0]);
        pixels.push(p[1]);
        pixels.push(p[2]);
        pixels.push(p[3]);
    }
    Canvas { width, height, pixels }
}

#[test]
fn exact_match_picks_first_occurrence() {
    // The palette holds the same color at indices 0 and 2.
    let palette = vec![10u8, 20, 30, 40, 50, 60, 10, 20, 30];
    let image = canvas_of_pixels(1, 1, vec![[10, 20, 30, 255]]);
    let (indices, copy) = rgba_to_indexed(&image, 1, 1, &palette).unwrap();
    assert_eq!(indices, vec![0u8]);
    assert_eq!(copy, palette);
}

#[test]
fn alpha_127_flags_index_zero_and_128_does_not() {
    let palette = vec![0u8, 0, 0, 255, 255, 255];
    let image = canvas_of_pixels(2, 1, vec![[255, 255, 255, 127], [255, 255, 255, 128]]);
    let (indices, _) = rgba_to_indexed(&image, 2, 1, &palette).unwrap();
    assert_eq!(indices, vec![0u8, 1u8]);
}

#[test]
fn weighted_distance_decides_over_naive_distance() {
    // Both entries are 10 away from black by a naive per-channel measure,
    // but the weighted formula scores blue far lower than red.
    let colors = [[10u8, 0, 0], [0u8, 0, 10]];
    assert_eq!(find_nearest_color(&colors, &[0, 0, 0]), 1);
}

#[test]
fn equal_weighted_distances_resolve_to_lowest_index() {
    // (2,0,0) scores 12/10 = 1 and (0,0,4) scores 16/10 = 1: a true tie.
    let colors = [[2u8, 0, 0], [0u8, 0, 4]];
    assert_eq!(find_nearest_color(&colors, &[0, 0, 0]), 0);
}

#[test]
fn nearest_fallback_runs_inside_quantization() {
    let palette = vec![2u8, 0, 0, 0, 0, 4];
    let image = canvas_of_pixels(1, 1, vec![[0, 0, 0, 255]]);
    let (indices, _) = rgba_to_indexed(&image, 1, 1, &palette).unwrap();
    assert_eq!(indices, vec![0u8]);
}

#[test]
fn empty_palette_fails() {
    let image = canvas_of_pixels(1, 1, vec![[0, 0, 0, 255]]);
    assert_eq!(rgba_to_indexed(&image, 1, 1, &[]).unwrap_err(), PipelineError::QuantizeError);
    assert_eq!(
        rgba_to_indexed(&image, 1, 1, &[7, 7]).unwrap_err(),
        PipelineError::QuantizeError,
    );
}

#[test]
fn empty_color_list_gives_zero() {
    assert_eq!(find_nearest_color(&[], &[1, 2, 3]), 0);
}

#[test]
fn decode_then_requantize_reproduces_the_index_buffer() {
    let palette = vec![0u8, 0, 0, 255, 255, 255, 10, 20, 30];
    let buffer = vec![0u8, 1, 2, 1, 2, 0, 1, 0, 2];
    let frame = imagine_gif::codec::GifFrame {
        buffer: buffer.clone(),
        palette: None,
        left: 0,
        top: 0,
        width: 3,
        height: 3,
        delay: 0,
        dispose: gif::DisposalMethod::Keep,
        transparent: None,
        needs_user_input: false,
        interlaced: false,
    };
    let canvas = imagine_gif::decode::frame_to_rgba(&frame, &palette, 3, 3).unwrap();
    let (indices, copy) = rgba_to_indexed(&canvas, 3, 3, &palette).unwrap();
    assert_eq!(indices, buffer);
    assert_eq!(copy, palette);
}
