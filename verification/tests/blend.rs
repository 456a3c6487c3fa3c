use imagine_gif::blend::{blend_canvases, blur_mask, build_mask};
use imagine_gif::canvas::Canvas;

fn solid_canvas(width: u16, height: u16, rgba: [u8; 4]) -> Canvas {
    let mut pixels = Vec::new();
    for _ in 0..(width as usize) * (height as usize) {
        pixels.extend_from_slice(&rgba);
    }
    Canvas { width, height, pixels }
}

#[test]
fn mask_marks_differing_pixels_white() {
    let orig = solid_canvas(2, 1, [10, 10, 10, 255]);
    let mut text = solid_canvas(2, 1, [10, 10, 10, 255]);
    text.set_pixel(1, 0, 200, 200, 200, 255);
    let mask = build_mask(&orig, &text);
    assert_eq!(mask.get_pixel(0, 0), (0, 0, 0, 255));
    assert_eq!(mask.get_pixel(1, 0), (255, 255, 255, 255));
}

#[test]
fn blur_spreads_the_mask() {
    let mut mask = solid_canvas(5, 5, [0, 0, 0, 255]);
    mask.set_pixel(2, 2, 255, 255, 255, 255);
    let blurred = blur_mask(mask, "1.6893837");
    // The white center bleeds into its neighbours and dims itself.
    let center = blurred.get_pixel(2, 2).0;
    let edge = blurred.get_pixel(0, 0).0;
    let neighbour = blurred.get_pixel(2, 1).0;
    assert!(center < 255);
    assert!(neighbour > edge);
    assert!(neighbour > 0);
}

#[test]
fn empty_radius_leaves_the_mask_untouched() {
    let mut mask = solid_canvas(3, 3, [0, 0, 0, 255]);
    mask.set_pixel(1, 1, 255, 255, 255, 255);
    let same = blur_mask(mask, "");
    assert_eq!(same.get_pixel(1, 1), (255, 255, 255, 255));
    assert_eq!(same.get_pixel(0, 0), (0, 0, 0, 255));
}

#[test]
fn blend_interpolates_between_the_rasters() {
    let orig = solid_canvas(1, 1, [0, 0, 0, 255]);
    let text = solid_canvas(1, 1, [255, 255, 255, 255]);
    // A fully white mask with alpha 51 boosts visibility to 153/255.
    let mask = solid_canvas(1, 1, [255, 255, 255, 255]);
    let blended = blend_canvases(&orig, &text, &mask, 51);
    assert_eq!(blended.get_pixel(0, 0), (153, 153, 153, 255));
}

#[test]
fn black_mask_keeps_the_original() {
    let orig = solid_canvas(1, 1, [12, 34, 56, 255]);
    let text = solid_canvas(1, 1, [255, 255, 255, 255]);
    let mask = solid_canvas(1, 1, [0, 0, 0, 255]);
    let blended = blend_canvases(&orig, &text, &mask, 200);
    assert_eq!(blended.get_pixel(0, 0), (12, 34, 56, 255));
}
