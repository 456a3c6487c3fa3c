use vstd::prelude::*;
use crate::canvas::{px, Canvas};
use crate::error::PipelineError;

verus! {

/// Absolute difference of two channel values.
pub open spec fn abs_diff(a: u8, b: u8) -> int {
    if a >= b {
        a - b
    } else {
        b - a
    }
}

/// The perceptually weighted squared color distance: red weighted 3, green
/// 6, blue 1, scaled down by 10.
pub open spec fn wdist(cr: u8, cg: u8, cb: u8, tr: u8, tg: u8, tb: u8) -> int {
    (3 * abs_diff(cr, tr) * abs_diff(cr, tr) + 6 * abs_diff(cg, tg) * abs_diff(cg, tg)
        + abs_diff(cb, tb) * abs_diff(cb, tb)) / 10
}

/// Distance from palette entry `i` to the target color.
pub open spec fn pal_dist(pal: Seq<u8>, i: int, tr: u8, tg: u8, tb: u8) -> int {
    wdist(pal[3 * i], pal[3 * i + 1], pal[3 * i + 2], tr, tg, tb)
}

/// Distance from entry `i` of a color list to the target color.
pub open spec fn arr_dist(colors: Seq<[u8; 3]>, i: int, t: [u8; 3]) -> int {
    wdist(colors[i][0], colors[i][1], colors[i][2], t[0], t[1], t[2])
}

/// How many complete color entries the palette offers, capped at 256.
pub open spec fn palette_color_count(pal: Seq<u8>) -> int {
    if pal.len() as int / 3 > 256 {
        256
    } else {
        pal.len() as int / 3
    }
}

/// Whether two palette entries hold the same color.
pub open spec fn same_triplet(pal: Seq<u8>, i: int, j: int) -> bool {
    pal[3 * i] == pal[3 * j] && pal[3 * i + 1] == pal[3 * j + 1] && pal[3 * i + 2] == pal[3 * j
        + 2]
}

/// Whether palette entry `i` is exactly the target color.
pub open spec fn exact_match_at(pal: Seq<u8>, i: int, tr: u8, tg: u8, tb: u8) -> bool {
    pal[3 * i] == tr && pal[3 * i + 1] == tg && pal[3 * i + 2] == tb
}

/// The first palette entry at or after `k` that is exactly the target color,
/// or -1 when none is.
pub open spec fn first_exact_from(pal: Seq<u8>, count: int, k: int, tr: u8, tg: u8, tb: u8) -> int
    decreases count - k,
{
    if k >= count {
        -1
    } else if exact_match_at(pal, k, tr, tg, tb) {
        k
    } else {
        first_exact_from(pal, count, k + 1, tr, tg, tb)
    }
}

/// The entry of the first `k` palette colors nearest to the target by the
/// weighted distance, earlier entries winning ties.
pub open spec fn argmin_pal(pal: Seq<u8>, k: int, tr: u8, tg: u8, tb: u8) -> int
    decreases k,
{
    if k <= 1 {
        0
    } else {
        let prev = argmin_pal(pal, k - 1, tr, tg, tb);
        if pal_dist(pal, k - 1, tr, tg, tb) < pal_dist(pal, prev, tr, tg, tb) {
            k - 1
        } else {
            prev
        }
    }
}

/// The palette index an opaque pixel of the given color quantizes to: the
/// exact match when one exists, else the nearest entry.
pub open spec fn opaque_index(pal: Seq<u8>, tr: u8, tg: u8, tb: u8) -> int {
    let e = first_exact_from(pal, palette_color_count(pal), 0, tr, tg, tb);
    if e >= 0 {
        e
    } else {
        argmin_pal(pal, palette_color_count(pal), tr, tg, tb)
    }
}

/// The palette index one RGBA pixel quantizes to: near-transparent pixels
/// are flagged to index 0 unconditionally; all others resolve by color.
pub open spec fn quant_pixel(pal: Seq<u8>, tr: u8, tg: u8, tb: u8, ta: u8) -> int {
    if ta < 128 {
        0
    } else {
        opaque_index(pal, tr, tg, tb)
    }
}

/// One byte of a quantized index buffer, read row-major.
pub open spec fn ipx(buf: Seq<u8>, width: int, x: int, y: int) -> u8 {
    buf[y * width + x]
}

/// The chosen entry of `argmin_pal` lies in range, its distance is minimal,
/// and every earlier entry is strictly farther.
pub proof fn lemma_argmin_pal_props(pal: Seq<u8>, k: int, tr: u8, tg: u8, tb: u8)
    requires
        1 <= k,
    ensures
        0 <= argmin_pal(pal, k, tr, tg, tb) < k,
        forall|j: int|
            0 <= j < k ==> pal_dist(pal, argmin_pal(pal, k, tr, tg, tb), tr, tg, tb)
                <= #[trigger] pal_dist(pal, j, tr, tg, tb),
        forall|j: int|
            0 <= j < argmin_pal(pal, k, tr, tg, tb) ==> #[trigger] pal_dist(pal, j, tr, tg, tb)
                > pal_dist(pal, argmin_pal(pal, k, tr, tg, tb), tr, tg, tb),
    decreases k,
{
    if k == 1 {
    } else {
        lemma_argmin_pal_props(pal, k - 1, tr, tg, tb);
    }
}

/// An index with an exact match, before which nothing matches, is what the
/// exact-match scan returns.
pub proof fn lemma_first_exact_of_match(
    pal: Seq<u8>,
    count: int,
    k: int,
    i: int,
    tr: u8,
    tg: u8,
    tb: u8,
)
    requires
        0 <= k <= i < count,
        exact_match_at(pal, i, tr, tg, tb),
        forall|j: int| k <= j < i ==> !#[trigger] exact_match_at(pal, j, tr, tg, tb),
    ensures
        first_exact_from(pal, count, k, tr, tg, tb) == i,
    decreases i - k,
{
    if k < i {
        lemma_first_exact_of_match(pal, count, k + 1, i, tr, tg, tb);
    }
}

/// A pixel of alpha 127 is always flagged to index 0; from alpha 128 upward
/// the index is determined by the color alone, never forced to 0 by the
/// alpha.
pub proof fn lemma_alpha_threshold(pal: Seq<u8>, tr: u8, tg: u8, tb: u8)
    ensures
        quant_pixel(pal, tr, tg, tb, 127) == 0,
        quant_pixel(pal, tr, tg, tb, 128) == opaque_index(pal, tr, tg, tb),
        forall|a: u8|
            a >= 128 ==> #[trigger] quant_pixel(pal, tr, tg, tb, a) == opaque_index(
                pal,
                tr,
                tg,
                tb,
            ),
{
}

/// With no exact match in the palette, an opaque pixel resolves to the
/// entry nearest by the weighted distance, and a tie between equally
/// distant entries resolves to the lowest index.
pub proof fn lemma_nearest_color_law(pal: Seq<u8>, tr: u8, tg: u8, tb: u8)
    requires
        palette_color_count(pal) >= 1,
        first_exact_from(pal, palette_color_count(pal), 0, tr, tg, tb) == -1,
    ensures
        0 <= opaque_index(pal, tr, tg, tb) < palette_color_count(pal),
        forall|j: int|
            0 <= j < palette_color_count(pal) ==> pal_dist(
                pal,
                opaque_index(pal, tr, tg, tb),
                tr,
                tg,
                tb,
            ) <= #[trigger] pal_dist(pal, j, tr, tg, tb),
        forall|j: int|
            0 <= j < opaque_index(pal, tr, tg, tb) ==> #[trigger] pal_dist(pal, j, tr, tg, tb)
                > pal_dist(pal, opaque_index(pal, tr, tg, tb), tr, tg, tb),
{
    lemma_argmin_pal_props(pal, palette_color_count(pal), tr, tg, tb);
}

/// Finds the palette entry nearest to the target by the weighted distance,
/// scanning linearly; ties go to the lowest index, and an empty list gives 0.
pub fn find_nearest_color(colors: &[[u8; 3]], target: &[u8; 3]) -> (r: usize)
    ensures
        colors@.len() == 0 ==> r == 0,
        colors@.len() > 0 ==> r < colors@.len()
            && (forall|j: int|
                0 <= j < colors@.len() ==> arr_dist(colors@, r as int, *target)
                    <= #[trigger] arr_dist(colors@, j, *target))
            && (forall|j: int|
                0 <= j < r ==> #[trigger] arr_dist(colors@, j, *target)
                    > arr_dist(colors@, r as int, *target)),
{
    let mut min_distance: u32 = u32::MAX;
    let mut best_index: usize = 0;
    let n: usize = colors.len();
    let mut index: usize = 0;
    while index < n
        invariant
            n == colors@.len(),
            index <= n,
            index == 0 ==> best_index == 0 && min_distance == u32::MAX,
            index > 0 ==> best_index < index && min_distance
                == arr_dist(colors@, best_index as int, *target),
            forall|j: int|
                0 <= j < index ==> min_distance <= #[trigger] arr_dist(colors@, j, *target),
            forall|j: int|
                0 <= j < best_index ==> #[trigger] arr_dist(colors@, j, *target) > min_distance,
        decreases n - index,
    {
        let color: [u8; 3] = colors[index];
        let dr: u32 = if color[0] >= target[0] {
            (color[0] - target[0]) as u32
        } else {
            (target[0] - color[0]) as u32
        };
        let dg: u32 = if color[1] >= target[1] {
            (color[1] - target[1]) as u32
        } else {
            (target[1] - color[1]) as u32
        };
        let db: u32 = if color[2] >= target[2] {
            (color[2] - target[2]) as u32
        } else {
            (target[2] - color[2]) as u32
        };
        proof {
            assert(dr as int == abs_diff(color[0], target[0]));
            assert(dg as int == abs_diff(color[1], target[1]));
            assert(db as int == abs_diff(color[2], target[2]));
            assert((3 * (dr as int)) * (dr as int) <= 195075) by (nonlinear_arith)
                requires
                    0 <= dr <= 255,
            ;
            assert((6 * (dg as int)) * (dg as int) <= 390150) by (nonlinear_arith)
                requires
                    0 <= dg <= 255,
            ;
            assert((db as int) * (db as int) <= 65025) by (nonlinear_arith)
                requires
                    0 <= db <= 255,
            ;
        }
        let distance: u32 = (3 * dr * dr + 6 * dg * dg + db * db) / 10;
        assert(distance == arr_dist(colors@, index as int, *target));
        if distance < min_distance {
            min_distance = distance;
            best_index = index;
        }
        index = index + 1;
    }
    best_index
}

/// In row-major order, every position of an earlier row, or earlier in the
/// same row, has a smaller flat index.
pub proof fn lemma_row_major_lt(w: int, x1: int, y1: int, x2: int, y2: int)
    requires
        0 <= x1 < w,
        0 <= x2,
        y1 < y2 || (y1 == y2 && x1 < x2),
    ensures
        y1 * w + x1 < y2 * w + x2,
{
    if y1 == y2 {
    } else {
        assert(y1 * w + x1 < y2 * w + x2) by (nonlinear_arith)
            requires
                0 <= x1 < w,
                0 <= x2,
                y1 < y2,
        ;
    }
}

/// Scans the palette for the first entry exactly matching the target color.
fn exact_index(palette: &[u8], count: usize, tr: u8, tg: u8, tb: u8) -> (res: Option<usize>)
    requires
        3 * count <= palette@.len(),
    ensures
        res matches Some(i) ==> i < count
            && first_exact_from(palette@, count as int, 0, tr, tg, tb) == i,
        res is None ==> first_exact_from(palette@, count as int, 0, tr, tg, tb) == -1,
{
    let pal_n: usize = palette.len();
    let mut j: usize = 0;
    while j < count
        invariant
            j <= count,
            pal_n == palette@.len(),
            3 * count <= palette@.len(),
            first_exact_from(palette@, count as int, 0, tr, tg, tb)
                == first_exact_from(palette@, count as int, j as int, tr, tg, tb),
        decreases count - j,
    {
        if palette[3 * j] == tr && palette[3 * j + 1] == tg && palette[3 * j + 2] == tb {
            return Some(j);
        }
        j = j + 1;
    }
    None
}

/// Maps every pixel of a final RGBA canvas back to an index into the
/// original palette: near-transparent pixels to index 0, others to the exact
/// or nearest entry, and hands back an untouched copy of the palette. Fails
/// exactly when the palette holds no complete color entry.
pub fn rgba_to_indexed(image: &Canvas, width: u16, height: u16, original_palette: &[u8]) -> (r:
    Result<(Vec<u8>, Vec<u8>), PipelineError>)
    requires
        image.wf(),
        image.width == width,
        image.height == height,
    ensures
        r matches Err(e) ==> e == PipelineError::QuantizeError
            && palette_color_count(original_palette@) == 0,
        r matches Ok(p) ==> palette_color_count(original_palette@) > 0
            && p.1@ == original_palette@
            && p.0@.len() == (width as int) * (height as int)
            && forall|x: int, y: int|
                0 <= x < width && 0 <= y < height
                    ==> #[trigger] ipx(p.0@, width as int, x, y) as int
                        == quant_pixel(
                        original_palette@,
                        px(image.pixels@, width as int, x, y, 0),
                        px(image.pixels@, width as int, x, y, 1),
                        px(image.pixels@, width as int, x, y, 2),
                        px(image.pixels@, width as int, x, y, 3),
                    ),
{
    let pal_len: usize = original_palette.len();
    let palette_colors: usize = pal_len / 3;
    let count: usize = if palette_colors > 256 {
        256
    } else {
        palette_colors
    };
    if count == 0 {
        return Err(PipelineError::QuantizeError);
    }
    let mut colors: Vec<[u8; 3]> = Vec::new();
    let mut i: usize = 0;
    while i < count
        invariant
            i <= count,
            count == palette_color_count(original_palette@),
            pal_len == original_palette@.len(),
            3 * count <= pal_len,
            colors@.len() == i,
            forall|j: int|
                0 <= j < i ==> (#[trigger] colors@[j])[0] == original_palette@[3 * j]
                    && colors@[j][1] == original_palette@[3 * j + 1]
                    && colors@[j][2] == original_palette@[3 * j + 2],
        decreases count - i,
    {
        colors.push([
            original_palette[3 * i],
            original_palette[3 * i + 1],
            original_palette[3 * i + 2],
        ]);
        i = i + 1;
    }
    let mut indexed: Vec<u8> = Vec::new();
    let mut y: u16 = 0;
    while y < height
        invariant
            y <= height,
            image.wf(),
            image.width == width,
            image.height == height,
            count == palette_color_count(original_palette@),
            count >= 1,
            pal_len == original_palette@.len(),
            3 * count <= pal_len,
            colors@.len() == count,
            forall|j: int|
                0 <= j < count ==> (#[trigger] colors@[j])[0] == original_palette@[3 * j]
                    && colors@[j][1] == original_palette@[3 * j + 1]
                    && colors@[j][2] == original_palette@[3 * j + 2],
            indexed@.len() == (y as int) * (width as int),
            forall|x2: int, y2: int|
                0 <= x2 < width && 0 <= y2 < y
                    ==> #[trigger] ipx(indexed@, width as int, x2, y2) as int
                        == quant_pixel(
                        original_palette@,
                        px(image.pixels@, width as int, x2, y2, 0),
                        px(image.pixels@, width as int, x2, y2, 1),
                        px(image.pixels@, width as int, x2, y2, 2),
                        px(image.pixels@, width as int, x2, y2, 3),
                    ),
        decreases height - y,
    {
        let mut x: u16 = 0;
        while x < width
            invariant
                x <= width,
                y < height,
                image.wf(),
                image.width == width,
                image.height == height,
                count == palette_color_count(original_palette@),
                count >= 1,
                pal_len == original_palette@.len(),
                3 * count <= pal_len,
                colors@.len() == count,
                forall|j: int|
                    0 <= j < count ==> (#[trigger] colors@[j])[0] == original_palette@[3 * j]
                        && colors@[j][1] == original_palette@[3 * j + 1]
                        && colors@[j][2] == original_palette@[3 * j + 2],
                indexed@.len() == (y as int) * (width as int) + (x as int),
                forall|x2: int, y2: int|
                    0 <= x2 < width && (y2 < y || (y2 == y && x2 < x)) && 0 <= y2
                        ==> #[trigger] ipx(indexed@, width as int, x2, y2) as int
                            == quant_pixel(
                            original_palette@,
                            px(image.pixels@, width as int, x2, y2, 0),
                            px(image.pixels@, width as int, x2, y2, 1),
                            px(image.pixels@, width as int, x2, y2, 2),
                            px(image.pixels@, width as int, x2, y2, 3),
                        ),
            decreases width - x,
        {
            let ghost prev = indexed@;
            let (pr, pg, pb, pa) = image.get_pixel(x, y);
            let chosen: u8 = if pa < 128 {
                0u8
            } else {
                match exact_index(original_palette, count, pr, pg, pb) {
                    Some(idx) => idx as u8,
                    None => {
                        let target: [u8; 3] = [pr, pg, pb];
                        let nc = find_nearest_color(colors.as_slice(), &target);
                        proof {
                            lemma_argmin_pal_props(original_palette@, count as int, pr, pg, pb);
                            let am: int = argmin_pal(original_palette@, count as int, pr, pg, pb);
                            assert forall|j: int| 0 <= j < count
                                implies #[trigger] arr_dist(colors@, j, target)
                                    == pal_dist(original_palette@, j, pr, pg, pb) by {
                            }
                            if (nc as int) < am {
                                assert(pal_dist(original_palette@, nc as int, pr, pg, pb)
                                    > pal_dist(original_palette@, am, pr, pg, pb));
                                assert(arr_dist(colors@, am, target)
                                    >= arr_dist(colors@, nc as int, target));
                                assert(false);
                            }
                            if am < (nc as int) {
                                assert(arr_dist(colors@, am, target)
                                    > arr_dist(colors@, nc as int, target));
                                assert(pal_dist(original_palette@, nc as int, pr, pg, pb)
                                    >= pal_dist(original_palette@, am, pr, pg, pb));
                                assert(false);
                            }
                            assert(nc as int == am);
                        }
                        nc as u8
                    },
                }
            };
            indexed.push(chosen);
            proof {
                assert(chosen as int == quant_pixel(
                    original_palette@,
                    px(image.pixels@, width as int, x as int, y as int, 0),
                    px(image.pixels@, width as int, x as int, y as int, 1),
                    px(image.pixels@, width as int, x as int, y as int, 2),
                    px(image.pixels@, width as int, x as int, y as int, 3),
                ));
                assert forall|x2: int, y2: int|
                    0 <= x2 < width && (y2 < y || (y2 == y && x2 < x + 1)) && 0 <= y2
                        implies #[trigger] ipx(indexed@, width as int, x2, y2) as int
                            == quant_pixel(
                            original_palette@,
                            px(image.pixels@, width as int, x2, y2, 0),
                            px(image.pixels@, width as int, x2, y2, 1),
                            px(image.pixels@, width as int, x2, y2, 2),
                            px(image.pixels@, width as int, x2, y2, 3),
                        ) by {
                    if y2 == y && x2 == x {
                        assert(ipx(indexed@, width as int, x2, y2) == chosen);
                    } else {
                        lemma_row_major_lt(width as int, x2, y2, x as int, y as int);
                        assert(ipx(indexed@, width as int, x2, y2) == ipx(prev, width as int, x2, y2));
                    }
                }
            }
            x = x + 1;
        }
        proof {
            assert(((y as int) + 1) * (width as int) == (y as int) * (width as int) + (width as int))
                by (nonlinear_arith);
        }
        y = y + 1;
    }
    let mut palette_copy: Vec<u8> = Vec::new();
    let mut k: usize = 0;
    while k < pal_len
        invariant
            k <= pal_len,
            pal_len == original_palette@.len(),
            palette_copy@ == original_palette@.take(k as int),
        decreases pal_len - k,
    {
        palette_copy.push(original_palette[k]);
        proof {
            assert(palette_copy@ =~= original_palette@.take(k + 1));
        }
        k = k + 1;
    }
    proof {
        assert(palette_copy@ =~= original_palette@);
        assert(((height as int)) * (width as int) == (width as int) * (height as int))
            by (nonlinear_arith);
    }
    Ok((indexed, palette_copy))
}

} // verus!
