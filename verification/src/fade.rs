use vstd::prelude::*;

verus! {

/// Caption visibility for a zero-based frame index: the text is invisible
/// through frame 8, ramps up over the next 20 frames along the eased curve
/// `round(((i - 8) / 20) ^ 0.7 * 255)`, and is fully visible from frame 29 on.
/// The ramp values are fixed animation-timing constants.
pub open spec fn fade_alpha_spec(i: int) -> u8 {
    if i <= 8 {
        0u8
    } else if i == 9 {
        31u8
    } else if i == 10 {
        51u8
    } else if i == 11 {
        68u8
    } else if i == 12 {
        83u8
    } else if i == 13 {
        97u8
    } else if i == 14 {
        110u8
    } else if i == 15 {
        122u8
    } else if i == 16 {
        134u8
    } else if i == 17 {
        146u8
    } else if i == 18 {
        157u8
    } else if i == 19 {
        168u8
    } else if i == 20 {
        178u8
    } else if i == 21 {
        189u8
    } else if i == 22 {
        199u8
    } else if i == 23 {
        208u8
    } else if i == 24 {
        218u8
    } else if i == 25 {
        228u8
    } else if i == 26 {
        237u8
    } else if i == 27 {
        246u8
    } else {
        255u8
    }
}

/// The Gaussian blur radius applied to the text-presence mask at a given
/// frame, written as a decimal numeral: the radius follows
/// `(1 - alpha/255) ^ 1.2 * 25.0`, and a radius at or below 0.1 is treated
/// as no blur at all and written as the empty string.
pub open spec fn fade_blur_str_spec(i: int) -> Seq<char> {
    if i == 9 {
        "21.3988"@
    } else if i == 10 {
        "19.12705"@
    } else if i == 11 {
        "17.230652"@
    } else if i == 12 {
        "15.585687"@
    } else if i == 13 {
        "14.076034"@
    } else if i == 14 {
        "12.697944"@
    } else if i == 15 {
        "11.447582"@
    } else if i == 16 {
        "10.219608"@
    } else if i == 17 {
        "9.015786"@
    } else if i == 18 {
        "7.935295"@
    } else if i == 19 {
        "6.878835"@
    } else if i == 20 {
        "5.941289"@
    } else if i == 21 {
        "4.9379253"@
    } else if i == 22 {
        "4.0543146"@
    } else if i == 23 {
        "3.2855587"@
    } else if i == 24 {
        "2.465664"@
    } else if i == 25 {
        "1.6893837"@
    } else if i == 26 {
        "1.0385294"@
    } else if i == 27 {
        "0.4520462"@
    } else {
        ""@
    }
}

/// Whether a numeral is one of the fade curve's blur radii. Each of these
/// strings parses as a positive finite number.
pub open spec fn is_fade_radius_str(s: Seq<char>) -> bool {
    s == "21.3988"@ || s == "19.12705"@ || s == "17.230652"@ || s == "15.585687"@
        || s == "14.076034"@ || s == "12.697944"@ || s == "11.447582"@ || s == "10.219608"@
        || s == "9.015786"@ || s == "7.935295"@ || s == "6.878835"@ || s == "5.941289"@
        || s == "4.9379253"@ || s == "4.0543146"@ || s == "3.2855587"@ || s == "2.465664"@
        || s == "1.6893837"@ || s == "1.0385294"@ || s == "0.4520462"@
}

/// Every non-empty radius of the fade curve is one of the listed numerals.
pub proof fn lemma_fade_blur_str_valid(i: int)
    ensures
        fade_blur_str_spec(i).len() == 0 || is_fade_radius_str(fade_blur_str_spec(i)),
{
    if 9 <= i <= 27 {
    } else {
        reveal_strlit("");
    }
}

/// Per-frame render state: the caption alpha and the mask blur radius (as a
/// decimal numeral, empty meaning no blur), both pure functions of the frame
/// index.
pub fn fade_params(frame_index: u64) -> (r: (u8, &'static str))
    ensures
        r.0 == fade_alpha_spec(frame_index as int),
        r.1@ == fade_blur_str_spec(frame_index as int),
{
    if frame_index <= 8 {
        (0u8, "")
    } else if frame_index == 9 {
        (31u8, "21.3988")
    } else if frame_index == 10 {
        (51u8, "19.12705")
    } else if frame_index == 11 {
        (68u8, "17.230652")
    } else if frame_index == 12 {
        (83u8, "15.585687")
    } else if frame_index == 13 {
        (97u8, "14.076034")
    } else if frame_index == 14 {
        (110u8, "12.697944")
    } else if frame_index == 15 {
        (122u8, "11.447582")
    } else if frame_index == 16 {
        (134u8, "10.219608")
    } else if frame_index == 17 {
        (146u8, "9.015786")
    } else if frame_index == 18 {
        (157u8, "7.935295")
    } else if frame_index == 19 {
        (168u8, "6.878835")
    } else if frame_index == 20 {
        (178u8, "5.941289")
    } else if frame_index == 21 {
        (189u8, "4.9379253")
    } else if frame_index == 22 {
        (199u8, "4.0543146")
    } else if frame_index == 23 {
        (208u8, "3.2855587")
    } else if frame_index == 24 {
        (218u8, "2.465664")
    } else if frame_index == 25 {
        (228u8, "1.6893837")
    } else if frame_index == 26 {
        (237u8, "1.0385294")
    } else if frame_index == 27 {
        (246u8, "0.4520462")
    } else {
        (255u8, "")
    }
}

/// The fade curve starts at zero, ends saturated: frame 8 is still invisible
/// and frame 29 is fully visible.
pub proof fn lemma_fade_alpha_endpoints()
    ensures
        fade_alpha_spec(8) == 0,
        fade_alpha_spec(29) == 255,
{
}

/// The caption alpha is a non-decreasing step function of the frame index
/// from frame 8 onward.
pub proof fn lemma_fade_alpha_monotonic(i: int, j: int)
    requires
        8 <= i <= j,
    ensures
        fade_alpha_spec(i) <= fade_alpha_spec(j),
{
}

} // verus!
