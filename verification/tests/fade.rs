use imagine_gif::fade::fade_params;

#[test]
fn alpha_invisible_through_frame_8() {
    for i in 0..=8u64 {
        let (alpha, blur) = fade_params(i);
        assert_eq!(alpha, 0);
        assert_eq!(blur, "");
    }
}

#[test]
fn alpha_ramp_starts_at_frame_9() {
    let (alpha, blur) = fade_params(9);
    assert_eq!(alpha, 31);
    assert_eq!(blur, "21.3988");
}

#[test]
fn alpha_saturates_when_the_ramp_ends() {
    assert_eq!(fade_params(28).0, 255);
    assert_eq!(fade_params(29).0, 255);
    assert_eq!(fade_params(29).1, "");
    assert_eq!(fade_params(1000).0, 255);
}

#[test]
fn alpha_is_monotonic_from_frame_8() {
    let mut prev = fade_params(8).0;
    for i in 9..=64u64 {
        let (alpha, _) = fade_params(i);
        assert!(alpha >= prev);
        prev = alpha;
    }
}

#[test]
fn blur_shrinks_as_alpha_grows() {
    let early: f64 = fade_params(9).1.parse().unwrap();
    let late: f64 = fade_params(27).1.parse().unwrap();
    assert!(early > late);
    assert!(late > 0.1);
}
