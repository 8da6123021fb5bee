//! Decisions on bit patterns, held against the machine's floating point.

use repose_scene::single::Single;

fn single(x: f32) -> Single {
    Single::from_bits(x.to_bits())
}

fn samples() -> Vec<f32> {
    vec![
        0.0,
        -0.0,
        f32::from_bits(1),
        -f32::from_bits(1),
        f32::MIN_POSITIVE,
        0.5,
        -0.5,
        0.999_999_94,
        1.0,
        -1.0,
        1.000_000_1,
        1.5,
        2.0,
        41.99,
        200.0,
        65_535.5,
        8_388_607.5,
        8_388_608.0,
        16_777_215.0,
        16_777_216.0,
        2_147_483_648.0,
        4_294_967_040.0,
        4_294_967_296.0,
        -4_294_967_296.0,
        f32::MAX,
        f32::MIN,
        f32::INFINITY,
        f32::NEG_INFINITY,
        f32::NAN,
        -f32::NAN,
    ]
}

#[test]
fn positive_is_above_zero() {
    for x in samples() {
        assert_eq!(single(x).is_positive(), x > 0.0, "{x}");
    }
}

#[test]
fn nonzero_is_not_equal_to_zero() {
    for x in samples() {
        assert_eq!(single(x).is_nonzero(), x != 0.0, "{x}");
    }
}

#[test]
fn larger_is_the_maximum() {
    for x in samples() {
        for y in samples() {
            let got = f32::from_bits(single(x).larger(single(y)).bits);
            let want = x.max(y);
            assert!(got == want || (got.is_nan() && want.is_nan()), "{x} {y}: {got}");
        }
    }
    assert_eq!(single(f32::NAN).larger(single(3.0)), single(3.0));
    assert_eq!(single(3.0).larger(single(f32::NAN)), single(3.0));
}

#[test]
fn clamped_is_held_to_the_unit_interval() {
    for x in samples() {
        let got = single(x).clamped_to_unit();
        assert_eq!(got.bits, x.clamp(0.0, 1.0).to_bits(), "{x}");
    }
}

#[test]
fn pixels_are_cut_and_saturate() {
    for x in samples() {
        assert_eq!(single(x).to_pixel(), x as u32, "{x}");
    }
    assert_eq!(single(41.99).to_pixel(), 41);
    assert_eq!(single(-0.5).to_pixel(), 0);
    assert_eq!(single(f32::NAN).to_pixel(), 0);
    assert_eq!(single(f32::INFINITY).to_pixel(), u32::MAX);
    assert_eq!(single(4_294_967_040.0).to_pixel(), 4_294_967_040);
}
