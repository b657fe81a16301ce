//! Rate curves: endpoint exactness, range, and exact table values.

use tweenline::ease::EaseType;
use tweenline::units::UNIT;

fn all_kinds() -> Vec<EaseType> {
    vec![
        EaseType::Linear,
        EaseType::Quad,
        EaseType::QuadIn,
        EaseType::QuadOut,
        EaseType::Cubic,
        EaseType::CubicIn,
        EaseType::CubicOut,
        EaseType::Quart,
        EaseType::QuartIn,
        EaseType::QuartOut,
        EaseType::Quint,
        EaseType::QuintIn,
        EaseType::QuintOut,
        EaseType::Bounce,
        EaseType::BounceIn,
        EaseType::BounceOut,
    ]
}

#[test]
fn every_curve_fixes_both_endpoints() {
    for kind in all_kinds() {
        assert_eq!(kind.calculate(0), 0);
        assert_eq!(kind.calculate(UNIT), UNIT);
    }
}

#[test]
fn every_curve_stays_inside_the_unit_interval() {
    for kind in all_kinds() {
        let mut p = 0;
        while p <= UNIT {
            assert!(kind.calculate(p) <= UNIT);
            p += UNIT / 40;
        }
    }
}

#[test]
fn linear_is_the_identity() {
    assert_eq!(EaseType::Linear.calculate(123_456), 123_456);
    assert_eq!(EaseType::Linear.calculate(999_999), 999_999);
}

#[test]
fn polynomial_curves_hit_their_exact_midpoints() {
    // In-curves at one half: (1/2)^n.
    assert_eq!(EaseType::QuadIn.calculate(UNIT / 2), 250_000);
    assert_eq!(EaseType::CubicIn.calculate(UNIT / 2), 125_000);
    assert_eq!(EaseType::QuartIn.calculate(UNIT / 2), 62_500);
    assert_eq!(EaseType::QuintIn.calculate(UNIT / 2), 31_250);
    // Out-curves mirror the in-curves.
    assert_eq!(EaseType::QuadOut.calculate(UNIT / 2), 750_000);
    assert_eq!(EaseType::CubicOut.calculate(UNIT / 2), 875_000);
    // In-out curves pass through the centre.
    assert_eq!(EaseType::Quad.calculate(UNIT / 2), 500_000);
    assert_eq!(EaseType::Quint.calculate(UNIT / 2), 500_000);
}

#[test]
fn bounce_out_matches_the_table() {
    // At one half: 121/16 * (1/2 - 6/11)^2 + 3/4 = 0.765625.
    assert_eq!(EaseType::BounceOut.calculate(UNIT / 2), 765_625);
    // In the first arc: 121/16 * t^2 at t = 1/4.
    assert_eq!(
        EaseType::BounceOut.calculate(UNIT / 4),
        121 * 250_000u64 * 250_000 / (16 * UNIT)
    );
}

#[test]
fn quad_in_matches_the_square() {
    let mut p = 0;
    while p <= UNIT {
        assert_eq!(EaseType::QuadIn.calculate(p), p * p / UNIT);
        p += 61_803;
    }
}
