use partial_axis::{make_partial_axis, Fraction, IntoPartialAxis, RangedCoordI64};
use partial_axis::{DiscreteRanged, Ranged};

fn frac(num: i32, den: i32) -> Fraction {
    Fraction::new(num, den).unwrap()
}

#[test]
fn undecorated_axis_pixel_range_is_full_limit() {
    let coord = RangedCoordI64 { start: 0, end: 100 };
    assert_eq!(coord.axis_pixel_range((7, 42)), 7..42);
    assert_eq!(coord.axis_pixel_range((0, 1000)), 0..1000);
    assert_eq!(coord.axis_pixel_range((-5, 5)), -5..5);
}

#[test]
fn decorator_axis_pixel_range_is_normalized_mapped_display() {
    let coord = RangedCoordI64 { start: 0, end: 100 };
    let deco = (0i64..100i64).partial_axis(30..60);
    assert_eq!(coord.map(&30, (0, 200)), 60);
    assert_eq!(coord.map(&60, (0, 200)), 120);
    assert_eq!(deco.axis_pixel_range((0, 200)), 60..120);
}

#[test]
fn decorator_axis_pixel_range_normalizes_reversed_display() {
    let deco = (0i64..100i64).partial_axis(60..30);
    assert_eq!(deco.axis_pixel_range((0, 200)), 60..120);
}

#[test]
fn decorator_axis_pixel_range_normalizes_decreasing_mapping() {
    // with a reversed pixel limit the mapping decreases, and the reported
    // interval is still ordered low..high
    let coord = RangedCoordI64 { start: 0, end: 100 };
    let deco = (0i64..100i64).partial_axis(30..60);
    assert_eq!(coord.map(&30, (200, 0)), 140);
    assert_eq!(coord.map(&60, (200, 0)), 80);
    assert_eq!(deco.axis_pixel_range((200, 0)), 80..140);
}

#[test]
fn decoration_preserves_map() {
    let coord = RangedCoordI64 { start: -50, end: 50 };
    let deco = (-50i64..50i64).partial_axis(-10..10);
    for v in [-50i64, -10, -1, 0, 1, 10, 49, 50, 75, -200] {
        assert_eq!(deco.map(&v, (0, 100)), coord.map(&v, (0, 100)));
        assert_eq!(deco.map(&v, (13, 87)), coord.map(&v, (13, 87)));
    }
}

#[test]
fn decoration_preserves_range_and_key_points() {
    let coord = RangedCoordI64 { start: 0, end: 10 };
    let deco = (0i64..10i64).partial_axis(2..5);
    assert_eq!(deco.range(), 0..10);
    assert_eq!(deco.key_points(4), coord.key_points(4));
    assert_eq!(deco.key_points(100), coord.key_points(100));
}

#[test]
fn map_interpolates_linearly() {
    let coord = RangedCoordI64 { start: 0, end: 100 };
    assert_eq!(coord.map(&0, (0, 1000)), 0);
    assert_eq!(coord.map(&50, (0, 1000)), 500);
    assert_eq!(coord.map(&100, (0, 1000)), 1000);
    assert_eq!(coord.map(&33, (0, 1000)), 330);
}

#[test]
fn map_truncates_toward_zero() {
    let coord = RangedCoordI64 { start: -10, end: 10 };
    // -11 maps to 0 + trunc((-1) * 3 / 20) == 0, not floor(-0.15) == -1
    assert_eq!(coord.map(&-11, (0, 3)), 0);
    assert_eq!(coord.map(&9, (0, 3)), 2);
}

#[test]
fn map_extrapolates_and_clamps() {
    let coord = RangedCoordI64 { start: 0, end: 1 };
    assert_eq!(coord.map(&1000000000000, (0, 100)), i32::MAX);
    assert_eq!(coord.map(&-1000000000000, (0, 100)), i32::MIN);
}

#[test]
fn map_on_degenerate_domain_returns_limit_start() {
    let coord = RangedCoordI64 { start: 5, end: 5 };
    assert_eq!(coord.map(&5, (17, 60)), 17);
    assert_eq!(coord.map(&-3, (17, 60)), 17);
}

#[test]
fn key_points_spread_over_domain() {
    let coord = RangedCoordI64 { start: 0, end: 10 };
    assert_eq!(coord.key_points(5), vec![0, 2, 4, 6, 8]);
    assert_eq!(coord.key_points(20), vec![0, 1, 2, 3, 4, 5, 6, 7, 8, 9]);
    assert_eq!(coord.key_points(0), Vec::<i64>::new());
    let empty = RangedCoordI64 { start: 3, end: 3 };
    assert_eq!(empty.key_points(5), Vec::<i64>::new());
}

#[test]
fn key_points_never_exceed_budget() {
    let coord = RangedCoordI64 { start: -1000, end: 1000 };
    for budget in [1usize, 2, 3, 7, 100] {
        assert!(coord.key_points(budget).len() <= budget);
    }
}

#[test]
fn discrete_index_round_trip() {
    let coord = RangedCoordI64 { start: 10, end: 15 };
    assert_eq!(coord.size(), 5);
    for i in 0..coord.size() {
        let v = coord.from_index(i).unwrap();
        assert_eq!(coord.index_of(&v), Some(i));
    }
    assert_eq!(coord.from_index(5), None);
}

#[test]
fn discrete_value_round_trip() {
    let coord = RangedCoordI64 { start: -2, end: 3 };
    for v in -2i64..3 {
        let i = coord.index_of(&v).unwrap();
        assert_eq!(coord.from_index(i), Some(v));
    }
    assert_eq!(coord.index_of(&3), None);
    assert_eq!(coord.index_of(&-3), None);
}

#[test]
fn discrete_reversed_domain_is_empty() {
    let coord = RangedCoordI64 { start: 5, end: -5 };
    assert_eq!(coord.size(), 0);
    assert_eq!(coord.index_of(&0), None);
    assert_eq!(coord.from_index(0), None);
}

#[test]
fn decorator_forwards_discrete_capability() {
    let coord = RangedCoordI64 { start: 10, end: 15 };
    let deco = (10i64..15i64).partial_axis(11..13);
    assert_eq!(deco.size(), coord.size());
    for i in 0..deco.size() {
        assert_eq!(deco.from_index(i), coord.from_index(i));
        let v = deco.from_index(i).unwrap();
        assert_eq!(deco.index_of(&v), Some(i));
    }
}

#[test]
fn fraction_requires_positive_denominator() {
    assert!(Fraction::new(1, 2).is_some());
    assert!(Fraction::new(-3, 7).is_some());
    assert!(Fraction::new(1, 0).is_none());
    assert!(Fraction::new(1, -2).is_none());
}

#[test]
fn percentage_constructor_concrete_scenario() {
    // visible [10, 20) occupying [1/4, 3/4) of the axis: the full domain is
    // [5, 25), and over the pixel limit (0, 100) the axis spans [25, 75)
    let deco = make_partial_axis(10..20, frac(1, 4)..frac(3, 4)).unwrap();
    assert_eq!(deco.range(), 5..25);
    assert_eq!(deco.axis_pixel_range((0, 100)), 25..75);
}

#[test]
fn percentage_constructor_pixel_length_matches_fraction() {
    // the visible interval's pixel span has length limit * (p1 - p0)
    let deco = make_partial_axis(100..200, frac(1, 4)..frac(3, 4)).unwrap();
    assert_eq!(deco.range(), 50..250);
    let px = deco.axis_pixel_range((0, 1000));
    assert_eq!(px.end - px.start, 500);

    let tenth = make_partial_axis(0..100, frac(0, 1)..frac(1, 10)).unwrap();
    assert_eq!(tenth.range(), 0..1000);
    let px = tenth.axis_pixel_range((0, 1000));
    assert_eq!(px.end - px.start, 100);
    assert_eq!(px.start, 0);
}

#[test]
fn percentage_constructor_zero_width_part_fails() {
    assert!(make_partial_axis(0..100, frac(1, 2)..frac(1, 2)).is_none());
    assert!(make_partial_axis(0..100, frac(2, 4)..frac(1, 2)).is_none());
}

#[test]
fn percentage_constructor_unrepresentable_bounds_fail() {
    assert!(make_partial_axis(i64::MIN..i64::MAX, frac(1, 4)..frac(3, 4)).is_none());
}

#[test]
fn percentage_constructor_keeps_mapping_of_full_domain() {
    let deco = make_partial_axis(10..20, frac(1, 4)..frac(3, 4)).unwrap();
    let full = RangedCoordI64 { start: 5, end: 25 };
    for v in [5i64, 10, 15, 20, 24, 30, -5] {
        assert_eq!(deco.map(&v, (0, 100)), full.map(&v, (0, 100)));
    }
}

#[test]
fn percentage_constructor_permits_out_of_range_fractions() {
    // reversed or out-of-range fractions are not validated; the arithmetic
    // extrapolates. [0, 10) over the whole axis is the identity case.
    let whole = make_partial_axis(0..10, frac(0, 1)..frac(1, 1)).unwrap();
    assert_eq!(whole.range(), 0..10);
    assert_eq!(whole.axis_pixel_range((0, 100)), 0..100);
}

#[test]
fn percentage_constructor_reversed_fractions_flip_direction() {
    // a reversed part is not rejected: the back-solved domain comes out
    // reversed, the mapping decreases, and the displayed span is unchanged
    let deco = make_partial_axis(10..20, frac(3, 4)..frac(1, 4)).unwrap();
    assert_eq!(deco.range(), 25..5);
    assert_eq!(deco.axis_pixel_range((0, 100)), 25..75);
}

#[test]
fn key_points_on_huge_domain_stay_within_budget() {
    let coord = RangedCoordI64 { start: i64::MIN, end: i64::MAX };
    let pts = coord.key_points(3);
    assert_eq!(pts.len(), 3);
    assert_eq!(pts[0], i64::MIN);
    assert!(pts.windows(2).all(|w| w[0] < w[1]));
}

#[test]
fn decorator_clone_behaves_like_original() {
    let deco = (0i64..100i64).partial_axis(30..60);
    let copy = deco.clone();
    assert_eq!(copy.range(), deco.range());
    assert_eq!(copy.axis_pixel_range((0, 200)), deco.axis_pixel_range((0, 200)));
    assert_eq!(copy.map(&42, (0, 200)), deco.map(&42, (0, 200)));
}
