use anime::geometry::{Coord, Line, Rect, Span};
use anime::overlap::{overlap_range, x_range, y_range};

fn coord(x: f64, y: f64) -> Coord {
    Coord {
        x: x.to_bits(),
        y: y.to_bits(),
    }
}

fn span(start: f64, end: f64) -> Span {
    Span {
        start: start.to_bits(),
        end: end.to_bits(),
    }
}

fn samples() -> Vec<f64> {
    vec![
        0.0,
        -0.0,
        1.0,
        -1.0,
        5.0,
        10.0,
        -7.25,
        f64::MAX,
        f64::MIN,
        f64::INFINITY,
        f64::NEG_INFINITY,
        f64::NAN,
    ]
}

#[test]
fn test_x_range() {
    let rect = Rect::new(coord(0.0, 0.0), coord(10.0, 5.0));
    let range = x_range(&rect);
    assert_eq!(f64::from_bits(range.start), 0.0);
    assert_eq!(f64::from_bits(range.end), 10.0);
}

#[test]
fn test_y_range() {
    let rect = Rect::new(coord(0.0, 0.0), coord(10.0, 5.0));
    let range = y_range(&rect);
    assert_eq!(f64::from_bits(range.start), 0.0);
    assert_eq!(f64::from_bits(range.end), 5.0);
}

#[test]
fn test_overlap_range_with_overlap() {
    let r1 = span(0.0, 10.0);
    let r2 = span(5.0, 15.0);
    let overlap = overlap_range(r1, r2);
    assert!(overlap.is_some());
    let overlap = overlap.unwrap();
    assert_eq!(f64::from_bits(overlap.start), 5.0);
    assert_eq!(f64::from_bits(overlap.end), 10.0);
}

#[test]
fn test_overlap_range_no_overlap() {
    let r1 = span(0.0, 5.0);
    let r2 = span(10.0, 15.0);
    let overlap = overlap_range(r1, r2);
    assert!(overlap.is_none());
}

#[test]
fn test_overlap_range_touching() {
    let r1 = span(0.0, 5.0);
    let r2 = span(5.0, 10.0);
    let overlap = overlap_range(r1, r2);
    assert!(overlap.is_some());
    let overlap = overlap.unwrap();
    assert_eq!(f64::from_bits(overlap.start), 5.0);
    assert_eq!(f64::from_bits(overlap.end), 5.0);
}

#[test]
fn test_overlap_range_complete_overlap() {
    let r1 = span(0.0, 10.0);
    let r2 = span(2.0, 8.0);
    let overlap = overlap_range(r1, r2);
    assert!(overlap.is_some());
    let overlap = overlap.unwrap();
    assert_eq!(f64::from_bits(overlap.start), 2.0);
    assert_eq!(f64::from_bits(overlap.end), 8.0);
}

#[test]
fn test_overlap_range_reverse_order() {
    let r1 = span(5.0, 15.0);
    let r2 = span(0.0, 10.0);
    let overlap = overlap_range(r1, r2);
    assert!(overlap.is_some());
    let overlap = overlap.unwrap();
    assert_eq!(f64::from_bits(overlap.start), 5.0);
    assert_eq!(f64::from_bits(overlap.end), 10.0);
}

#[test]
fn overlap_range_of_negative_intervals() {
    let overlap = overlap_range(span(-10.0, -2.0), span(-4.0, 3.0)).unwrap();
    assert_eq!(f64::from_bits(overlap.start), -4.0);
    assert_eq!(f64::from_bits(overlap.end), -2.0);
    assert!(overlap_range(span(-10.0, -5.0), span(-4.0, 3.0)).is_none());
}

#[test]
fn overlap_range_with_a_bound_that_is_not_a_number() {
    // No comparison with such a bound holds, so nothing rules the overlap
    // out; the bound itself is passed over by max and min.
    let overlap = overlap_range(span(f64::NAN, 5.0), span(1.0, f64::NAN)).unwrap();
    assert_eq!(f64::from_bits(overlap.start), 1.0);
    assert_eq!(f64::from_bits(overlap.end), 5.0);
}

#[test]
fn overlap_range_agrees_with_the_numbers() {
    for a in samples() {
        for b in samples() {
            for c in samples() {
                for d in samples() {
                    let got = overlap_range(span(a, b), span(c, d));
                    if b < c || d < a {
                        assert!(got.is_none());
                    } else {
                        let got = got.unwrap();
                        let (start, end) = (a.max(c), b.min(d));
                        if start.is_nan() {
                            assert!(f64::from_bits(got.start).is_nan());
                        } else {
                            assert_eq!(f64::from_bits(got.start), start);
                        }
                        if end.is_nan() {
                            assert!(f64::from_bits(got.end).is_nan());
                        } else {
                            assert_eq!(f64::from_bits(got.end), end);
                        }
                    }
                }
            }
        }
    }
}

#[test]
fn rect_new_orders_the_corners() {
    let rect = Rect::new(coord(10.0, -3.0), coord(0.0, 5.0));
    assert_eq!(rect.min, coord(0.0, -3.0));
    assert_eq!(rect.max, coord(10.0, 5.0));
}

#[test]
fn rect_new_agrees_with_geo_types() {
    for x1 in samples() {
        for x2 in samples() {
            let y1 = x2;
            let y2 = x1;
            let want = geo_types::Rect::new(
                geo_types::Coord { x: x1, y: y1 },
                geo_types::Coord { x: x2, y: y2 },
            );
            let got = Rect::new(coord(x1, y1), coord(x2, y2));
            assert_eq!(got.min.x, want.min().x.to_bits());
            assert_eq!(got.min.y, want.min().y.to_bits());
            assert_eq!(got.max.x, want.max().x.to_bits());
            assert_eq!(got.max.y, want.max().y.to_bits());
        }
    }
}

#[test]
fn bounding_rect_of_a_line() {
    let line = Line {
        start: coord(5.0, 5.0),
        end: coord(1.0, 9.0),
    };
    let rect = line.bounding_rect();
    assert_eq!(rect.min, coord(1.0, 5.0));
    assert_eq!(rect.max, coord(5.0, 9.0));
    assert_eq!(x_range(&rect), span(1.0, 5.0));
    assert_eq!(y_range(&rect), span(5.0, 9.0));
}
