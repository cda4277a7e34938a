use anime::geometry::{Coord, Line, Span};
use anime::matching::find_candidate_matches;
use anime::pairing::{distance_gate, Lift, Pair, Sighting};

fn line(x0: f64, y0: f64, x1: f64, y1: f64) -> Line {
    Line {
        start: Coord {
            x: x0.to_bits(),
            y: y0.to_bits(),
        },
        end: Coord {
            x: x1.to_bits(),
            y: y1.to_bits(),
        },
    }
}

fn span(start: f64, end: f64) -> Span {
    Span {
        start: start.to_bits(),
        end: end.to_bits(),
    }
}

fn slope(l: &Line) -> f64 {
    (f64::from_bits(l.end.y) - f64::from_bits(l.start.y))
        / (f64::from_bits(l.end.x) - f64::from_bits(l.start.x))
}

fn pair(source_index: usize, target_index: usize, source: Line, target: Line) -> Pair {
    let x_slope = slope(&source);
    let x_deg = x_slope.atan().to_degrees();
    let y_deg = slope(&target).atan().to_degrees();
    Pair {
        source_index,
        target_index,
        source_line: source,
        target_line: target,
        source_slope: x_slope.to_bits(),
        source_degrees: x_deg.to_bits(),
        angle_difference: (x_deg - y_deg).to_bits(),
    }
}

fn sighting(pair: Pair, distance: f64, lifted_len: f64) -> Sighting {
    Sighting {
        pair,
        distance: distance.to_bits(),
        lifted_len: lifted_len.to_bits(),
    }
}

#[test]
fn parallel_segments_pass_the_angle_gate() {
    let p = pair(0, 0, line(0.0, 0.0, 10.0, 0.0), line(0.0, 0.1, 10.0, 0.1));
    assert!(p.angle_gate(5.0f64.to_bits()));
    assert!(p.geometric_gate());
    assert!(p.screen(5.0f64.to_bits()));
}

#[test]
fn the_angle_gate_is_strict() {
    // 45 degrees against 40 degrees of tolerance, then against exactly 45.
    let p = pair(0, 0, line(0.0, 0.0, 10.0, 10.0), line(0.0, 0.0, 10.0, 0.0));
    assert_eq!(f64::from_bits(p.angle_difference), 45.0);
    assert!(!p.angle_gate(40.0f64.to_bits()));
    assert!(!p.angle_gate(45.0f64.to_bits()));
    assert!(p.angle_gate(45.5f64.to_bits()));
}

#[test]
fn the_angle_gate_takes_the_difference_on_either_side() {
    let up = pair(0, 0, line(0.0, 0.0, 10.0, 1.0), line(0.0, 0.0, 10.0, 0.0));
    let down = pair(0, 0, line(0.0, 0.0, 10.0, 0.0), line(0.0, 0.0, 10.0, 1.0));
    assert!(f64::from_bits(up.angle_difference) > 0.0);
    assert!(f64::from_bits(down.angle_difference) < 0.0);
    assert!(up.angle_gate(6.0f64.to_bits()));
    assert!(down.angle_gate(6.0f64.to_bits()));
    assert!(!up.angle_gate(5.0f64.to_bits()));
    assert!(!down.angle_gate(5.0f64.to_bits()));
}

#[test]
fn a_segment_without_length_fails_the_angle_gate() {
    let p = pair(0, 0, line(3.0, 3.0, 3.0, 3.0), line(0.0, 3.0, 10.0, 3.0));
    assert!(f64::from_bits(p.source_slope).is_nan());
    assert!(!p.angle_gate(5.0f64.to_bits()));
    assert!(!p.angle_gate(f64::INFINITY.to_bits()));
    let s = sighting(p, 0.0, 0.0);
    assert_eq!(s.shared_len(180.0f64.to_bits(), 1.0f64.to_bits()), None);
}

#[test]
fn a_tolerance_that_is_not_a_number_admits_nothing() {
    let p = pair(0, 0, line(0.0, 0.0, 10.0, 0.0), line(0.0, 0.1, 10.0, 0.1));
    assert!(!p.angle_gate(f64::NAN.to_bits()));
    assert!(!distance_gate(0.0f64.to_bits(), f64::NAN.to_bits()));
}

#[test]
fn the_geometric_gate_needs_one_axis_only() {
    // far apart in y, overlapping in x
    let p = pair(0, 0, line(0.0, 0.0, 10.0, 0.0), line(0.0, 100.0, 10.0, 100.0));
    assert_eq!(p.x_overlap(), Some(span(0.0, 10.0)));
    assert_eq!(p.y_overlap(), None);
    assert!(p.geometric_gate());
    // apart on both axes
    let q = pair(0, 0, line(0.0, 0.0, 1.0, 0.0), line(5.0, 5.0, 6.0, 5.0));
    assert_eq!(q.x_overlap(), None);
    assert_eq!(q.y_overlap(), None);
    assert!(!q.geometric_gate());
    assert!(!q.screen(5.0f64.to_bits()));
}

#[test]
fn the_overlaps_are_those_of_the_tight_rectangles() {
    let p = pair(0, 0, line(8.0, 2.0, 0.0, 0.0), line(4.0, 1.0, 12.0, 3.0));
    assert_eq!(p.x_overlap(), Some(span(4.0, 8.0)));
    assert_eq!(p.y_overlap(), Some(span(1.0, 2.0)));
}

#[test]
fn the_distance_gate_admits_the_tolerance_itself() {
    assert!(distance_gate(0.5f64.to_bits(), 0.5f64.to_bits()));
    assert!(distance_gate(0.0f64.to_bits(), 0.5f64.to_bits()));
    assert!(distance_gate((-0.0f64).to_bits(), 0.0f64.to_bits()));
    assert!(!distance_gate(0.9f64.to_bits(), 0.5f64.to_bits()));
    assert!(!distance_gate(f64::NAN.to_bits(), 0.5f64.to_bits()));
}

#[test]
fn a_shallow_segment_is_lifted_along_x() {
    let p = pair(0, 0, line(0.0, 0.0, 10.0, 5.0), line(2.0, 1.0, 12.0, 6.0));
    assert!(p.is_shallow());
    assert_eq!(
        p.lift(),
        Lift::AlongX {
            overlap: span(2.0, 10.0)
        }
    );
}

#[test]
fn a_segment_at_45_degrees_is_shallow() {
    let up = pair(0, 0, line(0.0, 0.0, 10.0, 10.0), line(0.0, 0.0, 10.0, 10.0));
    assert_eq!(f64::from_bits(up.source_degrees), 45.0);
    assert!(up.is_shallow());
    let down = pair(0, 0, line(0.0, 10.0, 10.0, 0.0), line(0.0, 10.0, 10.0, 0.0));
    assert_eq!(f64::from_bits(down.source_degrees), -45.0);
    assert!(down.is_shallow());
}

#[test]
fn a_steep_segment_is_lifted_along_y() {
    let rising = pair(0, 0, line(0.0, 0.0, 1.0, 10.0), line(0.1, 2.0, 1.1, 12.0));
    assert!(!rising.is_shallow());
    assert_eq!(
        rising.lift(),
        Lift::AlongY {
            overlap: span(2.0, 10.0),
            vertical: false
        }
    );
    let falling = pair(0, 0, line(0.0, 10.0, 1.0, 0.0), line(0.1, 12.0, 1.1, 2.0));
    assert!(f64::from_bits(falling.source_degrees) < -45.0);
    assert!(!falling.is_shallow());
    assert_eq!(
        falling.lift(),
        Lift::AlongY {
            overlap: span(2.0, 10.0),
            vertical: false
        }
    );
}

#[test]
fn a_vertical_segment_is_pinned() {
    let up = pair(0, 0, line(5.0, 0.0, 5.0, 10.0), line(5.1, 3.0, 5.1, 20.0));
    assert_eq!(f64::from_bits(up.source_slope), f64::INFINITY);
    assert_eq!(
        up.lift(),
        Lift::AlongY {
            overlap: span(3.0, 10.0),
            vertical: true
        }
    );
    let down = pair(0, 0, line(5.0, 10.0, 5.0, 0.0), line(5.1, 20.0, 5.1, 3.0));
    assert_eq!(f64::from_bits(down.source_slope), f64::NEG_INFINITY);
    assert_eq!(
        down.lift(),
        Lift::AlongY {
            overlap: span(3.0, 10.0),
            vertical: true
        }
    );
}

#[test]
fn nothing_is_lifted_where_the_chosen_axis_has_no_overlap() {
    // steep source, overlap in x only
    let p = pair(0, 0, line(0.0, 0.0, 1.0, 10.0), line(0.5, 20.0, 1.5, 30.0));
    assert!(p.geometric_gate());
    assert_eq!(p.lift(), Lift::Nothing);
    // such a pair still counts, with a length of zero
    let s = sighting(p, 0.1, 123.0);
    assert_eq!(
        s.shared_len(90.0f64.to_bits(), 0.5f64.to_bits()),
        Some(0.0f64.to_bits())
    );
}

#[test]
fn shared_len_is_the_lifted_length_of_a_pair_that_passes() {
    let p = pair(0, 0, line(0.0, 0.0, 10.0, 0.0), line(0.0, 0.1, 10.0, 0.1));
    let s = sighting(p, 0.1, 10.0);
    assert_eq!(
        s.shared_len(5.0f64.to_bits(), 0.5f64.to_bits()),
        Some(10.0f64.to_bits())
    );
    assert_eq!(s.shared_len(5.0f64.to_bits(), 0.05f64.to_bits()), None);
    assert_eq!(s.shared_len(0.0f64.to_bits(), 0.5f64.to_bits()), None);
}

#[test]
fn wider_tolerances_admit_what_narrower_ones_admit() {
    let lines = [
        line(0.0, 0.0, 10.0, 0.0),
        line(0.0, 0.1, 10.0, 0.1),
        line(0.0, 0.0, 10.0, 2.0),
        line(0.0, 0.0, 3.0, 10.0),
        line(5.0, -5.0, 5.0, 5.0),
    ];
    let tolerances: [f64; 7] = [0.0, 0.5, 5.0, 12.0, 45.0, 90.0, 200.0];
    for a in lines.iter() {
        for b in lines.iter() {
            for distance in [0.0f64, 0.1, 0.5, 3.0] {
                let s = sighting(pair(0, 0, *a, *b), distance, 1.5);
                for angle in tolerances {
                    for wider_angle in tolerances {
                        for reach in tolerances {
                            for wider_reach in tolerances {
                                if angle <= wider_angle && reach <= wider_reach {
                                    let narrow = s.shared_len(angle.to_bits(), reach.to_bits());
                                    let wide =
                                        s.shared_len(wider_angle.to_bits(), wider_reach.to_bits());
                                    if narrow.is_some() {
                                        assert_eq!(wide, narrow);
                                    }
                                }
                            }
                        }
                    }
                }
            }
        }
    }
}

#[test]
fn the_matcher_records_what_passes_and_nothing_else() {
    let near = pair(0, 2, line(0.0, 0.0, 10.0, 0.0), line(0.0, 0.1, 10.0, 0.1));
    let far = pair(1, 2, line(0.0, 1.0, 10.0, 1.0), line(0.0, 0.1, 10.0, 0.1));
    let crossing = pair(2, 2, line(5.0, -5.0, 5.0, 5.0), line(0.0, 0.1, 10.0, 0.1));
    let sightings = vec![
        sighting(near, 0.1, 10.0),
        sighting(far, 0.9, 10.0),
        sighting(crossing, 0.0, 1.0),
        sighting(near, 0.1, 2.5),
    ];
    let store = find_candidate_matches(&sightings, 5.0f64.to_bits(), 0.5f64.to_bits());
    assert_eq!(store.keys(), vec![2]);
    let list = store.get(&2).unwrap();
    assert_eq!(list.len(), 1);
    assert_eq!(list[0].source_index, 0);
    assert_eq!(
        list[0].shared_lens,
        vec![10.0f64.to_bits(), 2.5f64.to_bits()]
    );
}

#[test]
fn the_matcher_leaves_out_no_pair_when_the_tolerances_grow() {
    let near = pair(0, 0, line(0.0, 0.0, 10.0, 0.0), line(0.0, 0.1, 10.0, 0.1));
    let far = pair(1, 0, line(0.0, 1.0, 10.0, 1.0), line(0.0, 0.1, 10.0, 0.1));
    let tilted = pair(2, 1, line(0.0, 0.0, 10.0, 2.0), line(0.0, 0.0, 10.0, 0.0));
    let narrow_run = vec![sighting(near, 0.1, 10.0), sighting(tilted, 0.0, 10.0)];
    let wide_run = vec![
        sighting(far, 0.9, 10.0),
        sighting(tilted, 0.0, 10.0),
        sighting(near, 0.1, 10.0),
    ];
    let narrow = find_candidate_matches(&narrow_run, 5.0f64.to_bits(), 0.5f64.to_bits());
    let wide = find_candidate_matches(&wide_run, 15.0f64.to_bits(), 1.0f64.to_bits());
    assert_eq!(narrow.keys(), vec![0]);
    assert_eq!(wide.keys(), vec![0, 1]);
    for key in narrow.keys() {
        for candidate in narrow.get(&key).unwrap() {
            let kept = wide.get(&key).unwrap();
            assert!(kept.iter().any(|c| c.source_index == candidate.source_index));
        }
    }
    let sources: Vec<usize> = wide.get(&0).unwrap().iter().map(|c| c.source_index).collect();
    assert_eq!(sources, vec![1, 0]);
}
