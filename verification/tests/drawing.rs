use road_intersection::drawing::arrow_segments;
use road_intersection::drawing::{circle_spans, filled_box_rect, isqrt, rounded_box_spans};
use road_intersection::render::Rect;

#[test]
fn integer_square_root_matches_floating_point() {
    for n in (0u32..200_000).chain([u32::MAX, u32::MAX - 1, 65535 * 65535, 65536 * 65535]) {
        let root = isqrt(n);
        assert_eq!(root, (n as f64).sqrt().floor() as u32, "n = {n}");
    }
    assert_eq!(isqrt(u32::MAX), 65535);
}

#[test]
fn filled_box_covers_both_corners() {
    assert_eq!(filled_box_rect(2, 3, 5, 3), Some(Rect { x: 2, y: 3, width: 4, height: 1 }));
    assert_eq!(filled_box_rect(5, 3, 2, 3), None);
    assert_eq!(filled_box_rect(0, 4, 0, 3), None);
}

#[test]
fn circle_spans_follow_the_circle() {
    let spans = circle_spans(10, 20, 2);
    assert_eq!(spans, vec![(10, 10, 18), (9, 11, 19), (8, 12, 20), (9, 11, 21), (10, 10, 22)]);
    assert_eq!(circle_spans(0, 0, 0), vec![(0, 0, 0)]);
    assert!(circle_spans(0, 0, -3).is_empty());
    let big = circle_spans(100, 100, 6);
    for (left, right, y) in big {
        let dy = (y - 100) as f64;
        let half = (36.0 - dy * dy).max(0.0).sqrt().floor() as i16;
        assert_eq!((left, right), (100 - half, 100 + half));
    }
}

#[test]
fn rounded_box_spans_inset_the_corners() {
    let spans = rounded_box_spans(0, 0, 10, 6, 3);
    let insets: Vec<i16> = spans.iter().map(|span| span.0).collect();
    assert_eq!(insets, vec![3, 1, 1, 0, 1, 1, 3]);
    for (index, span) in spans.iter().enumerate() {
        assert_eq!(span.2, index as i16);
        assert_eq!(span.1, 10 - span.0);
    }
    assert!(rounded_box_spans(5, 0, 4, 6, 3).is_empty());
    let square = rounded_box_spans(0, 0, 4, 4, 0);
    assert!(square.iter().all(|span| span.0 == 0 && span.1 == 4));
    let clamped = rounded_box_spans(0, 0, 4, 20, 50);
    assert_eq!(clamped[0].0, 2);
}

#[test]
fn arrow_strokes_point_along_the_direction() {

    assert_eq!(
        arrow_segments(100, 50, 0, 1),
        [(100, 45, 100, 55), (100, 55, 97, 51), (100, 55, 103, 51)]
    );
    assert_eq!(
        arrow_segments(10, 10, -1, 0),
        [(15, 10, 5, 10), (5, 10, 9, 7), (5, 10, 9, 13)]
    );
}
