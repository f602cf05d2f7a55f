use word_search::{WordDirection, WordSpan};

#[test]
fn new_keeps_its_arguments() {
    let span = WordSpan::new((3, 4), 5, WordDirection::DiagonalUpLeft);
    assert_eq!(span.begin, (3, 4));
    assert_eq!(span.len, 5);
    assert_eq!(span.direction, WordDirection::DiagonalUpLeft);
}

#[test]
fn indices_step_along_each_direction() {
    let at = (5, 5);
    assert_eq!(
        WordSpan::new(at, 3, WordDirection::Up).indices(),
        vec![(5, 5), (5, 6), (5, 7)]
    );
    assert_eq!(
        WordSpan::new(at, 3, WordDirection::Down).indices(),
        vec![(5, 5), (5, 4), (5, 3)]
    );
    assert_eq!(
        WordSpan::new(at, 3, WordDirection::Left).indices(),
        vec![(5, 5), (4, 5), (3, 5)]
    );
    assert_eq!(
        WordSpan::new(at, 3, WordDirection::Right).indices(),
        vec![(5, 5), (6, 5), (7, 5)]
    );
    assert_eq!(
        WordSpan::new(at, 3, WordDirection::DiagonalUpLeft).indices(),
        vec![(5, 5), (4, 6), (3, 7)]
    );
    assert_eq!(
        WordSpan::new(at, 3, WordDirection::DiagonalUpRight).indices(),
        vec![(5, 5), (6, 6), (7, 7)]
    );
    assert_eq!(
        WordSpan::new(at, 3, WordDirection::DiagonalDownLeft).indices(),
        vec![(5, 5), (4, 4), (3, 3)]
    );
    assert_eq!(
        WordSpan::new(at, 3, WordDirection::DiagonalDownRight).indices(),
        vec![(5, 5), (6, 4), (7, 3)]
    );
}

#[test]
fn indices_begin_at_the_beginning() {
    let span = WordSpan::new((2, 9), 4, WordDirection::Down);
    let indices = span.indices();
    assert_eq!(indices.len(), 4);
    assert_eq!(indices[0], (2, 9));
}

#[test]
fn indices_of_an_empty_span_are_empty() {
    assert!(WordSpan::new((0, 0), 0, WordDirection::Left)
        .indices()
        .is_empty());
}

#[test]
fn indices_may_reach_the_zero_coordinate() {
    assert_eq!(
        WordSpan::new((2, 2), 3, WordDirection::DiagonalDownLeft).indices(),
        vec![(2, 2), (1, 1), (0, 0)]
    );
}

#[test]
fn end_coordinate_lies_one_step_past_the_last_letter() {
    assert_eq!(
        WordSpan::new((2, 3), 4, WordDirection::Right).get_end_coordinate(),
        (6, 3)
    );
    assert_eq!(
        WordSpan::new((2, 3), 4, WordDirection::Up).get_end_coordinate(),
        (2, 7)
    );
    assert_eq!(
        WordSpan::new((2, 3), 4, WordDirection::DiagonalUpRight).get_end_coordinate(),
        (6, 7)
    );
}

#[test]
fn end_coordinate_may_be_negative() {
    assert_eq!(
        WordSpan::new((2, 3), 5, WordDirection::Down).get_end_coordinate(),
        (2, -2)
    );
    assert_eq!(
        WordSpan::new((2, 3), 5, WordDirection::Left).get_end_coordinate(),
        (-3, 3)
    );
    assert_eq!(
        WordSpan::new((0, 0), 1, WordDirection::DiagonalDownLeft).get_end_coordinate(),
        (-1, -1)
    );
    assert_eq!(
        WordSpan::new((1, 1), 3, WordDirection::DiagonalUpLeft).get_end_coordinate(),
        (-2, 4)
    );
    assert_eq!(
        WordSpan::new((1, 1), 3, WordDirection::DiagonalDownRight).get_end_coordinate(),
        (4, -2)
    );
}

#[test]
fn end_coordinate_of_the_largest_span_does_not_wrap() {
    let span = WordSpan::new((usize::MAX, 0), usize::MAX, WordDirection::DiagonalUpRight);
    assert_eq!(
        span.get_end_coordinate(),
        (2 * (usize::MAX as i128), usize::MAX as i128)
    );
    assert!(!span.in_bounds(usize::MAX, usize::MAX));
}

#[test]
fn in_bounds_accepts_a_span_well_inside() {
    assert!(WordSpan::new((1, 1), 3, WordDirection::Right).in_bounds(10, 10));
    assert!(WordSpan::new((5, 5), 4, WordDirection::DiagonalDownLeft).in_bounds(10, 10));
    assert!(WordSpan::new((4, 3), 3, WordDirection::Left).in_bounds(10, 10));
}

#[test]
fn in_bounds_rejects_a_beginning_outside() {
    assert!(!WordSpan::new((10, 1), 1, WordDirection::Up).in_bounds(10, 10));
    assert!(!WordSpan::new((1, 10), 1, WordDirection::Right).in_bounds(10, 10));
}

#[test]
fn in_bounds_wants_the_end_strictly_below_the_dimensions() {
    assert!(!WordSpan::new((7, 1), 3, WordDirection::Right).in_bounds(10, 10));
    assert!(WordSpan::new((7, 1), 3, WordDirection::Right).in_bounds(11, 10));
    assert!(WordSpan::new((7, 1), 2, WordDirection::Right).in_bounds(10, 10));
    assert!(!WordSpan::new((1, 7), 3, WordDirection::Up).in_bounds(10, 10));
    assert!(WordSpan::new((1, 7), 3, WordDirection::Up).in_bounds(10, 11));
}

#[test]
fn in_bounds_wants_the_end_strictly_positive() {
    assert!(!WordSpan::new((3, 3), 3, WordDirection::Left).in_bounds(10, 10));
    assert!(!WordSpan::new((3, 3), 3, WordDirection::Down).in_bounds(10, 10));
    assert!(!WordSpan::new((3, 3), 4, WordDirection::Left).in_bounds(10, 10));
    assert!(!WordSpan::new((0, 0), 3, WordDirection::Right).in_bounds(10, 10));
    assert!(!WordSpan::new((0, 4), 3, WordDirection::Up).in_bounds(10, 10));
}

#[test]
fn in_bounds_of_an_empty_span_tests_its_beginning() {
    assert!(WordSpan::new((1, 1), 0, WordDirection::Up).in_bounds(2, 2));
    assert!(!WordSpan::new((0, 1), 0, WordDirection::Up).in_bounds(2, 2));
    assert!(!WordSpan::new((0, 0), 0, WordDirection::Up).in_bounds(1, 1));
}

#[test]
fn a_word_as_long_as_both_dimensions_is_never_in_bounds() {
    for row in 0..5 {
        for column in 0..5 {
            for n in 0..8 {
                let span = WordSpan::new((row, column), 5, WordDirection::from_index(n));
                assert!(!span.in_bounds(5, 5));
            }
        }
    }
}

#[test]
fn in_bounds_spans_stay_inside_the_grid() {
    for row in 0..6 {
        for column in 0..7 {
            for len in 0..8 {
                for n in 0..8 {
                    let span = WordSpan::new((row, column), len, WordDirection::from_index(n));
                    if span.in_bounds(6, 7) {
                        for (r, c) in span.indices() {
                            assert!(r < 6 && c < 7);
                        }
                    }
                }
            }
        }
    }
}

#[test]
fn overlaps_is_true_for_crossing_spans() {
    let across = WordSpan::new((1, 3), 5, WordDirection::Right);
    let along = WordSpan::new((3, 1), 5, WordDirection::Up);
    assert!(across.overlaps(&along));
    assert!(along.overlaps(&across));
}

#[test]
fn overlaps_is_false_for_spans_apart() {
    let one = WordSpan::new((1, 1), 4, WordDirection::Right);
    let other = WordSpan::new((1, 2), 4, WordDirection::Right);
    assert!(!one.overlaps(&other));
    assert!(!other.overlaps(&one));
}

#[test]
fn overlaps_is_true_for_a_span_and_itself() {
    let span = WordSpan::new((4, 4), 3, WordDirection::DiagonalDownLeft);
    assert!(span.overlaps(&span));
}

#[test]
fn overlaps_is_true_where_only_the_last_letters_meet() {
    let one = WordSpan::new((0, 0), 3, WordDirection::DiagonalUpRight);
    let other = WordSpan::new((4, 0), 3, WordDirection::DiagonalUpLeft);
    assert_eq!(one.indices()[2], (2, 2));
    assert_eq!(other.indices()[2], (2, 2));
    assert!(one.overlaps(&other));
}

#[test]
fn overlaps_is_false_for_adjacent_collinear_spans() {
    let one = WordSpan::new((1, 1), 3, WordDirection::Right);
    let next = WordSpan::new((4, 1), 3, WordDirection::Right);
    assert!(!one.overlaps(&next));
}

#[test]
fn an_empty_span_overlaps_nothing() {
    let empty = WordSpan::new((2, 2), 0, WordDirection::Up);
    let other = WordSpan::new((2, 2), 3, WordDirection::Up);
    assert!(!empty.overlaps(&other));
    assert!(!other.overlaps(&empty));
    assert!(!empty.overlaps(&empty));
}

#[test]
fn fits_accepts_a_span_that_is_in_bounds_and_apart() {
    let placed = vec![
        WordSpan::new((1, 1), 4, WordDirection::Right),
        WordSpan::new((1, 3), 4, WordDirection::Right),
    ];
    assert!(WordSpan::new((1, 2), 4, WordDirection::Right).fits(10, 10, &placed));
    assert!(WordSpan::new((1, 2), 4, WordDirection::Right).fits(10, 10, &Vec::new()));
}

#[test]
fn fits_rejects_a_span_out_of_bounds() {
    assert!(!WordSpan::new((8, 2), 4, WordDirection::Right).fits(10, 10, &Vec::new()));
}

#[test]
fn fits_rejects_a_span_that_meets_a_placed_one() {
    let placed = vec![
        WordSpan::new((1, 1), 4, WordDirection::Right),
        WordSpan::new((1, 3), 4, WordDirection::Right),
    ];
    assert!(!WordSpan::new((2, 2), 3, WordDirection::Up).fits(10, 10, &placed));
    assert!(!WordSpan::new((4, 4), 3, WordDirection::Down).fits(10, 10, &placed));
}
