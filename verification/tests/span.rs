use parsley6::span::Span;

#[test]
fn merge_right_keeps_the_start_and_takes_the_later_end() {
    assert_eq!((2..5).merge_right(7..9), 2..9);
    assert_eq!((2..5).merge_right(0..3), 2..5);
    assert_eq!((2..5).merge_right(0..5), 2..5);
    assert_eq!((2..5).merge_right(3..4), 2..5);
    assert_eq!((0..0).merge_right(0..0), 0..0);
}

#[test]
fn merge_right_never_moves_the_end_back() {
    for start in 0..4usize {
        for end in start..6 {
            for other_start in 0..4usize {
                for other_end in other_start..6 {
                    let merged = (start..end).merge_right(other_start..other_end);
                    assert_eq!(merged.start, start);
                    assert!(merged.end >= end);
                    assert!(merged.end >= other_end);
                }
            }
        }
    }
}

#[test]
fn merge_covers_both_spans() {
    assert_eq!((2..5).merge(7..9), 2..9);
    assert_eq!((7..9).merge(2..5), 2..9);
    assert_eq!((2..9).merge(3..4), 2..9);
    assert_eq!((3..4).merge(3..4), 3..4);
}

#[test]
fn spans_of_other_ordered_types_merge_too() {
    assert_eq!(('a'..'c').merge_right('b'..'f'), 'a'..'f');
    assert_eq!(('b'..'c').merge('a'..'b'), 'a'..'c');
}
