use more_ranges::RangeFromExclusive;
use more_ranges::RangeFromExclusiveToExclusive;
use more_ranges::RangeFromExclusiveToInclusive;

#[test]
fn range_from_exclusive_iterator_next() {
    let mut range = RangeFromExclusive { start: 1 };

    assert_eq!(range.next(), Some(2));
    assert_eq!(range.next(), Some(3));
}

#[test]
fn range_from_exclusive_iterator_size_hint() {
    let range = RangeFromExclusive { start: 1 };

    assert_eq!(range.size_hint(), (usize::MAX, None));
}

#[test]
fn range_from_exclusive_iterator_nth() {
    let mut range = RangeFromExclusive { start: 1 };

    assert_eq!(range.nth(0), Some(2));
    assert_eq!(range.nth(5), Some(8));
}

#[test]
fn range_from_exclusive_iterator_min() {
    assert_eq!(RangeFromExclusive { start: 1 }.min(), Some(2));
}

#[test]
fn range_from_exclusive_to_inclusive_iterator_next() {
    let mut range = RangeFromExclusiveToInclusive { start: 1, end: 3 };

    assert_eq!(range.next(), Some(2));
    assert_eq!(range.next(), Some(3));
    assert_eq!(range.next(), None);
}

#[test]
fn range_from_exclusive_to_inclusive_iterator_size_hint() {
    assert_eq!(
        RangeFromExclusiveToInclusive { start: 1, end: 3 }.size_hint(),
        (2, Some(2))
    );
    assert_eq!(
        RangeFromExclusiveToInclusive { start: 1, end: 1 }.size_hint(),
        (0, Some(0))
    );
    assert_eq!(
        RangeFromExclusiveToInclusive { start: 3, end: 1 }.size_hint(),
        (0, Some(0))
    );
}

#[test]
fn range_from_exclusive_to_inclusive_iterator_nth() {
    let mut range = RangeFromExclusiveToInclusive { start: 1, end: 5 };

    assert_eq!(range.nth(0), Some(2));
    assert_eq!(range.nth(2), Some(5));
    assert_eq!(range.nth(0), None);
}

#[test]
fn range_from_exclusive_to_inclusive_iterator_nth_too_large() {
    let mut range = RangeFromExclusiveToInclusive { start: 1, end: 6 };

    assert_eq!(range.nth(10), None);
    // The cursor is clamped: start and end meet.
    assert_eq!((range.start, range.end), (6, 6));
}

#[test]
fn range_from_exclusive_to_inclusive_iterator_last() {
    assert_eq!(RangeFromExclusiveToInclusive { start: 1, end: 3 }.last(), Some(3));
}

#[test]
fn range_from_exclusive_to_inclusive_iterator_min() {
    assert_eq!(RangeFromExclusiveToInclusive { start: 1, end: 3 }.min(), Some(2));
}

#[test]
fn range_from_exclusive_to_inclusive_iterator_max() {
    assert_eq!(RangeFromExclusiveToInclusive { start: 1, end: 3 }.max(), Some(3));
}

#[test]
fn range_from_exclusive_to_inclusive_double_ended_iterator_next_back() {
    let mut range = RangeFromExclusiveToInclusive { start: 1, end: 3 };

    assert_eq!(range.next_back(), Some(3));
    assert_eq!(range.next_back(), Some(2));
    assert_eq!(range.next_back(), None);
}

#[test]
fn range_from_exclusive_to_inclusive_double_ended_iterator_nth_back() {
    let mut range = RangeFromExclusiveToInclusive { start: 1, end: 6 };

    assert_eq!(range.nth_back(0), Some(6));
    assert_eq!(range.nth_back(3), Some(2));
    assert_eq!(range.nth_back(0), None);
}

#[test]
fn range_from_exclusive_to_inclusive_double_ended_iterator_nth_back_too_large() {
    let mut range = RangeFromExclusiveToInclusive { start: 1, end: 6 };

    assert_eq!(range.nth_back(10), None);
    // The cursor is clamped: end comes down to start.
    assert_eq!((range.start, range.end), (1, 1));
}

#[test]
fn range_from_exclusive_to_inclusive_exact_iter_char() {
    assert_eq!(RangeFromExclusiveToInclusive { start: 'a', end: 'a' }.len(), 0);
    assert_eq!(RangeFromExclusiveToInclusive { start: 'a', end: 'b' }.len(), 1);
    assert_eq!(RangeFromExclusiveToInclusive { start: 'b', end: 'a' }.len(), 0);
    assert_eq!(
        RangeFromExclusiveToInclusive { start: char::from(0), end: char::MAX }.len(),
        char::MAX as usize - 0x0800
    );
}

#[test]
fn range_from_exclusive_to_exclusive_iterator_next() {
    let mut range = RangeFromExclusiveToExclusive { start: 1, end: 4 };

    assert_eq!(range.next(), Some(2));
    assert_eq!(range.next(), Some(3));
    assert_eq!(range.next(), None);
}

#[test]
fn range_from_exclusive_to_exclusive_iterator_size_hint() {
    assert_eq!(
        RangeFromExclusiveToExclusive { start: 1, end: 3 }.size_hint(),
        (1, Some(1))
    );
    assert_eq!(
        RangeFromExclusiveToExclusive { start: 1, end: 2 }.size_hint(),
        (0, Some(0))
    );
    assert_eq!(
        RangeFromExclusiveToExclusive { start: 1, end: 1 }.size_hint(),
        (0, Some(0))
    );
    assert_eq!(
        RangeFromExclusiveToExclusive { start: 3, end: 1 }.size_hint(),
        (0, Some(0))
    );
}

#[test]
fn range_from_exclusive_to_exclusive_iterator_size_hint_overflow() {
    assert_eq!(
        RangeFromExclusiveToExclusive { start: 0, end: u128::MAX }.size_hint(),
        (usize::MAX, None)
    );
}

#[test]
fn range_from_exclusive_to_exclusive_iterator_nth() {
    let mut range = RangeFromExclusiveToExclusive { start: 1, end: 6 };

    assert_eq!(range.nth(0), Some(2));
    assert_eq!(range.nth(2), Some(5));
    assert_eq!(range.nth(0), None);
}

#[test]
fn range_from_exclusive_to_exclusive_iterator_nth_too_large() {
    let mut range = RangeFromExclusiveToExclusive { start: 1, end: 6 };

    assert_eq!(range.nth(10), None);
    // The cursor is clamped one step below end.
    assert_eq!((range.start, range.end), (5, 6));
}

#[test]
fn range_from_exclusive_to_exclusive_iterator_last() {
    assert_eq!(RangeFromExclusiveToExclusive { start: 1, end: 4 }.last(), Some(3));
}

#[test]
fn range_from_exclusive_to_exclusive_iterator_min() {
    assert_eq!(RangeFromExclusiveToExclusive { start: 1, end: 3 }.min(), Some(2));
}

#[test]
fn range_from_exclusive_to_exclusive_iterator_max() {
    assert_eq!(RangeFromExclusiveToExclusive { start: 1, end: 4 }.max(), Some(3));
}

#[test]
fn range_from_exclusive_to_exclusive_double_ended_iterator_next_back() {
    let mut range = RangeFromExclusiveToExclusive { start: 1, end: 4 };

    assert_eq!(range.next_back(), Some(3));
    assert_eq!(range.next_back(), Some(2));
    assert_eq!(range.next_back(), None);
}

#[test]
fn range_from_exclusive_to_exclusive_double_ended_iterator_nth_back() {
    let mut range = RangeFromExclusiveToExclusive { start: 1, end: 7 };

    assert_eq!(range.nth_back(0), Some(6));
    assert_eq!(range.nth_back(3), Some(2));
    assert_eq!(range.nth_back(0), None);
}

#[test]
fn range_from_exclusive_to_exclusive_double_ended_iterator_nth_back_too_large() {
    let mut range = RangeFromExclusiveToExclusive { start: 1, end: 6 };

    assert_eq!(range.nth_back(10), None);
    // The cursor is clamped one step above start.
    assert_eq!((range.start, range.end), (1, 2));
}

#[test]
fn range_from_exclusive_to_exclusive_exact_iter_char() {
    assert_eq!(RangeFromExclusiveToExclusive { start: 'a', end: 'a' }.len(), 0);
    assert_eq!(RangeFromExclusiveToExclusive { start: 'a', end: 'b' }.len(), 0);
    assert_eq!(RangeFromExclusiveToExclusive { start: 'b', end: 'a' }.len(), 0);
    assert_eq!(RangeFromExclusiveToExclusive { start: 'a', end: 'c' }.len(), 1);
    assert_eq!(
        RangeFromExclusiveToExclusive { start: char::from(0), end: char::MAX }.len(),
        char::MAX as usize - 0x0800 - 1
    );
}

#[test]
fn range_from_exclusive_to_inclusive_exact_iter_integers() {
    assert_eq!(RangeFromExclusiveToInclusive::<u8> { start: 0, end: 0 }.len(), 0);
    assert_eq!(RangeFromExclusiveToInclusive::<u8> { start: 0, end: 1 }.len(), 1);
    assert_eq!(RangeFromExclusiveToInclusive::<u8> { start: 1, end: 0 }.len(), 0);
    assert_eq!(
        RangeFromExclusiveToInclusive::<u8> { start: u8::MIN, end: u8::MAX }.len(),
        u8::MAX as usize
    );
    assert_eq!(
        RangeFromExclusiveToInclusive::<i16> { start: i16::MIN, end: i16::MAX }.len(),
        u16::MAX as usize
    );
    assert_eq!(
        RangeFromExclusiveToInclusive::<u32> { start: u32::MIN, end: u32::MAX }.len(),
        u32::MAX as usize
    );
    assert_eq!(
        RangeFromExclusiveToInclusive::<i32> { start: i32::MIN, end: i32::MAX }.len(),
        u32::MAX as usize
    );
    assert_eq!(
        RangeFromExclusiveToInclusive::<usize> { start: usize::MIN, end: usize::MAX }.len(),
        usize::MAX
    );
    assert_eq!(
        RangeFromExclusiveToInclusive::<isize> { start: isize::MIN, end: isize::MAX }.len(),
        usize::MAX
    );
}

#[test]
fn range_from_exclusive_to_exclusive_exact_iter_integers() {
    assert_eq!(RangeFromExclusiveToExclusive::<i8> { start: 0, end: 0 }.len(), 0);
    assert_eq!(RangeFromExclusiveToExclusive::<i8> { start: 0, end: 1 }.len(), 0);
    assert_eq!(RangeFromExclusiveToExclusive::<i8> { start: 1, end: 0 }.len(), 0);
    assert_eq!(RangeFromExclusiveToExclusive::<i8> { start: 0, end: 2 }.len(), 1);
    assert_eq!(
        RangeFromExclusiveToExclusive::<i8> { start: i8::MIN, end: i8::MAX }.len(),
        u8::MAX as usize - 1
    );
    assert_eq!(
        RangeFromExclusiveToExclusive::<u16> { start: u16::MIN, end: u16::MAX }.len(),
        u16::MAX as usize - 1
    );
    assert_eq!(
        RangeFromExclusiveToExclusive::<usize> { start: usize::MIN, end: usize::MAX }.len(),
        usize::MAX - 1
    );
}

#[test]
fn char_steps_skip_surrogates() {
    let mut range = RangeFromExclusiveToInclusive { start: '\u{D7FE}', end: '\u{E001}' };

    assert_eq!(range.len(), 3);
    assert_eq!(range.next(), Some('\u{D7FF}'));
    assert_eq!(range.next(), Some('\u{E000}'));
    assert_eq!(range.next_back(), Some('\u{E001}'));
    assert_eq!(range.next_back(), None);

    let mut back = RangeFromExclusiveToExclusive { start: '\u{D7FF}', end: '\u{E001}' };
    assert_eq!(back.next_back(), Some('\u{E000}'));
    assert_eq!(back.next_back(), None);
    assert_eq!(RangeFromExclusive { start: '\u{D7FF}' }.min(), Some('\u{E000}'));
    assert_eq!(RangeFromExclusive { start: 'a' }.nth(2), Some('d'));
}

#[test]
fn forward_iteration_yields_items_then_nothing() {
    let mut inclusive = RangeFromExclusiveToInclusive { start: -2i64, end: 2 };
    let mut seen = Vec::new();
    while let Some(v) = inclusive.next() {
        seen.push(v);
    }
    assert_eq!(seen, [-1, 0, 1, 2]);
    assert_eq!(inclusive.next(), None);

    let mut exclusive = RangeFromExclusiveToExclusive { start: -2i64, end: 2 };
    let mut seen = Vec::new();
    while let Some(v) = exclusive.next() {
        seen.push(v);
    }
    assert_eq!(seen, [-1, 0, 1]);
    assert_eq!(RangeFromExclusiveToExclusive { start: 1u64, end: 2 }.size_hint(), (0, Some(0)));
    assert_eq!(RangeFromExclusiveToExclusive { start: 0u64, end: 2 }.size_hint(), (1, Some(1)));
}

#[test]
fn backward_iteration_reverses_forward() {
    for (start, end) in [(1u32, 3u32), (0, 7), (5, 5), (6, 2)] {
        let mut forward = Vec::new();
        let mut range = RangeFromExclusiveToInclusive { start, end };
        while let Some(v) = range.next() {
            forward.push(v);
        }
        let mut backward = Vec::new();
        let mut range = RangeFromExclusiveToInclusive { start, end };
        while let Some(v) = range.next_back() {
            backward.push(v);
        }
        backward.reverse();
        assert_eq!(forward, backward);

        let mut forward = Vec::new();
        let mut range = RangeFromExclusiveToExclusive { start, end };
        while let Some(v) = range.next() {
            forward.push(v);
        }
        let mut backward = Vec::new();
        let mut range = RangeFromExclusiveToExclusive { start, end };
        while let Some(v) = range.next_back() {
            backward.push(v);
        }
        backward.reverse();
        assert_eq!(forward, backward);
    }
}

#[test]
fn nth_overshoot_leaves_bounds_uncrossed() {
    let mut inclusive = RangeFromExclusiveToInclusive { start: 1u8, end: 4 };
    assert_eq!(inclusive.nth_back(3), None);
    assert_eq!((inclusive.start, inclusive.end), (1, 1));
    assert_eq!(inclusive.next(), None);

    let mut exclusive = RangeFromExclusiveToExclusive { start: 1u8, end: 4 };
    assert_eq!(exclusive.nth(2), None);
    assert_eq!((exclusive.start, exclusive.end), (3, 4));
    assert_eq!(exclusive.next_back(), None);

    let mut exclusive = RangeFromExclusiveToExclusive { start: 250u8, end: 255 };
    assert_eq!(exclusive.nth(usize::MAX), None);
    assert_eq!((exclusive.start, exclusive.end), (254, 255));
}

#[test]
fn exclusive_range_steps_across_spans_wider_than_usize() {
    let mut range = RangeFromExclusiveToExclusive { start: 0u128, end: u128::MAX };
    assert_eq!(range.next(), Some(1));
    assert_eq!(range.next_back(), Some(u128::MAX - 1));
    assert_eq!(range.nth(2), Some(4));
    assert_eq!(range.nth_back(2), Some(u128::MAX - 4));
    assert_eq!(range.nth(usize::MAX), Some(usize::MAX as u128 + 5));
    assert_eq!(range.size_hint(), (usize::MAX, None));

    let mut range = RangeFromExclusiveToExclusive { start: 0u128, end: u128::MAX };
    assert_eq!(range.nth_back(usize::MAX), Some(u128::MAX - 1 - usize::MAX as u128));
}
