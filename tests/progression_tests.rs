use led_animations::progression::Progression;

#[test]
fn full_cycle_returns_and_wraps_once() {
    for total in 2usize..8 {
        for start in 0..total {
            let mut p = Progression::new(total);
            p.set_current(start);
            let before = p.get_current();
            let mut wraps = 0;
            for _ in 0..total {
                if p.checked_increment() {
                    wraps += 1;
                }
            }
            assert_eq!(p.get_current(), before);
            assert_eq!(wraps, 1);
        }
    }
}

#[test]
fn mono_progressions_stay_at_zero() {
    for total in 0usize..2 {
        let mut p = Progression::new(total);
        assert_eq!(p.get_current(), 0);
        p.set_current(5);
        assert_eq!(p.get_current(), 0);
        p.increment();
        assert_eq!(p.get_current(), 0);
        p.decrement();
        assert_eq!(p.get_current(), 0);
        assert!(!p.checked_increment());
        assert!(!p.checked_decrement());
        p.reverse_direction();
        assert_eq!(p.get_current(), 0);
        assert_eq!(p.peek_next(), 0);
        assert_eq!(p.peek_prev(), 0);
    }
}

#[test]
fn reversal_mirrors_position_and_keeps_stepping_up() {
    let mut p = Progression::new(10);
    p.set_current(3);
    p.reverse_direction();
    assert_eq!(p.get_current(), 6);
    assert!(!p.is_forward);
    p.increment();
    assert_eq!(p.current, 4);
    assert_eq!(p.get_current(), 5);
}

#[test]
fn decrement_wraps_to_the_end() {
    let mut p = Progression::new(4);
    assert!(p.is_first_frame());
    assert!(p.checked_decrement());
    assert_eq!(p.get_current(), 3);
    assert!(!p.checked_decrement());
    assert_eq!(p.get_current(), 2);
    assert_eq!(p.peek_next(), 3);
    assert_eq!(p.peek_prev(), 1);
}

#[test]
fn set_current_takes_the_remainder_and_reset_zeroes() {
    let mut p = Progression::new(4);
    p.set_current(9);
    assert_eq!(p.get_current(), 1);
    assert!(!p.is_first_frame());
    p.reset();
    assert_eq!(p.get_current(), 0);
    assert_eq!(p.total, 4);
}

#[test]
fn increment_wraps_to_zero() {
    let mut p = Progression::new(3);
    p.increment();
    p.increment();
    assert_eq!(p.get_current(), 2);
    assert!(p.checked_increment());
    assert_eq!(p.get_current(), 0);
}
