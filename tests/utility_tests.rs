use led_animations::animations::Direction;
use led_animations::progression::Progression;
use led_animations::random::{get_random_offset, set_random_seed, RandomGenerator};
use led_animations::utility::{
    convert_ms_to_frames, convert_ns_to_frames, default_translation_array, shift_offset,
};

#[test]
fn seeded_draws_are_reproducible() {
    let mut a = RandomGenerator::new();
    let mut b = RandomGenerator::new();
    get_random_offset(&mut b);
    set_random_seed(&mut a, 7);
    set_random_seed(&mut b, 7);
    let a1 = get_random_offset(&mut a);
    let a2 = get_random_offset(&mut a);
    let b1 = get_random_offset(&mut b);
    let b2 = get_random_offset(&mut b);
    assert_eq!((a1, a2), (b1, b2));
    assert_eq!((a1, a2), (29329, 54647));
}

#[test]
fn default_generator_draws() {
    let mut g = RandomGenerator::new();
    assert_eq!(get_random_offset(&mut g), 14729);
    assert_eq!(g.state, 2859235535);
    assert_eq!(get_random_offset(&mut g), 1576);
}

#[test]
fn shift_offset_with_empty_frames_keeps_start() {
    let frames = Progression::new(0);
    for start in [0u16, 1, 12345, 65535] {
        assert_eq!(shift_offset(start, frames, Direction::Positive), start);
        assert_eq!(shift_offset(start, frames, Direction::Negative), start);
        assert_eq!(shift_offset(start, frames, Direction::Stopped), start);
    }
}

#[test]
fn shift_offset_by_direction() {
    let mut frames = Progression::new(10);
    frames.set_current(5);
    assert_eq!(shift_offset(100, frames, Direction::Positive), 100 + 32767);
    assert_eq!(shift_offset(100, frames, Direction::Negative), 100 + 32767);
    assert_eq!(shift_offset(100, frames, Direction::Stopped), 100);
    assert_eq!(shift_offset(40000, frames, Direction::Positive), 7231);
    frames.set_current(2);
    assert_eq!(shift_offset(0, frames, Direction::Positive), 13107);
    assert_eq!(shift_offset(0, frames, Direction::Negative), 52428);
}

#[test]
fn frame_conversions_floor() {
    assert_eq!(convert_ms_to_frames(1000, 60), 60);
    assert_eq!(convert_ms_to_frames(999, 60), 59);
    assert_eq!(convert_ns_to_frames(500_000_000, 30), 15);
    assert_eq!(convert_ns_to_frames(10, 30), 0);
}

#[test]
fn translation_array_counts_up() {
    assert_eq!(default_translation_array(4, 3), vec![3, 4, 5, 6]);
    assert!(default_translation_array(0, 9).is_empty());
}

#[test]
fn shift_offset_on_the_largest_progression() {
    let mut frames = Progression::new(usize::MAX);
    frames.set_current(usize::MAX - 1);
    assert_eq!(shift_offset(0, frames, Direction::Positive), 65534);
    assert_eq!(shift_offset(0, frames, Direction::Negative), 0);
    assert_eq!(shift_offset(2, frames, Direction::Positive), 0);
}

#[test]
fn translation_array_may_end_at_the_largest_address() {
    assert_eq!(default_translation_array(3, usize::MAX - 2), vec![usize::MAX - 2, usize::MAX - 1, usize::MAX]);
}
