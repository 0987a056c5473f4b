use led_animations::colors::{color_lerp, dark_pattern, ManipulatableColor, Rgba8};
use led_animations::progression::Progression;

#[test]
fn lerp_endpoints_are_exact() {
    let start = Rgba8::new(10, 200, 0, 255);
    let end = Rgba8::new(250, 3, 77, 0);
    assert_eq!(color_lerp(-4, -4, 17, start, end), start);
    assert_eq!(color_lerp(17, -4, 17, start, end), end);
    assert_eq!(color_lerp(5, 5, 0, start, end), start);
    assert_eq!(color_lerp(0, 5, 0, start, end), end);
}

#[test]
fn lerp_midpoint_values() {
    let start = Rgba8::new(0, 0, 0, 0);
    let end = Rgba8::new(200, 100, 50, 255);
    assert_eq!(color_lerp(5, 0, 10, start, end), Rgba8::new(100, 50, 25, 127));
}

#[test]
fn lerp_downward_rounds_toward_zero() {
    let start = Rgba8::new(200, 0, 0, 255);
    let end = Rgba8::new(0, 0, 0, 255);
    assert_eq!(color_lerp(1, 0, 3, start, end), Rgba8::new(134, 0, 0, 255));
}

#[test]
fn lerp_with_uses_progression_position() {
    let start = Rgba8::new(0, 0, 0, 0);
    let end = Rgba8::new(100, 200, 40, 80);
    let mut frames = Progression::new(4);
    frames.set_current(1);
    assert_eq!(start.lerp_with(end, frames), Rgba8::new(25, 50, 10, 20));
    frames.reverse_direction();
    assert_eq!(start.lerp_with(end, frames), Rgba8::new(50, 100, 20, 40));
}

#[test]
fn set_color_keeps_alpha() {
    let mut c = Rgba8::new(1, 2, 3, 4);
    c.set_color(Rgba8::new(9, 8, 7, 6));
    assert_eq!(c, Rgba8::new(9, 8, 7, 4));
}

#[test]
fn dark_pattern_halves_and_quarters() {
    let p = dark_pattern(Rgba8::new(255, 0, 255, 255));
    for i in 0..6 {
        if i % 2 == 0 {
            assert_eq!(p[i], Rgba8::new(127, 0, 127, 255));
        } else {
            assert_eq!(p[i], Rgba8::new(63, 0, 63, 255));
        }
    }
}
