use led_animations::animations::RainbowDir;
use led_animations::colors::Rgba8;
use led_animations::progression::Progression;
use led_animations::rainbow::{
    advance_rainbow_color, calculate_fade_color, FadeRainbow, MarchingRainbow, ReversibleRainbow,
    StatefulRainbow, TimedRainbows,
};

fn abc() -> [Rgba8; 3] {
    [
        Rgba8::new(255, 0, 0, 255),
        Rgba8::new(0, 255, 0, 255),
        Rgba8::new(0, 0, 255, 255),
    ]
}

#[test]
fn backward_rainbow_reads_from_the_end() {
    let colors = abc();
    let r = ReversibleRainbow::new(&colors, RainbowDir::Backward);
    assert_eq!(r.index(0), colors[2]);
    assert_eq!(r.index(1), colors[1]);
    assert_eq!(r.index(2), colors[0]);
    assert_eq!(r.len(), 3);
    assert!(!r.is_empty());
    let f = ReversibleRainbow::new(&colors, RainbowDir::Forward);
    assert_eq!(f.index(0), colors[0]);
    let empty: [Rgba8; 0] = [];
    assert!(ReversibleRainbow::new(&empty, RainbowDir::Forward).is_empty());
}

#[test]
fn stateful_rainbow_steps_through_colors() {
    let colors = abc();
    let mut s = StatefulRainbow::new(&colors, RainbowDir::Forward);
    assert_eq!(s.position.total, 3);
    assert_eq!(s.current_color(), colors[0]);
    assert_eq!(s.peek_next_color(), colors[1]);
    assert_eq!(s.peek_last_color(), colors[2]);
    s.increment();
    assert_eq!(s.current_color(), colors[1]);
    s.decrement();
    s.decrement();
    assert_eq!(s.current_color(), colors[2]);
    s.reset();
    assert_eq!(s.current_color(), colors[0]);
}

#[test]
fn fade_with_empty_frames_is_current_color() {
    let colors = abc();
    let mut s = StatefulRainbow::new(&colors, RainbowDir::Forward);
    s.increment();
    let frames = Progression::new(0);
    assert_eq!(calculate_fade_color(&s, &frames), colors[1]);
}

#[test]
fn fade_blends_toward_next_color() {
    let colors = [Rgba8::new(0, 0, 0, 255), Rgba8::new(100, 200, 0, 255)];
    let s = StatefulRainbow::new(&colors, RainbowDir::Forward);
    let mut frames = Progression::new(4);
    frames.set_current(2);
    assert_eq!(calculate_fade_color(&s, &frames), Rgba8::new(50, 100, 0, 255));
}

#[test]
fn timed_rainbows_march_and_fade() {
    let colors = abc();
    let mut t = TimedRainbows {
        fade_rainbow: StatefulRainbow::new(&colors, RainbowDir::Forward),
        incremental_rainbow: StatefulRainbow::new(&colors, RainbowDir::Backward),
        frames: Progression::new(5),
    };
    t.frames.set_current(3);
    assert_eq!(t.current_rainbow_color(), colors[2]);
    assert_eq!(t.current_fade_color(), colors[0]);
    t.advance_rainbow_color();
    assert_eq!(t.current_rainbow_color(), colors[1]);
    assert_eq!(t.frames.get_current(), 0);
    assert_eq!(t.calculate_fade_color(), colors[0]);
    t.frames.set_current(5 / 2);
    let blended = FadeRainbow::calculate_fade_color(&t);
    assert_eq!(blended, Rgba8::new(153, 102, 0, 255));
    assert_eq!(FadeRainbow::rainbow(&t).current_color(), colors[0]);
    assert_eq!(MarchingRainbow::rainbow(&t).current_color(), colors[1]);
    assert_eq!(MarchingRainbow::frames(&t).get_current(), 2);
}

#[test]
fn advance_moves_rainbow_and_restarts_frames() {
    let colors = abc();
    let mut s = StatefulRainbow::new(&colors, RainbowDir::Forward);
    let mut frames = Progression::new(7);
    frames.set_current(6);
    advance_rainbow_color(&mut s, &mut frames);
    assert_eq!(s.current_color(), colors[1]);
    assert!(frames.is_first_frame());
}
