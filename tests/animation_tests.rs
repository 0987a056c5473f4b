use led_animations::animations::{
    writes_fit_check, Animation, AnimationParameters, AnimationType, LayerParameters, PixelWrite, TriggerMode,
    TriggerParameters, MAX_NUM_ACTIVE_TRIGGERS,
};
use led_animations::colors::Rgba8;

fn red() -> Rgba8 {
    Rgba8::new(255, 0, 0, 255)
}

fn blue() -> Rgba8 {
    Rgba8::new(0, 0, 255, 255)
}

fn green() -> Rgba8 {
    Rgba8::new(0, 255, 0, 255)
}

fn layers() -> AnimationParameters {
    AnimationParameters {
        bg: LayerParameters { offset: 0, paint: vec![PixelWrite { index: 0, color: red() }, PixelWrite { index: 1, color: red() }] },
        fg: LayerParameters { offset: 0, paint: vec![PixelWrite { index: 0, color: blue() }] },
    }
}

fn overlay(color: Rgba8, duration_ns: u64) -> TriggerParameters {
    TriggerParameters { mode: TriggerMode::Overlay, duration_ns, paint: vec![PixelWrite { index: 0, color }] }
}

#[test]
fn layers_composite_in_order() {
    let mut a = Animation::new(layers(), 3);
    a.update();
    assert_eq!(a.segment()[0], blue());
    assert_eq!(a.segment()[1], red());
    assert_eq!(a.segment()[2], Rgba8::new(0, 0, 0, 0));
    a.trigger(&overlay(green(), 1_000_000_000), 2);
    a.update();
    assert_eq!(a.segment()[0], green());
    a.update();
    assert_eq!(a.segment()[0], green());
    a.update();
    assert_eq!(a.segment()[0], blue());
}

#[test]
fn new_animation_is_zeroed_with_identity_table() {
    let a = Animation::new(layers(), 4);
    assert_eq!(a.translation_array(), &[0, 1, 2, 3]);
    assert_eq!(a.segment().len(), 4);
    assert!(a.segment().iter().all(|c| *c == Rgba8::new(0, 0, 0, 0)));
}

#[test]
fn set_offset_routes_by_layer() {
    let mut a = Animation::new(layers(), 2);
    a.set_offset(AnimationType::Background, 11);
    a.set_offset(AnimationType::Foreground, 22);
    a.set_offset(AnimationType::Trigger, 33);
    assert_eq!(a.bg_state.offset, 11);
    assert_eq!(a.fg_state.offset, 22);
}

#[test]
fn trigger_modes_dispatch() {
    let mut a = Animation::new(layers(), 2);
    let none = TriggerParameters { mode: TriggerMode::NoTrigger, duration_ns: 0, paint: vec![] };
    a.trigger(&none, 60);
    assert!(!a.bg_state.has_been_triggered && !a.fg_state.has_been_triggered);
    assert!(a.triggers.active.is_empty());
    let bg = TriggerParameters {
        mode: TriggerMode::Background,
        duration_ns: u64::MAX,
        paint: vec![PixelWrite { index: 99, color: red() }],
    };
    a.trigger(&bg, 60);
    assert!(a.bg_state.has_been_triggered && !a.fg_state.has_been_triggered);
    assert!(a.triggers.active.is_empty());
    let fg = TriggerParameters { mode: TriggerMode::Foreground, duration_ns: 0, paint: vec![] };
    a.trigger(&fg, 60);
    assert!(a.fg_state.has_been_triggered);
    assert!(a.triggers.active.is_empty());
}

#[test]
fn full_trigger_collection_turns_new_triggers_away() {
    let mut a = Animation::new(layers(), 2);
    for _ in 0..MAX_NUM_ACTIVE_TRIGGERS {
        a.trigger(&overlay(green(), 0), 60);
    }
    assert_eq!(a.triggers.active.len(), MAX_NUM_ACTIVE_TRIGGERS);
    assert!(!a.triggers.add_trigger(&overlay(red(), 0), 60));
    assert_eq!(a.triggers.active.len(), MAX_NUM_ACTIVE_TRIGGERS);
    a.update();
    assert_eq!(a.segment()[0], green());
    assert!(a.triggers.active.is_empty());
}

#[test]
fn later_triggers_paint_over_earlier_ones() {
    let mut a = Animation::new(layers(), 2);
    a.trigger(&overlay(green(), 0), 60);
    a.trigger(&overlay(red(), 0), 60);
    a.update();
    assert_eq!(a.segment()[0], red());
}

#[test]
fn fit_check_finds_writes_outside_the_segment() {
    let inside = vec![PixelWrite { index: 0, color: red() }, PixelWrite { index: 2, color: red() }];
    assert!(writes_fit_check(&inside, 3));
    assert!(!writes_fit_check(&inside, 2));
    assert!(writes_fit_check(&vec![], 0));
}
