use sigil_gen::animation::{advance, segment_state, AnimationStep, SegmentState};
use sigil_gen::app::{Screen, SigilApp};
use sigil_gen::glyph::GlyphPoint;
use sigil_gen::input::FrameInput;

fn key(set: fn(&mut FrameInput)) -> FrameInput {
    let mut input = FrameInput::idle();
    set(&mut input);
    input
}

fn typing(text: &str) -> FrameInput {
    let mut input = FrameInput::idle();
    input.typed = text.chars().collect();
    input
}

fn on_input_screen() -> SigilApp {
    let mut app = SigilApp::new();
    app.update(16_000, &key(|i| i.space = true));
    assert_eq!(app.screen(), Screen::Input);
    app
}

fn displaying(text: &str) -> SigilApp {
    let mut app = on_input_screen();
    app.update(16_000, &typing(text));
    app.update(16_000, &key(|i| i.enter = true));
    assert_eq!(app.screen(), Screen::Display);
    app
}

#[test]
fn starts_on_the_title() {
    let app = SigilApp::new();
    assert_eq!(app.screen(), Screen::Start);
    assert_eq!(app.intention().text(), "");
    assert!(app.points().is_empty());
    assert_eq!(app.blink_timer(), 0);
    assert_eq!(app.save_timer(), 0);
}

#[test]
fn title_waits_for_the_activation_key() {
    let mut app = SigilApp::new();
    app.update(10, &key(|i| i.enter = true));
    assert_eq!(app.screen(), Screen::Start);
    let mut both = typing("abc");
    both.space = true;
    app.update(10, &both);
    assert_eq!(app.screen(), Screen::Input);
    assert_eq!(app.intention().text(), "");
    assert_eq!(app.blink_timer(), 20);
}

#[test]
fn typed_text_reaches_the_text_box_on_input_only() {
    let mut app = on_input_screen();
    app.update(1, &typing("Hello World"));
    assert_eq!(app.intention().text(), "Hello World");
    assert_eq!(app.intention().cursor(), 11);
    app.update(1, &key(|i| i.enter = true));
    assert_eq!(app.screen(), Screen::Display);
    app.update(1, &typing("leak"));
    assert_eq!(app.intention().text(), "Hello World");
}

#[test]
fn finalize_makes_the_glyph() {
    let app = displaying("Hello World");
    assert_eq!(app.points().len(), 5);
    let mut labels: Vec<u8> = app.points().iter().map(|p| p.label).collect();
    labels.sort();
    assert_eq!(labels, vec![1, 2, 3, 7, 7]);
    assert_eq!(app.intention().text(), "Hello World");
}

#[test]
fn finalize_in_the_same_frame_as_the_typing() {
    let mut app = on_input_screen();
    let mut input = typing("xyz");
    input.enter = true;
    app.update(1, &input);
    assert_eq!(app.screen(), Screen::Display);
    assert_eq!(app.points().len(), 3);
}

#[test]
fn vowels_only_stays_on_input() {
    let mut app = on_input_screen();
    app.update(1, &typing("aeiou"));
    let effects = app.update(1, &key(|i| i.enter = true));
    assert_eq!(app.screen(), Screen::Input);
    assert!(app.points().is_empty());
    assert_eq!(app.intention().text(), "aeiou");
    assert!(!effects.export);
}

#[test]
fn empty_and_blank_stay_on_input() {
    let mut app = on_input_screen();
    app.update(1, &key(|i| i.enter = true));
    assert_eq!(app.screen(), Screen::Input);
    app.update(1, &typing("   "));
    app.update(1, &key(|i| i.enter = true));
    assert_eq!(app.screen(), Screen::Input);
    assert!(app.points().is_empty());
}

#[test]
fn single_point_cannot_be_animated() {
    let mut app = displaying("b");
    assert_eq!(app.points().len(), 1);
    let before: Vec<GlyphPoint> = app.points().clone();
    app.update(16_000, &key(|i| i.space = true));
    assert_eq!(app.screen(), Screen::Display);
    assert_eq!(app.points(), &before);
}

#[test]
fn animation_runs_through_every_segment() {
    let mut app = displaying("bcd");
    app.update(0, &key(|i| i.space = true));
    assert_eq!(app.screen(), Screen::Animating { progress: 0, segment: 0 });
    app.update(100_000, &typing("x"));
    assert_eq!(app.screen(), Screen::Animating { progress: 300_000, segment: 0 });
    app.update(200_000, &FrameInput::idle());
    assert_eq!(app.screen(), Screen::Animating { progress: 900_000, segment: 0 });
    app.update(100_000, &FrameInput::idle());
    assert_eq!(app.screen(), Screen::Animating { progress: 0, segment: 1 });
    app.update(333_333, &FrameInput::idle());
    assert_eq!(app.screen(), Screen::Animating { progress: 999_999, segment: 1 });
    app.update(1, &FrameInput::idle());
    assert_eq!(app.screen(), Screen::Display);
    assert_eq!(app.points().len(), 3);
    assert_eq!(app.intention().text(), "bcd");
}

#[test]
fn animation_of_two_points_has_one_segment() {
    let mut app = displaying("bc");
    app.update(0, &key(|i| i.space = true));
    assert_eq!(app.screen(), Screen::Animating { progress: 0, segment: 0 });
    app.update(u64::MAX, &FrameInput::idle());
    assert_eq!(app.screen(), Screen::Display);
    assert_eq!(app.blink_timer(), u64::MAX);
}

#[test]
fn save_notice_stays_for_one_second() {
    let mut app = displaying("Hello");
    let effects = app.update(5, &key(|i| i.s = true));
    assert!(effects.export);
    assert_eq!(app.screen(), Screen::Saving);
    assert_eq!(app.save_timer(), 0);
    app.update(400_000, &key(|i| i.r = true));
    assert_eq!(app.screen(), Screen::Saving);
    assert_eq!(app.save_timer(), 400_000);
    app.update(599_999, &typing("x"));
    assert_eq!(app.screen(), Screen::Saving);
    assert_eq!(app.save_timer(), 999_999);
    app.update(1, &FrameInput::idle());
    assert_eq!(app.screen(), Screen::Display);
    assert_eq!(app.save_timer(), 0);
    assert_eq!(app.intention().text(), "Hello");
}

#[test]
fn save_notice_ends_after_exactly_one_second() {
    let mut app = displaying("Hello");
    app.update(0, &key(|i| i.s = true));
    assert_eq!(app.screen(), Screen::Saving);
    app.update(1_000_000, &FrameInput::idle());
    assert_eq!(app.screen(), Screen::Display);
    assert_eq!(app.save_timer(), 0);
}

#[test]
fn reset_clears_everything() {
    let mut app = displaying("Hello");
    assert!(app.blink_timer() > 0);
    let effects = app.update(7, &key(|i| i.r = true));
    assert!(!effects.export);
    assert_eq!(app.screen(), Screen::Input);
    assert_eq!(app.intention().text(), "");
    assert_eq!(app.intention().cursor(), 0);
    assert_eq!(app.intention().anchor(), None);
    assert!(app.points().is_empty());
    assert_eq!(app.blink_timer(), 0);
}

#[test]
fn animate_key_wins_over_reset_and_save() {
    let mut app = displaying("bcd");
    let mut input = FrameInput::idle();
    input.space = true;
    input.r = true;
    input.s = true;
    let effects = app.update(1, &input);
    assert!(!effects.export);
    assert_eq!(app.screen(), Screen::Animating { progress: 0, segment: 0 });

    let mut app = displaying("b");
    let effects = app.update(1, &input);
    assert!(!effects.export);
    assert_eq!(app.screen(), Screen::Input);

    let mut app = displaying("b");
    input.r = false;
    let effects = app.update(1, &input);
    assert!(effects.export);
    assert_eq!(app.screen(), Screen::Saving);
}

#[test]
fn a_new_glyph_replaces_the_old() {
    let mut app = displaying("bcd");
    app.update(1, &key(|i| i.r = true));
    app.update(1, &typing("xy"));
    app.update(1, &key(|i| i.enter = true));
    assert_eq!(app.screen(), Screen::Display);
    assert_eq!(app.points().len(), 2);
}

#[test]
fn clipboard_effects_come_from_the_text_box() {
    let mut app = on_input_screen();
    app.update(1, &typing("abc"));
    let mut input = FrameInput::idle();
    input.ctrl = true;
    input.a = true;
    input.c = true;
    let effects = app.update(1, &input);
    assert_eq!(effects.copied, Some("abc".to_string()));
    assert_eq!(effects.cut, None);
    let mut input = FrameInput::idle();
    input.ctrl = true;
    input.x = true;
    let effects = app.update(1, &input);
    assert_eq!(effects.cut, Some("abc".to_string()));
    assert_eq!(app.intention().text(), "");
}

#[test]
fn accept_glyph_takes_what_was_made() {
    let mut app = on_input_screen();
    app.accept_glyph(None);
    assert_eq!(app.screen(), Screen::Input);
    let made = vec![GlyphPoint { angle: 10, label: 1 }, GlyphPoint { angle: 20, label: 2 }];
    app.accept_glyph(Some(made.clone()));
    assert_eq!(app.screen(), Screen::Display);
    assert_eq!(app.points(), &made);
}

#[test]
fn advance_adds_three_segments_per_second() {
    assert_eq!(
        advance(0, 0, 100_000, 3),
        AnimationStep::Running { progress: 300_000, segment: 0 }
    );
    assert_eq!(
        advance(700_000, 0, 99_999, 3),
        AnimationStep::Running { progress: 999_997, segment: 0 }
    );
    assert_eq!(advance(700_000, 0, 100_000, 3), AnimationStep::Running { progress: 0, segment: 1 });
    assert_eq!(advance(0, 0, 5_000_000, 4), AnimationStep::Running { progress: 0, segment: 1 });
    assert_eq!(advance(700_000, 1, 100_000, 3), AnimationStep::Finished);
    assert_eq!(advance(0, 0, u64::MAX, 2), AnimationStep::Finished);
    assert_eq!(advance(5, 2, 0, 9), AnimationStep::Running { progress: 5, segment: 2 });
}

#[test]
fn segments_before_are_full_and_after_are_hidden() {
    assert_eq!(segment_state(0, 400_000, 2), SegmentState::Full);
    assert_eq!(segment_state(1, 400_000, 2), SegmentState::Full);
    assert_eq!(segment_state(2, 400_000, 2), SegmentState::Partial { progress: 400_000 });
    assert_eq!(segment_state(3, 400_000, 2), SegmentState::Hidden);
}

#[test]
fn a_frame_of_too_many_characters_fills_the_box() {
    let mut app = on_input_screen();
    let text: String = "abcdefghij".repeat(10) + "k";
    assert_eq!(text.len(), 101);
    app.update(1, &typing(&text));
    assert_eq!(app.intention().len(), 100);
    assert_eq!(app.intention().cursor(), 100);
    assert_eq!(app.intention().text(), "abcdefghij".repeat(10));
}

#[test]
fn tick_counts_both_timers() {
    let mut app = displaying("bcd");
    let before = app.blink_timer();
    app.tick(250);
    assert_eq!(app.blink_timer(), before + 250);
    assert_eq!(app.save_timer(), 0);
    app.update(0, &key(|i| i.s = true));
    app.tick(250);
    assert_eq!(app.save_timer(), 250);
    assert_eq!(app.screen(), Screen::Saving);
    app.tick(u64::MAX);
    assert_eq!(app.screen(), Screen::Display);
    assert_eq!(app.save_timer(), 0);
    assert_eq!(app.blink_timer(), u64::MAX);
}

#[test]
fn reset_from_any_screen_gives_an_empty_text_box() {
    let mut app = displaying("bcd");
    app.update(0, &key(|i| i.s = true));
    app.tick(10);
    app.reset();
    assert_eq!(app.screen(), Screen::Input);
    assert_eq!(app.save_timer(), 0);
    assert_eq!(app.blink_timer(), 0);
    assert!(app.points().is_empty());
    assert_eq!(app.intention().text(), "");
}

#[test]
fn generate_sigil_finalizes_the_text() {
    let mut app = on_input_screen();
    app.generate_sigil();
    assert_eq!(app.screen(), Screen::Input);
    app.update(1, &typing("Zebra 9"));
    app.generate_sigil();
    assert_eq!(app.screen(), Screen::Display);
    let mut labels: Vec<u8> = app.points().iter().map(|p| p.label).collect();
    labels.sort();
    // z -> 5, b -> 1, r -> 7, 9 -> 9
    assert_eq!(labels, vec![1, 5, 7, 9]);
}
