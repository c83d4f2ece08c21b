use maxtui::animation::{Effect, EffectManager, FrameAnimation, TextAnimation};

#[test]
fn text_animation_constructors_keep_their_parameters() {
    assert_eq!(TextAnimation::typewriter(50), TextAnimation::Typewriter(50));
    assert_eq!(TextAnimation::scroll_left(3), TextAnimation::ScrollLeft(3));
}

#[test]
fn frame_animation_yields_its_first_frame() {
    let frames = vec![String::from("|"), String::from("/"), String::from("-")];
    let a = FrameAnimation::new(frames, 100);
    assert_eq!(a.get_current_frame(), Some(String::from("|")));
    assert_eq!(a.interval_ms, 100);
}

#[test]
fn empty_frame_animation_yields_nothing() {
    let a = FrameAnimation::new(Vec::new(), 100);
    assert_eq!(a.get_current_frame(), None);
}

#[test]
fn effects_accumulate_in_order() {
    assert_eq!(Effect::fade(200), Effect::Fade(200));
    assert_eq!(Effect::slide(300), Effect::Slide(300));
    assert_eq!(Effect::blink(400), Effect::Blink(400));
    assert_eq!(Effect::pulse(500), Effect::Pulse(500));

    let mut m = EffectManager::new();
    m.add_effect(Effect::fade(200));
    m.add_effect(Effect::blink(400));
    assert_eq!(m.effects, vec![Effect::Fade(200), Effect::Blink(400)]);
}
