use wakey::overlay::animation_state::{blink_delay, AnimationState, Blink, BlinkState, Face};
use wakey::overlay::bubble::{Bubble, AUTO_HIDE_DELAY_MS};
use wakey::overlay::expressions::{
    detect_mood_from_keywords, extract_mood, mood_from_lowered, kind_for_mood, parse_mood_tag, priority_above,
    Accessory, EyeShape, EyebrowShape, Expression, ExpressionKind, MouthShape, Priority,
};
use wakey::overlay::trigger::{
    event_is_trigger, event_to_trigger, map_signal, ExpressionMapper, ExpressionTrigger,
    FaceSignal,
};
use wakey::overlay::window::{OverlayAction, OverlayEvent, OverlayMode, VoiceState};
use wakey::types::Mood;

#[test]
fn test_mood_trigger() {
    let mapper = ExpressionMapper::new();
    let trigger = ExpressionTrigger::Mood(Mood::Happy);
    let expr = mapper.map(&trigger).unwrap();
    assert_eq!(expr.name, "happy");
}

#[test]
fn test_agent_completed_trigger() {
    let event = FaceSignal::AgentCompleted;
    let trigger = event_to_trigger(event).unwrap();
    let mapper = ExpressionMapper::new();
    let expr = mapper.map(&trigger).unwrap();
    assert_eq!(expr.name, "celebrate");
}

#[test]
fn test_idle_trigger() {
    let event = FaceSignal::UserIdle { idle_secs: 400 };
    let trigger = event_to_trigger(event).unwrap();
    let mapper = ExpressionMapper::new();
    let expr = mapper.map(&trigger).unwrap();
    assert_eq!(expr.name, "sleepy");
}

#[test]
fn signals_map_to_preset_kinds() {
    assert_eq!(
        map_signal(FaceSignal::MoodChanged(Mood::Happy)),
        Some(ExpressionKind::Happy)
    );
    assert_eq!(map_signal(FaceSignal::AgentCompleted), Some(ExpressionKind::Celebrate));
    assert_eq!(
        map_signal(FaceSignal::SystemVitals { battery_percent: Some(5) }),
        Some(ExpressionKind::Worried)
    );
    assert_eq!(map_signal(FaceSignal::SystemVitals { battery_percent: Some(50) }), None);
    assert!(event_to_trigger(FaceSignal::Other).is_none());
}

#[test]
fn custom_triggers_are_registered_by_name() {
    let mut mapper = ExpressionMapper::new();
    let custom = ExpressionTrigger::Custom("deploy".to_string());
    assert!(mapper.map(&custom).is_none());
    mapper.register_custom("deploy".to_string(), Expression::idea());
    assert_eq!(mapper.map(&custom).unwrap().name, "idea");
    mapper.register_custom("deploy".to_string(), Expression::angry());
    assert_eq!(mapper.map(&custom).unwrap().name, "angry");
    assert_eq!(mapper.default_expression().name, "neutral");
}

#[test]
fn test_neutral_expression() {
    let expr = Expression::neutral();
    assert_eq!(expr.eyes, EyeShape::Rectangle);
    assert_eq!(expr.mouth, MouthShape::Blank);
    assert_eq!(expr.eyebrows, EyebrowShape::Blank);
    assert!(expr.accessories.is_empty());
}

#[test]
fn test_celebrate_expression() {
    let expr = Expression::celebrate();
    assert_eq!(expr.eyes, EyeShape::CurveUp);
    assert_eq!(expr.mouth, MouthShape::Tongue);
    assert!(expr.accessories.contains(&Accessory::Sparkle));
    assert_eq!(expr.priority, Priority::High);
}

#[test]
fn presets_carry_their_timing() {
    let idea = Expression::idea();
    assert_eq!(idea.duration_ms, 2500);
    assert_eq!(idea.transition_ms, 120);
    assert_eq!(idea.accessories, vec![Accessory::Lightbulb, Accessory::PointingRight]);
    assert_eq!(Expression::sleepy().duration_ms, 0);
    assert_eq!(Expression::from_mood(Mood::Concerned).name, "worried");
    assert_eq!(Expression::default().name, "neutral");
    let copy = Expression::love().duplicate();
    assert_eq!(copy.name, "love");
    assert_eq!(copy.accessories, vec![Accessory::Heart]);
}

#[test]
fn test_new_state() {
    let state = AnimationState::new(0);
    assert_eq!(state.current_expression().name, "neutral");
    assert_eq!(state.queue_len(), 0);
}

#[test]
fn test_set_current() {
    let mut state = AnimationState::new(0);
    state.set_current(Expression::happy(), 0);
    assert_eq!(state.current_expression().name, "happy");
}

#[test]
fn test_queue_expression() {
    let mut state = AnimationState::new(0);
    state.queue(Expression::celebrate(), 0);
    assert!(state.queue_len() > 0 || state.current_expression().name == "celebrate");
}

#[test]
fn test_priority_interrupt() {
    let mut state = AnimationState::new(0);
    state.set_current(Expression::neutral(), 0);
    let celebrate = Expression::celebrate();
    assert!(celebrate.priority > state.current_expression().priority);
}

#[test]
fn test_reset() {
    let mut state = AnimationState::new(0);
    state.set_current(Expression::celebrate(), 0);
    state.reset(10);
    assert_eq!(state.current_expression().name, "neutral");
}

#[test]
fn queued_expression_plays_then_expires() {
    let mut state = AnimationState::new(0);
    state.queue(Expression::celebrate(), 0);
    assert_eq!(state.queue_len(), 1);
    assert!(!state.update(50));
    assert!(state.update(100));
    assert_eq!(state.queue_len(), 0);
    assert_eq!(state.current_expression().name, "celebrate");
    assert!(!state.update(199));
    assert!(state.update(200));
    assert_eq!(state.interpolated_expression().name, "celebrate");
    assert!(!state.update(3199));
    assert!(state.update(3200));
    assert_eq!(state.current_expression().name, "neutral");
}

#[test]
fn higher_priority_interrupts_and_lower_waits() {
    let mut state = AnimationState::new(0);
    state.set_current(Expression::happy(), 0);
    state.queue(Expression::surprised(), 500);
    assert_eq!(state.current_expression().name, "surprised");
    state.queue(Expression::thinking(), 510);
    assert_eq!(state.current_expression().name, "surprised");
    assert_eq!(state.queue_len(), 1);
    state.clear_queue();
    assert_eq!(state.queue_len(), 0);
}

#[test]
fn short_idle_changes_nothing() {
    assert_eq!(map_signal(FaceSignal::UserIdle { idle_secs: 30 }), None);
    assert_eq!(
        map_signal(FaceSignal::UserIdle { idle_secs: 120 }),
        Some(ExpressionKind::Thinking)
    );
    assert_eq!(map_signal(FaceSignal::Other), None);
    assert!(!event_is_trigger(FaceSignal::Other));
    assert!(event_is_trigger(FaceSignal::AgentFailed));
}

#[test]
fn moods_map_to_presets() {
    assert_eq!(kind_for_mood(Mood::Concerned), ExpressionKind::Worried);
    assert_eq!(kind_for_mood(Mood::Playful), ExpressionKind::Celebrate);
    assert_eq!(kind_for_mood(Mood::Empathetic), ExpressionKind::Love);
}

#[test]
fn priorities_are_ordered() {
    assert!(priority_above(Priority::High, Priority::Low));
    assert!(!priority_above(Priority::Low, Priority::High));
    assert!(!priority_above(Priority::Normal, Priority::Normal));
}

#[test]
fn mood_tag_is_taken_out_of_the_text() {
    let (clean, mood) = parse_mood_tag("Sure, done!\nMOOD: happy");
    assert_eq!(clean, "Sure, done!");
    assert_eq!(mood.as_deref(), Some("happy"));
    let (clean, mood) = parse_mood_tag("No tag here");
    assert_eq!(clean, "No tag here");
    assert_eq!(mood, None);
}

#[test]
fn keywords_give_a_mood_in_any_case() {
    assert_eq!(
        detect_mood_from_keywords("The build FAILED again").as_deref(),
        Some("concerned")
    );
    assert_eq!(
        detect_mood_from_keywords("Great job").as_deref(),
        Some("happy")
    );
    assert_eq!(detect_mood_from_keywords("just text"), None);
}

#[test]
fn extract_mood_prefers_the_tag_then_keywords() {
    let (text, mood) = extract_mood("All good\nMOOD: sleepy");
    assert_eq!(text, "All good");
    assert_eq!(mood, "sleepy");
    let (_, mood) = extract_mood("Wow, amazing");
    assert_eq!(mood, "excited");
    let (_, mood) = extract_mood("plain");
    assert_eq!(mood, "neutral");
}

#[test]
fn bubble_types_out_then_hides() {
    let mut bubble = Bubble::new();
    assert!(!bubble.is_visible());
    assert!(!bubble.update(5));
    bubble.show("Hello there, friend", 1_000);
    assert!(bubble.is_visible());
    assert_eq!(bubble.text(), "Hello there, friend");
    assert_eq!(bubble.visible_chars(), 0);
    assert!(bubble.update(1_100));
    assert_eq!(bubble.visible_chars(), 3);
    bubble.update(5_000);
    assert_eq!(bubble.visible_chars(), "Hello there, friend".len());
    assert!(bubble.update(1_000 + AUTO_HIDE_DELAY_MS));
    assert!(!bubble.is_visible());
    assert_eq!(bubble.text(), "");
}

#[test]
fn bubble_hides_on_request() {
    let mut bubble = Bubble::new();
    bubble.show("x", 0);
    bubble.hide_now();
    assert!(!bubble.is_visible());
    assert_eq!(bubble.visible_chars(), 0);
}

#[test]
fn overlay_follows_voice_and_mood() {
    let mut mode = OverlayMode::new();
    assert_eq!(mode.voice_state, VoiceState::Idle);
    assert_eq!(
        mode.on_event(OverlayEvent::MoodChanged(Mood::Focused)),
        OverlayAction::Show(ExpressionKind::Focused)
    );
    assert_eq!(mode.on_event(OverlayEvent::VoiceListeningStarted), OverlayAction::Nothing);
    assert_eq!(mode.voice_state, VoiceState::Listening);
    assert_eq!(
        mode.on_event(OverlayEvent::VoiceListeningStopped),
        OverlayAction::Show(ExpressionKind::Focused)
    );
    assert_eq!(mode.on_event(OverlayEvent::VoiceListeningStopped), OverlayAction::Nothing);
    assert_eq!(
        mode.on_event(OverlayEvent::VoiceWakeySpeaking),
        OverlayAction::Show(ExpressionKind::Happy)
    );
    assert_eq!(mode.voice_state, VoiceState::Speaking);
    assert_eq!(
        mode.on_event(OverlayEvent::VoiceError),
        OverlayAction::Show(ExpressionKind::Worried)
    );
    assert_eq!(mode.voice_state, VoiceState::Idle);
    assert_eq!(mode.on_event(OverlayEvent::ShouldSpeak), OverlayAction::Nothing);
    assert_eq!(mode.on_event(OverlayEvent::Shutdown), OverlayAction::Close);
    assert_eq!(mode.mood, Mood::Focused);
}

#[test]
fn a_blink_closes_and_opens_again() {
    assert_eq!(blink_delay(0), 2345);
    assert_eq!(blink_delay(1), 3590);
    let mut blink = Blink::new(0);
    assert_eq!(blink.next_blink, 2345);
    assert!(!blink.update(2344));
    assert!(blink.update(2345));
    assert_eq!(blink.state, BlinkState::Closing(2345));
    assert!(!blink.update(2404));
    assert!(blink.update(2405));
    assert_eq!(blink.state, BlinkState::Closed(2405));
    assert!(blink.update(2485));
    assert_eq!(blink.state, BlinkState::Opening(2485));
    assert!(blink.update(2545));
    assert_eq!(blink.state, BlinkState::Open);
    assert_eq!(blink.next_blink, 2545 + 3590);
}

#[test]
fn a_face_animates_and_blinks() {
    let mut face = Face::new(0);
    assert_eq!(face.current_expression().name, "neutral");
    face.queue_expression(Expression::idea(), 500);
    assert_eq!(face.current_expression().name, "idea");
    assert!(!face.update(600));
    assert!(face.update(620));
    assert_eq!(face.animation.queue_len(), 0);
    assert!(face.update(2345));
    assert_eq!(face.blink.state, BlinkState::Closing(2345));
    face.set_expression(Expression::focused(), 2400);
    assert_eq!(face.current_expression().name, "focused");
    face.reset(2500);
    assert_eq!(face.current_expression().name, "neutral");
}

#[test]
fn lowered_keywords_give_moods() {
    assert_eq!(mood_from_lowered("that was great").as_deref(), Some("happy"));
    assert_eq!(mood_from_lowered("hmm, let me see").as_deref(), Some("thinking"));
    assert_eq!(mood_from_lowered("GREAT"), None);
}
