//! The overlay's reactions to events: its voice-mode state, its mood, and
//! the expression the face shows.
use vstd::prelude::*;
use crate::overlay::expressions::{kind_for_mood, kind_for_mood_spec, ExpressionKind};
use crate::types::Mood;

verus! {

/// Voice mode state for the overlay.
#[derive(Debug, Clone, Copy, PartialEq, Eq, Structural, Default)]
pub enum VoiceState {
    /// Not in voice mode
    #[default]
    Idle,
    /// Listening for user speech
    Listening,
    /// Processing/thinking
    Thinking,
    /// Wakey is speaking
    Speaking,
}

/// The events the overlay reacts to.
#[derive(Debug, Clone, Copy, PartialEq, Eq)]
pub enum OverlayEvent {
    /// Something should be said (it is spoken, not shown).
    ShouldSpeak,
    MoodChanged(Mood),
    VoiceListeningStarted,
    VoiceListeningStopped,
    VoiceUserSpeaking,
    VoiceWakeyThinking,
    VoiceWakeySpeaking,
    VoiceSessionEnded,
    VoiceError,
    Shutdown,
    /// Any other event.
    Other,
}

/// What the overlay does about an event.
#[derive(Debug, Clone, Copy, PartialEq, Eq)]
pub enum OverlayAction {
    Nothing,
    /// Show the given expression.
    Show(ExpressionKind),
    /// Close the overlay.
    Close,
}

/// The overlay's state: the current mood and the voice mode.
#[derive(Debug, Clone, Copy, PartialEq, Eq)]
pub struct OverlayMode {
    pub mood: Mood,
    pub voice_state: VoiceState,
}

/// The overlay's reaction to an event: the mood and voice mode after it, and
/// what to show. The expression of a mood is its preset; speaking shows the
/// happy face; a voice error the worried one.
pub open spec fn overlay_step(m: OverlayMode, e: OverlayEvent) -> (OverlayMode, OverlayAction) {
    match e {
        OverlayEvent::MoodChanged(to) => (
            OverlayMode { mood: to, ..m },
            OverlayAction::Show(kind_for_mood_spec(to)),
        ),
        OverlayEvent::VoiceListeningStarted => (
            OverlayMode { voice_state: VoiceState::Listening, ..m },
            OverlayAction::Nothing,
        ),
        OverlayEvent::VoiceListeningStopped => if m.voice_state == VoiceState::Listening {
            (
                OverlayMode { voice_state: VoiceState::Idle, ..m },
                OverlayAction::Show(kind_for_mood_spec(m.mood)),
            )
        } else {
            (m, OverlayAction::Nothing)
        },
        OverlayEvent::VoiceWakeyThinking => (
            OverlayMode { voice_state: VoiceState::Thinking, ..m },
            OverlayAction::Nothing,
        ),
        OverlayEvent::VoiceWakeySpeaking => (
            OverlayMode { voice_state: VoiceState::Speaking, ..m },
            OverlayAction::Show(ExpressionKind::Happy),
        ),
        OverlayEvent::VoiceSessionEnded => (
            OverlayMode { voice_state: VoiceState::Idle, ..m },
            OverlayAction::Show(kind_for_mood_spec(m.mood)),
        ),
        OverlayEvent::VoiceError => (
            OverlayMode { voice_state: VoiceState::Idle, ..m },
            OverlayAction::Show(ExpressionKind::Worried),
        ),
        OverlayEvent::Shutdown => (m, OverlayAction::Close),
        _ => (m, OverlayAction::Nothing),
    }
}

impl OverlayMode {
    /// A neutral mood, out of voice mode.
    pub fn new() -> (r: Self)
        ensures
            r.mood == Mood::Neutral,
            r.voice_state == VoiceState::Idle,
    {
        OverlayMode { mood: Mood::Neutral, voice_state: VoiceState::Idle }
    }

    /// React to an event.
    pub fn on_event(&mut self, event: OverlayEvent) -> (r: OverlayAction)
        ensures
            (*final(self), r) == overlay_step(*old(self), event),
    {
        match event {
            OverlayEvent::MoodChanged(to) => {
                self.mood = to;
                OverlayAction::Show(kind_for_mood(to))
            },
            OverlayEvent::VoiceListeningStarted => {
                self.voice_state = VoiceState::Listening;
                OverlayAction::Nothing
            },
            OverlayEvent::VoiceListeningStopped => {
                if self.voice_state == VoiceState::Listening {
                    self.voice_state = VoiceState::Idle;
                    OverlayAction::Show(kind_for_mood(self.mood))
                } else {
                    OverlayAction::Nothing
                }
            },
            OverlayEvent::VoiceWakeyThinking => {
                self.voice_state = VoiceState::Thinking;
                OverlayAction::Nothing
            },
            OverlayEvent::VoiceWakeySpeaking => {
                self.voice_state = VoiceState::Speaking;
                OverlayAction::Show(ExpressionKind::Happy)
            },
            OverlayEvent::VoiceSessionEnded => {
                self.voice_state = VoiceState::Idle;
                OverlayAction::Show(kind_for_mood(self.mood))
            },
            OverlayEvent::VoiceError => {
                self.voice_state = VoiceState::Idle;
                OverlayAction::Show(kind_for_mood(Mood::Concerned))
            },
            OverlayEvent::Shutdown => OverlayAction::Close,
            _ => OverlayAction::Nothing,
        }
    }
}

/// Law: when a voice session ends, however it went, the face returns to the
/// expression of the current mood and voice mode is left.
pub proof fn law_session_end_restores_mood(m: OverlayMode)
    ensures
        overlay_step(m, OverlayEvent::VoiceSessionEnded).0.voice_state == VoiceState::Idle,
        overlay_step(m, OverlayEvent::VoiceSessionEnded).1 == OverlayAction::Show(
            kind_for_mood_spec(m.mood),
        ),
        overlay_step(overlay_step(m, OverlayEvent::VoiceWakeySpeaking).0, OverlayEvent::VoiceSessionEnded).1
            == OverlayAction::Show(kind_for_mood_spec(m.mood)),
{
}

} // verus!
