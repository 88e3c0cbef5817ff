//! Voice settings, the Deepgram endpoints, and the decisions of the speech
//! pipeline: voice-activity detection, transcript accumulation and the
//! playback of synthesised speech.
use vstd::prelude::*;
use std::sync::Arc;
use std::sync::atomic::AtomicBool;
use crate::text::{append_chars, chars_of, decimal, decimal_exec, push_str, string_of};
use crate::types::{ChatMessage, VoiceConfig};
use crate::cortex::agent_loop::iteration_messages;
use crate::cortex::decision::messages_view;
use crate::skills::watcher::{json_str_field, json_string_field};

verus! {

/// Speaker configuration
#[derive(Debug, Clone, Copy)]
pub struct SpeakerConfig {
    /// Sample rate (Hz) - 24000 for Deepgram TTS
    pub sample_rate: u32,
    /// Channels - 1 for mono
    pub channels: u16,
}

impl Default for SpeakerConfig {
    fn default() -> (r: Self)
        ensures
            r.sample_rate == 24000,
            r.channels == 1,
    {
        SpeakerConfig { sample_rate: 24000, channels: 1 }
    }
}

impl SpeakerConfig {
    pub fn from_voice_config(config: &VoiceConfig) -> (r: Self)
        ensures
            r.sample_rate == config.tts_sample_rate,
            r.channels == 1,
    {
        SpeakerConfig { sample_rate: config.tts_sample_rate, channels: 1 }
    }
}

/// Mic capture configuration
#[derive(Debug, Clone, Copy)]
pub struct MicConfig {
    /// Sample rate (Hz) - 16000 for Deepgram STT
    pub sample_rate: u32,
    /// Channels - 1 for mono
    pub channels: u16,
}

impl Default for MicConfig {
    fn default() -> (r: Self)
        ensures
            r.sample_rate == 16000,
            r.channels == 1,
    {
        MicConfig { sample_rate: 16000, channels: 1 }
    }
}

impl MicConfig {
    pub fn from_voice_config(config: &VoiceConfig) -> (r: Self)
        ensures
            r.sample_rate == config.asr_sample_rate,
            r.channels == 1,
    {
        MicConfig { sample_rate: config.asr_sample_rate, channels: 1 }
    }
}

/// Mic capture errors
#[derive(Debug)]
pub enum MicError {
    NoInputDevice,
    Stream(String),
}

/// Speaker errors
#[derive(Debug)]
pub enum SpeakerError {
    NoOutputDevice,
    Stream(String),
}

/// STT errors
#[derive(Debug)]
pub enum SttError {
    WebSocket(String),
    Connection(String),
}

/// Voice session errors.
#[derive(Debug)]
pub enum VoiceError {
    Disabled,
    MissingApiKey(String),
    Pipeline(String),
    NoInputDevice,
    NoOutputDevice,
    AudioStream(String),
    WebSocket(String),
    Serialization(String),
    Llm(String),
}

/// The message of a configuration whose API key variable is unset.
pub open spec fn missing_key_message(env: Seq<char>) -> Seq<char> {
    "Missing API key: "@ + env
}

fn missing_key(env: &str) -> (r: String)
    ensures
        r@ == missing_key_message(env@),
{
    let mut v: Vec<char> = Vec::new();
    push_str(&mut v, "Missing API key: ");
    push_str(&mut v, env);
    string_of(&v)
}

/// STT configuration
#[derive(Debug, Clone)]
pub struct SttConfig {
    api_key: String,
    model: String,
    sample_rate: u32,
    language: String,
    endpointing_ms: u32,
}

impl SttConfig {
    pub closed spec fn view_parts(&self) -> (Seq<char>, Seq<char>, u32, Seq<char>, u32) {
        (self.api_key@, self.model@, self.sample_rate, self.language@, self.endpointing_ms)
    }

    pub fn new(
        api_key: String,
        model: String,
        sample_rate: u32,
        language: String,
        endpointing_ms: u32,
    ) -> (r: Self)
        ensures
            r.view_parts() == (api_key@, model@, sample_rate, language@, endpointing_ms),
    {
        SttConfig { api_key, model, sample_rate, language, endpointing_ms }
    }

    /// The settings of a voice configuration, with the API key that its
    /// `api_key_env` variable holds; the error message when it is unset.
    pub fn from_voice_config(config: &VoiceConfig, api_key: Option<String>) -> (r: Result<
        Self,
        String,
    >)
        ensures
            api_key is None ==> (r matches Err(m) && m@ == missing_key_message(config.api_key_env@)),
            api_key matches Some(k) ==> (r matches Ok(c) && c.view_parts() == (
                k@,
                config.stt_model@,
                config.asr_sample_rate,
                config.language@,
                config.endpointing_ms,
            )),
    {
        match api_key {
            Some(k) => Ok(
                SttConfig::new(
                    k,
                    config.stt_model.clone(),
                    config.asr_sample_rate,
                    config.language.clone(),
                    config.endpointing_ms,
                ),
            ),
            None => Err(missing_key(config.api_key_env.as_str())),
        }
    }

    /// The Deepgram listening URL for these settings.
    pub fn url(&self) -> (r: String)
        ensures
            r@ == "wss://api.deepgram.com/v1/listen"@ + "?encoding=linear16&sample_rate="@ + decimal(
                self.view_parts().2 as nat,
            ) + "&channels=1&model="@ + self.view_parts().1 + "&smart_format=true&endpointing="@
                + decimal(self.view_parts().4 as nat) + "&language="@ + self.view_parts().3,
    {
        let mut v: Vec<char> = Vec::new();
        push_str(&mut v, "wss://api.deepgram.com/v1/listen");
        push_str(&mut v, "?encoding=linear16&sample_rate=");
        let sr = decimal_exec(self.sample_rate as u64);
        append_chars(&mut v, &sr);
        push_str(&mut v, "&channels=1&model=");
        push_str(&mut v, self.model.as_str());
        push_str(&mut v, "&smart_format=true&endpointing=");
        let ep = decimal_exec(self.endpointing_ms as u64);
        append_chars(&mut v, &ep);
        push_str(&mut v, "&language=");
        push_str(&mut v, self.language.as_str());
        string_of(&v)
    }

    /// The authorization header value for these settings.
    pub fn authorization(&self) -> (r: String)
        ensures
            r@ == "Token "@ + self.view_parts().0,
    {
        let mut v: Vec<char> = Vec::new();
        push_str(&mut v, "Token ");
        push_str(&mut v, self.api_key.as_str());
        string_of(&v)
    }
}

/// TTS configuration
#[derive(Debug, Clone)]
pub struct TtsConfig {
    api_key: String,
    model: String,
    sample_rate: u32,
}

impl TtsConfig {
    pub closed spec fn view_parts(&self) -> (Seq<char>, Seq<char>, u32) {
        (self.api_key@, self.model@, self.sample_rate)
    }

    pub fn new(api_key: String, model: String, sample_rate: u32) -> (r: Self)
        ensures
            r.view_parts() == (api_key@, model@, sample_rate),
    {
        TtsConfig { api_key, model, sample_rate }
    }

    /// The settings of a voice configuration, with the API key that its
    /// `api_key_env` variable holds; the error message when it is unset.
    pub fn from_voice_config(config: &VoiceConfig, api_key: Option<String>) -> (r: Result<
        Self,
        String,
    >)
        ensures
            api_key is None ==> (r matches Err(m) && m@ == missing_key_message(config.api_key_env@)),
            api_key matches Some(k) ==> (r matches Ok(c) && c.view_parts() == (
                k@,
                config.tts_model@,
                config.tts_sample_rate,
            )),
    {
        match api_key {
            Some(k) => Ok(TtsConfig::new(k, config.tts_model.clone(), config.tts_sample_rate)),
            None => Err(missing_key(config.api_key_env.as_str())),
        }
    }

    /// The Deepgram speaking URL for these settings.
    pub fn url(&self) -> (r: String)
        ensures
            r@ == "wss://api.deepgram.com/v1/speak"@ + "?encoding=linear16&sample_rate="@ + decimal(
                self.view_parts().2 as nat,
            ) + "&model="@ + self.view_parts().1,
    {
        let mut v: Vec<char> = Vec::new();
        push_str(&mut v, "wss://api.deepgram.com/v1/speak");
        push_str(&mut v, "?encoding=linear16&sample_rate=");
        let sr = decimal_exec(self.sample_rate as u64);
        append_chars(&mut v, &sr);
        push_str(&mut v, "&model=");
        push_str(&mut v, self.model.as_str());
        string_of(&v)
    }

    /// The authorization header value for these settings.
    pub fn authorization(&self) -> (r: String)
        ensures
            r@ == "Token "@ + self.view_parts().0,
    {
        let mut v: Vec<char> = Vec::new();
        push_str(&mut v, "Token ");
        push_str(&mut v, self.api_key.as_str());
        string_of(&v)
    }
}

/// Deepgram STT client settings and its running flag.
pub struct DeepgramStt {
    pub config: SttConfig,
    pub running: Arc<AtomicBool>,
}

impl DeepgramStt {
    pub fn new(config: SttConfig, running: Arc<AtomicBool>) -> (r: Self)
        ensures
            r.config.view_parts() == config.view_parts(),
    {
        DeepgramStt { config, running }
    }
}

/// Deepgram TTS client settings and its running flag.
pub struct DeepgramTts {
    pub config: TtsConfig,
    pub running: Arc<AtomicBool>,
}

impl DeepgramTts {
    pub fn new(config: TtsConfig, running: Arc<AtomicBool>) -> (r: Self)
        ensures
            r.config.view_parts() == config.view_parts(),
    {
        DeepgramTts { config, running }
    }
}

/// STT result
#[derive(Debug, Clone)]
pub struct SttResult {
    /// Transcript text
    pub text: String,
    /// Is this a final transcript (vs interim)
    pub is_final: bool,
    /// Did speech end (turn complete)
    pub is_speech_final: bool,
}

/// VAD event emitted when state changes
#[derive(Debug, Clone, Copy, PartialEq, Eq)]
pub enum VadEvent {
    /// User started speaking (debounced)
    SpeechStarted,
    /// User stopped speaking (endpointed)
    SpeechEnded,
    /// Still in speech (continuous)
    SpeechActive,
    /// Still in silence (continuous)
    SilenceActive,
}

/// Whether a VAD event marks a change of state worth passing on.
pub fn is_transition(event: VadEvent) -> (r: bool)
    ensures
        r == (event == VadEvent::SpeechStarted || event == VadEvent::SpeechEnded),
{
    match event {
        VadEvent::SpeechStarted | VadEvent::SpeechEnded => true,
        _ => false,
    }
}

/// The debouncing state machine of energy-based voice-activity detection.
/// Each frame is classified as speech or silence before it reaches the machine.
#[derive(Debug, Clone, Copy)]
pub struct VadState {
    /// Consecutive frames with speech
    pub speech_frames: u32,
    /// Consecutive frames with silence
    pub silence_frames: u32,
    /// Whether speech was confirmed and has not ended
    pub in_speech: bool,
    /// Whether the start of speech was reported
    pub speech_started_emitted: bool,
    /// Consecutive speech frames that confirm speech started
    pub min_speech_frames: u32,
    /// Consecutive silence frames that end speech
    pub min_silence_frames: u32,
}

impl VadState {
    /// A machine in silence with the given debounce and endpointing lengths.
    pub fn new(min_speech_frames: u32, min_silence_frames: u32) -> (r: Self)
        ensures
            r.speech_frames == 0 && r.silence_frames == 0,
            !r.in_speech && !r.speech_started_emitted,
            r.min_speech_frames == min_speech_frames,
            r.min_silence_frames == min_silence_frames,
    {
        VadState {
            speech_frames: 0,
            silence_frames: 0,
            in_speech: false,
            speech_started_emitted: false,
            min_speech_frames,
            min_silence_frames,
        }
    }

    /// The lengths taken from a voice configuration: ten speech frames, and one
    /// silence frame per ten milliseconds of endpointing.
    pub fn from_voice_config(config: &VoiceConfig) -> (r: Self)
        ensures
            r.speech_frames == 0 && r.silence_frames == 0,
            !r.in_speech && !r.speech_started_emitted,
            r.min_speech_frames == 10,
            r.min_silence_frames == config.endpointing_ms / 10,
    {
        VadState::new(10, config.endpointing_ms / 10)
    }

    /// Process a frame classified as speech or silence and return the VAD event.
    pub fn step(&mut self, is_speech: bool) -> (r: VadEvent)
        requires
            old(self).speech_frames < u32::MAX,
            old(self).silence_frames < u32::MAX,
        ensures
            (*final(self), r) == vad_step(*old(self), is_speech),
    {
        if is_speech {
            self.speech_frames = self.speech_frames + 1;
            self.silence_frames = 0;
            if self.in_speech {
                VadEvent::SpeechActive
            } else if self.speech_frames >= self.min_speech_frames {
                self.in_speech = true;
                self.speech_started_emitted = true;
                VadEvent::SpeechStarted
            } else {
                VadEvent::SilenceActive
            }
        } else {
            self.silence_frames = self.silence_frames + 1;
            self.speech_frames = 0;
            if self.in_speech {
                if self.silence_frames >= self.min_silence_frames {
                    self.in_speech = false;
                    self.speech_started_emitted = false;
                    VadEvent::SpeechEnded
                } else {
                    VadEvent::SpeechActive
                }
            } else {
                VadEvent::SilenceActive
            }
        }
    }

    /// Check if currently in speech mode
    pub fn is_speaking(&self) -> (r: bool)
        ensures
            r == self.in_speech,
    {
        self.in_speech
    }

    /// Reset VAD state
    pub fn reset(&mut self)
        ensures
            final(self).speech_frames == 0 && final(self).silence_frames == 0,
            !final(self).in_speech && !final(self).speech_started_emitted,
            final(self).min_speech_frames == old(self).min_speech_frames,
            final(self).min_silence_frames == old(self).min_silence_frames,
    {
        self.speech_frames = 0;
        self.silence_frames = 0;
        self.in_speech = false;
        self.speech_started_emitted = false;
    }
}

/// One frame through the machine: speech frames confirm speech after
/// `min_speech_frames` in a row, silence frames end it after
/// `min_silence_frames` in a row.
pub open spec fn vad_step(s: VadState, is_speech: bool) -> (VadState, VadEvent) {
    if is_speech {
        let t = VadState { speech_frames: (s.speech_frames + 1) as u32, silence_frames: 0, ..s };
        if s.in_speech {
            (t, VadEvent::SpeechActive)
        } else if s.speech_frames + 1 >= s.min_speech_frames {
            (VadState { in_speech: true, speech_started_emitted: true, ..t }, VadEvent::SpeechStarted)
        } else {
            (t, VadEvent::SilenceActive)
        }
    } else {
        let t = VadState { silence_frames: (s.silence_frames + 1) as u32, speech_frames: 0, ..s };
        if s.in_speech {
            if s.silence_frames + 1 >= s.min_silence_frames {
                (
                    VadState { in_speech: false, speech_started_emitted: false, ..t },
                    VadEvent::SpeechEnded,
                )
            } else {
                (t, VadEvent::SpeechActive)
            }
        } else {
            (t, VadEvent::SilenceActive)
        }
    }
}

/// Law: the machine is in speech exactly after a start or a continuing
/// speech frame; speech starts only from silence and ends only from speech,
/// so starts and ends strictly alternate, beginning with a start.
pub proof fn law_vad_alternation(s: VadState, is_speech: bool)
    ensures
        vad_step(s, is_speech).0.in_speech == (vad_step(s, is_speech).1 is SpeechStarted
            || vad_step(s, is_speech).1 is SpeechActive),
        vad_step(s, is_speech).1 is SpeechStarted ==> !s.in_speech,
        vad_step(s, is_speech).1 is SpeechEnded ==> s.in_speech,
        vad_step(s, is_speech).1 is SpeechActive ==> s.in_speech,
{
}

/// The machine after a run of frames.
pub open spec fn vad_run(s: VadState, frames: Seq<bool>) -> VadState
    decreases frames.len(),
{
    if frames.len() == 0 {
        s
    } else {
        vad_step(vad_run(s, frames.drop_last()), frames.last()).0
    }
}

/// How many frames at the end of the run are `b`.
pub open spec fn trailing(frames: Seq<bool>, b: bool) -> nat
    decreases frames.len(),
{
    if frames.len() == 0 {
        0
    } else if frames.last() == b {
        trailing(frames.drop_last(), b) + 1
    } else {
        0
    }
}

proof fn lemma_trailing_bound(frames: Seq<bool>, b: bool)
    ensures
        trailing(frames, b) <= frames.len(),
    decreases frames.len(),
{
    if frames.len() > 0 {
        lemma_trailing_bound(frames.drop_last(), b);
    }
}

/// Law: from silence, the machine counts the speech and silence frames at the
/// end of any run; so speech is reported as started only at the end of
/// `min_speech_frames` speech frames in a row, and as ended only at the end of
/// `min_silence_frames` silence frames in a row.
pub proof fn law_vad_debounce(s: VadState, frames: Seq<bool>, next: bool)
    requires
        s.speech_frames == 0,
        s.silence_frames == 0,
        frames.len() + 1 < u32::MAX,
    ensures
        vad_run(s, frames).speech_frames == trailing(frames, true),
        vad_run(s, frames).silence_frames == trailing(frames, false),
        vad_step(vad_run(s, frames), next).1 == VadEvent::SpeechStarted ==> next && trailing(
            frames.push(next),
            true,
        ) >= s.min_speech_frames,
        vad_step(vad_run(s, frames), next).1 == VadEvent::SpeechEnded ==> !next && trailing(
            frames.push(next),
            false,
        ) >= s.min_silence_frames,
    decreases frames.len(),
{
    if frames.len() > 0 {
        law_vad_debounce(s, frames.drop_last(), frames.last());
        lemma_trailing_bound(frames.drop_last(), true);
        lemma_trailing_bound(frames.drop_last(), false);
    }
    assert(frames.push(next).drop_last() =~= frames);
    lemma_vad_run_thresholds(s, frames);
}

proof fn lemma_vad_run_thresholds(s: VadState, frames: Seq<bool>)
    ensures
        vad_run(s, frames).min_speech_frames == s.min_speech_frames,
        vad_run(s, frames).min_silence_frames == s.min_silence_frames,
    decreases frames.len(),
{
    if frames.len() > 0 {
        lemma_vad_run_thresholds(s, frames.drop_last());
    }
}

/// System prompt for voice conversations.
pub const VOICE_SYSTEM_PROMPT: &'static str = r#"You are Wakey, a friendly voice companion that lives on the user's laptop.
You're warm, curious, and a little playful. Keep responses conversational and concise — this is a voice conversation, so avoid long paragraphs.
You can see what the user is doing on their screen, remember past conversations, and help with tasks.
Be yourself. Don't announce that you're an AI. Just be Wakey."#;

/// Messages a voice conversation keeps: the last five exchanges.
pub const VOICE_HISTORY_MESSAGES: usize = 10;

/// The last `n` items of `s`, or all of them when there are fewer.
pub open spec fn keep_last<T>(s: Seq<T>, n: nat) -> Seq<T> {
    if s.len() > n {
        s.skip(s.len() - n)
    } else {
        s
    }
}

/// The history after an exchange: the user's words and the reply join it,
/// and only the newest messages are kept.
pub open spec fn voice_history_after(
    h: Seq<(Seq<char>, Seq<char>)>,
    user: Seq<char>,
    reply: Seq<char>,
) -> Seq<(Seq<char>, Seq<char>)> {
    keep_last(h + seq![("user"@, user), ("assistant"@, reply)], VOICE_HISTORY_MESSAGES as nat)
}

/// The recent exchanges of a voice conversation, sent with each new turn.
pub struct VoiceConversation {
    history: Vec<ChatMessage>,
}

impl VoiceConversation {
    pub closed spec fn history_view(&self) -> Seq<(Seq<char>, Seq<char>)> {
        messages_view(self.history@)
    }

    /// A conversation with no exchange yet.
    pub fn new() -> (r: Self)
        ensures
            r.history_view() == Seq::<(Seq<char>, Seq<char>)>::empty(),
    {
        let r = VoiceConversation { history: Vec::new() };
        assert(r.history_view() =~= Seq::<(Seq<char>, Seq<char>)>::empty());
        r
    }

    /// The messages of a turn: the voice system prompt, the history, then
    /// what the user said.
    pub fn messages_for(&self, user_text: &str) -> (r: Vec<ChatMessage>)
        ensures
            messages_view(r@) == seq![("system"@, VOICE_SYSTEM_PROMPT@)] + self.history_view() + seq![
                ("user"@, user_text@),
            ],
    {
        iteration_messages(VOICE_SYSTEM_PROMPT, &self.history, user_text)
    }

    /// Record an exchange, keeping the newest messages only.
    pub fn record_exchange(&mut self, user_text: &str, reply: &str)
        ensures
            final(self).history_view() == voice_history_after(
                old(self).history_view(),
                user_text@,
                reply@,
            ),
    {
        let ghost h = self.history_view();
        let u = ChatMessage::user(user_text);
        let a = ChatMessage::assistant(reply);
        self.history.push(u);
        self.history.push(a);
        let ghost full = h + seq![("user"@, user_text@), ("assistant"@, reply@)];
        assert(messages_view(self.history@) =~= full);
        while self.history.len() > VOICE_HISTORY_MESSAGES
            invariant
                messages_view(self.history@) == full.skip(full.len() - self.history@.len()),
                self.history@.len() <= full.len(),
                full.len() > VOICE_HISTORY_MESSAGES ==> self.history@.len() >= VOICE_HISTORY_MESSAGES,
                full.len() <= VOICE_HISTORY_MESSAGES ==> self.history@.len() == full.len(),
            decreases self.history@.len(),
        {
            let ghost before = messages_view(self.history@);
            self.history.remove(0);
            assert(messages_view(self.history@) =~= before.drop_first());
            assert(before.drop_first() =~= full.skip(full.len() - self.history@.len()));
        }
        assert(full.skip(0) =~= full);
    }
}

/// Law: a voice conversation never keeps more than five exchanges, and the
/// newest exchange is always its last two messages.
pub proof fn law_voice_history_bounded(
    h: Seq<(Seq<char>, Seq<char>)>,
    user: Seq<char>,
    reply: Seq<char>,
)
    ensures
        voice_history_after(h, user, reply).len() <= VOICE_HISTORY_MESSAGES,
        voice_history_after(h, user, reply).len() >= 2,
        voice_history_after(h, user, reply).last() == ("assistant"@, reply),
        voice_history_after(h, user, reply)[voice_history_after(h, user, reply).len() - 2] == (
            "user"@,
            user,
        ),
{
}

/// What the voice pipeline does next.
#[derive(Debug, Clone, PartialEq, Eq)]
pub enum PipelineAction {
    /// Stop the speech being played and drop what is buffered.
    StopPlayback,
    /// Tell that listening started.
    ListeningStarted,
    /// Tell that listening stopped.
    ListeningStopped,
    /// Tell what the user said, and whether it is final.
    UserSpeaking { text: String, is_final: bool },
    /// Answer the user's turn: ask the model, then speak the reply.
    Respond(String),
}

/// A view of an action, with its texts as character sequences.
pub enum ActionView {
    StopPlayback,
    ListeningStarted,
    ListeningStopped,
    UserSpeaking(Seq<char>, bool),
    Respond(Seq<char>),
}

pub open spec fn action_view(a: PipelineAction) -> ActionView {
    match a {
        PipelineAction::StopPlayback => ActionView::StopPlayback,
        PipelineAction::ListeningStarted => ActionView::ListeningStarted,
        PipelineAction::ListeningStopped => ActionView::ListeningStopped,
        PipelineAction::UserSpeaking { text, is_final } => ActionView::UserSpeaking(text@, is_final),
        PipelineAction::Respond(t) => ActionView::Respond(t@),
    }
}

pub open spec fn actions_view(v: Seq<PipelineAction>) -> Seq<ActionView> {
    v.map_values(|a: PipelineAction| action_view(a))
}

/// The reaction to the voice detector: when the user starts speaking over
/// the companion, playback stops (barge-in); listening (re)starts.
pub open spec fn vad_actions(playing: bool, event: VadEvent) -> Seq<ActionView> {
    match event {
        VadEvent::SpeechStarted => if playing {
            seq![ActionView::StopPlayback, ActionView::ListeningStopped, ActionView::ListeningStarted]
        } else {
            seq![ActionView::ListeningStarted]
        },
        _ => Seq::empty(),
    }
}

/// The reaction to a transcript: a finished turn with words is answered; an
/// empty finished turn is ignored; other results are passed on to the face.
pub open spec fn transcript_actions(r: (Seq<char>, bool, bool)) -> Seq<ActionView> {
    let (text, is_final, speech_final) = r;
    if speech_final {
        if text.len() > 0 {
            seq![
                ActionView::ListeningStopped,
                ActionView::UserSpeaking(text, true),
                ActionView::Respond(text),
            ]
        } else {
            Seq::empty()
        }
    } else {
        seq![ActionView::UserSpeaking(text, is_final)]
    }
}

/// The decisions of a voice conversation: whether the companion is speaking,
/// and what to do on each detector event or transcript.
pub struct PipelineTurn {
    pub tts_playing: bool,
}

impl PipelineTurn {
    /// Not speaking.
    pub fn new() -> (r: Self)
        ensures
            !r.tts_playing,
    {
        PipelineTurn { tts_playing: false }
    }

    /// React to the voice detector.
    pub fn on_vad(&mut self, event: VadEvent) -> (r: Vec<PipelineAction>)
        ensures
            actions_view(r@) == vad_actions(old(self).tts_playing, event),
            final(self).tts_playing == (old(self).tts_playing && !(event is SpeechStarted)),
    {
        let mut out: Vec<PipelineAction> = Vec::new();
        match event {
            VadEvent::SpeechStarted => {
                if self.tts_playing {
                    out.push(PipelineAction::StopPlayback);
                    out.push(PipelineAction::ListeningStopped);
                    self.tts_playing = false;
                }
                out.push(PipelineAction::ListeningStarted);
            },
            _ => {},
        }
        assert(actions_view(out@) =~= vad_actions(old(self).tts_playing, event));
        out
    }

    /// React to a transcript.
    pub fn on_transcript(&self, result: &SttResult) -> (r: Vec<PipelineAction>)
        ensures
            actions_view(r@) == transcript_actions(result_view(*result)),
    {
        let mut out: Vec<PipelineAction> = Vec::new();
        if result.is_speech_final {
            if result.text.unicode_len() > 0 {
                out.push(PipelineAction::ListeningStopped);
                out.push(PipelineAction::UserSpeaking { text: result.text.clone(), is_final: true });
                out.push(PipelineAction::Respond(result.text.clone()));
            }
        } else {
            out.push(
                PipelineAction::UserSpeaking { text: result.text.clone(), is_final: result.is_final },
            );
        }
        assert(actions_view(out@) =~= transcript_actions(result_view(*result)));
        out
    }

    /// Speech playback starts.
    pub fn speaking_started(&mut self)
        ensures
            final(self).tts_playing,
    {
        self.tts_playing = true;
    }

    /// Speech playback ended or was stopped.
    pub fn speaking_ended(&mut self)
        ensures
            !final(self).tts_playing,
    {
        self.tts_playing = false;
    }
}

/// Law: when the user starts speaking, the companion is silent afterwards,
/// and it stops its speech first whenever it was speaking.
pub proof fn law_barge_in(playing: bool)
    ensures
        playing ==> vad_actions(playing, VadEvent::SpeechStarted)[0] == ActionView::StopPlayback,
        vad_actions(playing, VadEvent::SpeechStarted).last() == ActionView::ListeningStarted,
{
}

/// Detects the user talking over the companion's speech.
pub struct InterruptionChecker {
    vad: VadState,
}

impl InterruptionChecker {
    /// A checker with the detector settings of the voice configuration.
    pub fn new(config: &VoiceConfig) -> (r: Self)
        ensures
            r.vad_state().speech_frames == 0 && r.vad_state().silence_frames == 0,
            !r.vad_state().in_speech && !r.vad_state().speech_started_emitted,
            r.vad_state().min_speech_frames == 10,
            r.vad_state().min_silence_frames == config.endpointing_ms / 10,
    {
        InterruptionChecker { vad: VadState::from_voice_config(config) }
    }

    pub closed spec fn vad_state(&self) -> VadState {
        self.vad
    }

    /// Whether this frame (speech or not) starts the user's speech.
    pub fn check(&mut self, is_speech: bool) -> (r: bool)
        requires
            old(self).vad_state().speech_frames < u32::MAX,
            old(self).vad_state().silence_frames < u32::MAX,
        ensures
            final(self).vad_state() == vad_step(old(self).vad_state(), is_speech).0,
            r == (vad_step(old(self).vad_state(), is_speech).1 is SpeechStarted),
    {
        let e = self.vad.step(is_speech);
        match e {
            VadEvent::SpeechStarted => true,
            _ => false,
        }
    }
}

/// One alternative transcript of a response.
#[derive(Debug, Clone)]
pub struct SttAlternative {
    pub transcript: String,
}

/// The channel of a response, with its alternatives.
#[derive(Debug, Clone)]
pub struct SttChannel {
    pub alternatives: Option<Vec<SttAlternative>>,
}

/// A response of the speech-to-text service, as far as it is read.
#[derive(Debug, Clone)]
pub struct SttResponse {
    pub is_final: Option<bool>,
    pub speech_final: Option<bool>,
    pub channel: Option<SttChannel>,
}

/// The transcript of the first alternative of a response, if it has one.
pub open spec fn first_transcript_spec(r: SttResponse) -> Option<Seq<char>> {
    match r.channel {
        Some(c) => match c.alternatives {
            Some(a) => if a@.len() > 0 {
                Some(a@[0].transcript@)
            } else {
                None
            },
            None => None,
        },
        None => None,
    }
}

/// The transcript of the first alternative of a response.
pub fn first_transcript(response: &SttResponse) -> (r: Option<&str>)
    ensures
        match first_transcript_spec(*response) {
            Some(t) => r matches Some(x) && x@ == t,
            None => r is None,
        },
{
    match &response.channel {
        Some(c) => match &c.alternatives {
            Some(a) => {
                if a.len() > 0 {
                    Some(a[0].transcript.as_str())
                } else {
                    None
                }
            },
            None => None,
        },
        None => None,
    }
}

/// Extract the transcript from a response: the first alternative's, when it
/// is not empty.
pub fn extract_transcript(response: &SttResponse) -> (r: Option<String>)
    ensures
        match first_transcript_spec(*response) {
            Some(t) => if t.len() > 0 {
                r matches Some(x) && x@ == t
            } else {
                r is None
            },
            None => r is None,
        },
{
    match first_transcript(response) {
        Some(t) => {
            if t.unicode_len() > 0 {
                Some(String::from_str(t))
            } else {
                None
            }
        },
        None => None,
    }
}

/// The running transcript of a speech-to-text session.
pub struct TranscriptAccumulator {
    accumulated: String,
}

/// The transcript after a final piece `t`: pieces are joined by single spaces.
pub open spec fn accumulate(acc: Seq<char>, t: Seq<char>) -> Seq<char> {
    if acc.len() == 0 {
        t
    } else {
        acc + seq![' '] + t
    }
}

/// The accumulated transcript after a response.
pub open spec fn accumulated_after(acc: Seq<char>, transcript: Option<Seq<char>>, is_final: bool) -> Seq<
    char,
> {
    match transcript {
        Some(t) => if t.len() > 0 && is_final {
            accumulate(acc, t)
        } else {
            acc
        },
        None => acc,
    }
}

/// The (text, is_final, is_speech_final) of a result.
pub open spec fn result_view(r: SttResult) -> (Seq<char>, bool, bool) {
    (r.text@, r.is_final, r.is_speech_final)
}

/// The results a response yields: its non-empty transcript, final or interim,
/// then, when speech is final and something was accumulated, the whole turn.
pub open spec fn results_of(
    acc: Seq<char>,
    transcript: Option<Seq<char>>,
    is_final: bool,
    speech_final: bool,
) -> Seq<(Seq<char>, bool, bool)> {
    let first: Seq<(Seq<char>, bool, bool)> = match transcript {
        Some(t) => if t.len() > 0 {
            seq![(t, is_final, false)]
        } else {
            Seq::empty()
        },
        None => Seq::empty(),
    };
    let acc2 = accumulated_after(acc, transcript, is_final);
    first + if speech_final && acc2.len() > 0 {
        seq![(acc2, true, true)]
    } else {
        Seq::empty()
    }
}

impl TranscriptAccumulator {
    pub closed spec fn text(&self) -> Seq<char> {
        self.accumulated@
    }

    /// An empty transcript.
    pub fn new() -> (r: Self)
        ensures
            r.text() == Seq::<char>::empty(),
    {
        TranscriptAccumulator { accumulated: String::new() }
    }

    /// Takes one response of the service: its transcript, whether it is final
    /// and whether the speaker's turn ended; returns the results to pass on.
    pub fn on_response(
        &mut self,
        transcript: Option<&str>,
        is_final: Option<bool>,
        speech_final: Option<bool>,
    ) -> (r: Vec<SttResult>)
        ensures
            final(self).text() == accumulated_after(
                old(self).text(),
                match transcript {
                    Some(t) => Some(t@),
                    None => None,
                },
                is_final == Some(true),
            ),
            r@.map_values(|x: SttResult| result_view(x)) == results_of(
                old(self).text(),
                match transcript {
                    Some(t) => Some(t@),
                    None => None,
                },
                is_final == Some(true),
                speech_final == Some(true),
            ),
    {
        let fin = match is_final {
            Some(b) => b,
            None => false,
        };
        let sfin = match speech_final {
            Some(b) => b,
            None => false,
        };
        let ghost acc0 = self.accumulated@;
        let mut out: Vec<SttResult> = Vec::new();
        match transcript {
            Some(t) => {
                if t.unicode_len() > 0 {
                    if fin {
                        let mut v = chars_of(self.accumulated.as_str());
                        if v.len() > 0 {
                            v.push(' ');
                        }
                        push_str(&mut v, t);
                        assert(v@ =~= accumulate(acc0, t@));
                        self.accumulated = string_of(&v);
                    }
                    out.push(SttResult { text: String::from_str(t), is_final: fin, is_speech_final: false });
                }
            },
            None => {},
        }
        let ghost first = out@.map_values(|x: SttResult| result_view(x));
        if sfin && self.accumulated.unicode_len() > 0 {
            out.push(
                SttResult { text: self.accumulated.clone(), is_final: true, is_speech_final: true },
            );
        }
        proof {
            let tv = match transcript {
                Some(t) => Some(t@),
                None => None::<Seq<char>>,
            };
            let expect = results_of(acc0, tv, fin, sfin);
            assert(out@.map_values(|x: SttResult| result_view(x)) =~= expect);
        }
        out
    }
}

/// Law: only final pieces are kept. A response that is not final leaves the
/// transcript as it was, so after any interim responses on a fresh
/// accumulator, a final non-empty piece that ends the turn yields the turn
/// as exactly that piece; and a final piece extends the transcript by itself,
/// after a space when something was kept before.
pub proof fn law_interim_pieces_are_not_kept(
    acc: Seq<char>,
    interim: Seq<Option<Seq<char>>>,
    t: Seq<char>,
)
    ensures
        forall|p: Option<Seq<char>>| #[trigger] accumulated_after(acc, p, false) == acc,
        interims_after(Seq::empty(), interim) == Seq::<char>::empty(),
        t.len() > 0 ==> results_of(interims_after(Seq::empty(), interim), Some(t), true, true).last()
            == (t, true, true),
        t.len() > 0 ==> accumulated_after(acc, Some(t), true) == (if acc.len() == 0 {
            t
        } else {
            acc + seq![' '] + t
        }),
        t.len() > 0 ==> accumulated_after(acc, Some(t), true).subrange(0, acc.len() as int) == acc,
    decreases interim.len(),
{
    if interim.len() > 0 {
        law_interim_pieces_are_not_kept(acc, interim.drop_last(), t);
    }
    if t.len() > 0 {
        let a2 = accumulated_after(acc, Some(t), true);
        if acc.len() > 0 {
            assert(a2.subrange(0, acc.len() as int) =~= acc);
        } else {
            assert(a2.subrange(0, 0) =~= acc);
        }
        let r = results_of(Seq::empty(), Some(t), true, true);
        assert(r =~= seq![(t, true, false), (t, true, true)]);
    }
}

/// Law: what a response passes on. A non-empty piece is passed on first,
/// marked final as the service marked it and never as the end of the turn;
/// when the turn ends and something was kept, the last result is the whole
/// kept transcript marked as the end of the turn; nothing else is passed on.
pub proof fn law_response_results(
    acc: Seq<char>,
    t: Option<Seq<char>>,
    is_final: bool,
    speech_final: bool,
)
    ensures
        ({
            let r = results_of(acc, t, is_final, speech_final);
            let kept = accumulated_after(acc, t, is_final);
            &&& r.len() <= 2
            &&& match t {
                Some(x) => x.len() > 0 ==> r.len() >= 1 && r[0] == (x, is_final, false),
                None => true,
            }
            &&& !(t matches Some(x) && x.len() > 0) ==> kept == acc
            &&& (speech_final && kept.len() > 0) ==> r.last() == (kept, true, true)
            &&& !(speech_final && kept.len() > 0) ==> r.len() == (if t matches Some(x) && x.len() > 0 {
                1int
            } else {
                0int
            })
            &&& forall|i: int| 0 <= i < r.len() && (#[trigger] r[i]).2 ==> r[i] == (kept, true, true)
        }),
{
}

/// The transcript after a run of responses that are not final.
pub open spec fn interims_after(acc: Seq<char>, pieces: Seq<Option<Seq<char>>>) -> Seq<char>
    decreases pieces.len(),
{
    if pieces.len() == 0 {
        acc
    } else {
        accumulated_after(interims_after(acc, pieces.drop_last()), pieces.last(), false)
    }
}

/// Number of audio chunks gathered before playback starts.
pub const PRE_BUFFER_CHUNKS: usize = 5;

/// The playback buffer holds fewer than this many chunks.
pub const MAX_BUFFER_SIZE: usize = 480_000;

/// What the speech-synthesis connection delivered.
#[derive(Debug, Clone)]
pub enum TtsFrame {
    /// A chunk of audio of the given length in bytes.
    Audio { len: usize },
    /// The service finished synthesis.
    Flushed,
    /// The service reported an error, with its message if it gave one.
    Error { message: Option<String> },
    /// Any other metadata, or text that is not metadata.
    Other,
    /// The service closed the connection.
    Closed,
    /// The connection failed.
    Failed { error: String },
    /// The connection ended.
    Ended,
}

/// What to do with a frame while speaking.
#[derive(Debug, Clone, PartialEq, Eq)]
pub enum TtsAction {
    /// Keep the chunk for the start of playback; start playback after it when asked.
    PreBuffer { start_playback: bool },
    /// Start playback of what was gathered.
    StartPlayback,
    /// Queue the chunk for playback.
    Queue,
    /// Drop the chunk: the playback buffer is full.
    Drop,
    /// Nothing to do.
    Ignore,
    /// Wait for the queued audio to play, then finish.
    WaitThenFinish,
    /// Finish speaking.
    Finish,
    /// Fail with the message.
    Fail { message: String },
}

/// The phase of speaking one text.
#[derive(Debug, Clone, Copy, PartialEq, Eq)]
pub enum SpeakPhase {
    PreBuffering,
    Playing,
    Done,
}

/// The decisions of speaking one text: gather the first chunks, then play the
/// rest as it arrives, until synthesis ends.
#[derive(Debug, Clone, Copy)]
pub struct SpeakSession {
    pub phase: SpeakPhase,
    pub chunk_count: usize,
}

/// The message of an error frame.
pub open spec fn error_message(m: Option<String>) -> Seq<char> {
    match m {
        Some(s) => s@,
        None => "TTS error"@,
    }
}

impl SpeakSession {
    /// A session that starts gathering chunks.
    pub fn new() -> (r: Self)
        ensures
            r.phase == SpeakPhase::PreBuffering,
            r.chunk_count == 0,
    {
        SpeakSession { phase: SpeakPhase::PreBuffering, chunk_count: 0 }
    }

    /// Decides on one frame; `buffered` is the number of chunks in the playback buffer.
    pub fn on_frame(&mut self, frame: TtsFrame, buffered: usize) -> (r: TtsAction)
        requires
            old(self).chunk_count < PRE_BUFFER_CHUNKS || old(self).phase != SpeakPhase::PreBuffering,
        ensures
            final(self).chunk_count < PRE_BUFFER_CHUNKS || final(self).phase != SpeakPhase::PreBuffering,
            old(self).phase == SpeakPhase::Done ==> r == TtsAction::Ignore && *final(self) == *old(self),
            old(self).phase == SpeakPhase::PreBuffering ==> match frame {
                TtsFrame::Audio { len } => if len > 0 {
                    r == TtsAction::PreBuffer {
                        start_playback: old(self).chunk_count + 1 == PRE_BUFFER_CHUNKS,
                    } && final(self).chunk_count == old(self).chunk_count + 1 && (final(self).phase
                        == if old(self).chunk_count + 1 == PRE_BUFFER_CHUNKS {
                        SpeakPhase::Playing
                    } else {
                        SpeakPhase::PreBuffering
                    })
                } else {
                    r == TtsAction::Ignore && *final(self) == *old(self)
                },
                TtsFrame::Flushed | TtsFrame::Closed | TtsFrame::Ended => r == TtsAction::StartPlayback
                    && final(self).phase == SpeakPhase::Playing,
                TtsFrame::Error { message } => (r matches TtsAction::Fail { message: m } && m@
                    == error_message(message)) && final(self).phase == SpeakPhase::Done,
                TtsFrame::Failed { error } => (r matches TtsAction::Fail { message: m } && m@
                    == error@) && final(self).phase == SpeakPhase::Done,
                TtsFrame::Other => r == TtsAction::Ignore && *final(self) == *old(self),
            },
            old(self).phase == SpeakPhase::Playing ==> match frame {
                TtsFrame::Audio { len } => if len == 0 {
                    r == TtsAction::Ignore
                } else if buffered < MAX_BUFFER_SIZE {
                    r == TtsAction::Queue
                } else {
                    r == TtsAction::Drop
                },
                TtsFrame::Flushed => r == TtsAction::WaitThenFinish,
                TtsFrame::Other => r == TtsAction::Ignore,
                _ => r == TtsAction::Finish,
            } && (final(self).phase == if r == TtsAction::WaitThenFinish || r == TtsAction::Finish {
                SpeakPhase::Done
            } else {
                SpeakPhase::Playing
            }) && final(self).chunk_count == old(self).chunk_count,
    {
        match self.phase {
            SpeakPhase::Done => TtsAction::Ignore,
            SpeakPhase::PreBuffering => match frame {
                TtsFrame::Audio { len } => {
                    if len > 0 {
                        self.chunk_count = self.chunk_count + 1;
                        let start = self.chunk_count == PRE_BUFFER_CHUNKS;
                        if start {
                            self.phase = SpeakPhase::Playing;
                        }
                        TtsAction::PreBuffer { start_playback: start }
                    } else {
                        TtsAction::Ignore
                    }
                },
                TtsFrame::Flushed | TtsFrame::Closed | TtsFrame::Ended => {
                    self.phase = SpeakPhase::Playing;
                    TtsAction::StartPlayback
                },
                TtsFrame::Error { message } => {
                    self.phase = SpeakPhase::Done;
                    let m = match message {
                        Some(s) => s,
                        None => String::from_str("TTS error"),
                    };
                    TtsAction::Fail { message: m }
                },
                TtsFrame::Failed { error } => {
                    self.phase = SpeakPhase::Done;
                    TtsAction::Fail { message: error }
                },
                TtsFrame::Other => TtsAction::Ignore,
            },
            SpeakPhase::Playing => match frame {
                TtsFrame::Audio { len } => {
                    if len == 0 {
                        TtsAction::Ignore
                    } else if buffered < MAX_BUFFER_SIZE {
                        TtsAction::Queue
                    } else {
                        TtsAction::Drop
                    }
                },
                TtsFrame::Flushed => {
                    self.phase = SpeakPhase::Done;
                    TtsAction::WaitThenFinish
                },
                TtsFrame::Other => TtsAction::Ignore,
                _ => {
                    self.phase = SpeakPhase::Done;
                    TtsAction::Finish
                },
            },
        }
    }
}

/// Whether a text is to be spoken at all: an empty text is not sent to the
/// speech service.
pub fn is_speakable(text: &str) -> (r: bool)
    ensures
        r == (text@.len() > 0),
{
    text.unicode_len() > 0
}

/// Whether a chunk gathered before playback still fits in the playback buffer.
pub fn accepts_chunk(buffered: usize) -> (r: bool)
    ensures
        r == (buffered < MAX_BUFFER_SIZE),
{
    buffered < MAX_BUFFER_SIZE
}

/// The frame a text message of the speech-synthesis service is, from its
/// JSON `type` and `message` fields: a finished synthesis, an error (with its
/// message), or other metadata.
pub open spec fn tts_frame_spec(kind: Option<Seq<char>>, message: Option<Seq<char>>, r: TtsFrame) -> bool {
    match kind {
        Some(t) => if t == "Flushed"@ {
            r is Flushed
        } else if t == "Error"@ {
            r matches TtsFrame::Error { message: m } && match m {
                Some(x) => message == Some(x@),
                None => message is None,
            }
        } else {
            r is Other
        },
        None => r is Other,
    }
}

/// The frame a text message is, given its `type` and `message` fields.
pub fn tts_frame_of(kind: Option<&str>, message: Option<&str>) -> (r: TtsFrame)
    ensures
        tts_frame_spec(
            match kind {
                Some(k) => Some(k@),
                None => None,
            },
            match message {
                Some(m) => Some(m@),
                None => None,
            },
            r,
        ),
{
    match kind {
        Some(t) => {
            if crate::text::str_eq(t, "Flushed") {
                TtsFrame::Flushed
            } else if crate::text::str_eq(t, "Error") {
                TtsFrame::Error {
                    message: match message {
                        Some(m) => Some(String::from_str(m)),
                        None => None,
                    },
                }
            } else {
                TtsFrame::Other
            }
        },
        None => TtsFrame::Other,
    }
}

/// Reads a text message of the speech-synthesis service: its JSON `type`
/// tells a finished synthesis or an error (with its `message`); anything else
/// is other metadata.
pub fn tts_text_frame(text: &str) -> (r: TtsFrame)
    ensures
        tts_frame_spec(json_str_field(text@, "type"@), json_str_field(text@, "message"@), r),
{
    let kind = json_string_field(text, "type");
    let message = json_string_field(text, "message");
    let k = match &kind {
        Some(t) => Some(t.as_str()),
        None => None,
    };
    let m = match &message {
        Some(t) => Some(t.as_str()),
        None => None,
    };
    tts_frame_of(k, m)
}

} // verus!
