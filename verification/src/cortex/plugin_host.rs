//! The voice plugin protocol: its configuration, the JSON-line events in each
//! direction, `${VAR}` expansion and the restart policy.
use vstd::prelude::*;
use std::collections::HashMap;
use crate::text::{
    append_chars, chars_of, contains, find, find_exec, lemma_find_from_bounds, occurs_at, replace,
    replace_str, slice_chars, str_eq, string_of, lemma_occurs_single,
};
use crate::types::Urgency;

verus! {

/// Plugin configuration from config file.
#[derive(Debug, Clone)]
pub struct PluginConfig {
    /// Enable voice plugin
    pub enabled: bool,
    /// Plugin name (e.g., "voice-livekit", "voice-deepgram")
    pub plugin: String,
    /// Path to plugin executable/script
    pub plugin_path: String,
    /// Command to run plugin (e.g., "python3", "node", or direct binary path)
    pub plugin_command: String,
    /// Environment variables to pass to plugin process; values can contain `${VAR}` references
    pub env: HashMap<String, String>,
}

impl Default for PluginConfig {
    fn default() -> (r: Self)
        ensures
            r.enabled,
            r.plugin@ == "voice-none"@,
            r.plugin_path@ == "plugins/voice-none/main.rs"@,
            r.plugin_command@ == "cargo run"@,
            r.env@ == Map::<String, String>::empty(),
    {
        PluginConfig {
            enabled: true,
            plugin: String::from_str("voice-none"),
            plugin_path: String::from_str("plugins/voice-none/main.rs"),
            plugin_command: String::from_str("cargo run"),
            env: HashMap::new(),
        }
    }
}

/// JSON event sent TO plugin (Wakey → Plugin).
#[derive(Debug, Clone)]
pub struct PluginInputEvent {
    pub event: String,
    pub text: Option<String>,
    pub urgency: Option<String>,
}

/// JSON event received FROM plugin (Plugin → Wakey).
#[derive(Debug, Clone)]
pub struct PluginOutputEvent {
    pub event: String,
    pub text: Option<String>,
    pub is_final: Option<bool>,
    pub message: Option<String>,
}

/// Plugin host errors.
#[derive(Debug)]
pub enum PluginError {
    Disabled,
    SpawnFailed(String),
    CommunicationFailed(String),
    Crashed(String),
}

/// The wire name of an urgency.
pub open spec fn urgency_name(u: Urgency) -> Seq<char> {
    match u {
        Urgency::Low => "low"@,
        Urgency::Medium => "medium"@,
        Urgency::High => "high"@,
        Urgency::Critical => "critical"@,
    }
}

/// Convert Urgency enum to string for JSON serialization.
pub fn urgency_to_string(urgency: &Urgency) -> (r: String)
    ensures
        r@ == urgency_name(*urgency),
{
    match urgency {
        Urgency::Low => String::from_str("low"),
        Urgency::Medium => String::from_str("medium"),
        Urgency::High => String::from_str("high"),
        Urgency::Critical => String::from_str("critical"),
    }
}

/// The event asking the plugin to speak `text` with the given urgency.
pub fn speak_request(text: &str, urgency: &Urgency) -> (r: PluginInputEvent)
    ensures
        r.event@ == "ShouldSpeak"@,
        r.text matches Some(t) && t@ == text@,
        r.urgency matches Some(u) && u@ == urgency_name(*urgency),
{
    PluginInputEvent {
        event: String::from_str("ShouldSpeak"),
        text: Some(String::from_str(text)),
        urgency: Some(urgency_to_string(urgency)),
    }
}

/// The event telling the plugin to exit.
pub fn shutdown_request() -> (r: PluginInputEvent)
    ensures
        r.event@ == "Shutdown"@,
        r.text is None,
        r.urgency is None,
{
    PluginInputEvent { event: String::from_str("Shutdown"), text: None, urgency: None }
}

/// What a plugin reports, as the spine takes it.
#[derive(Debug, Clone)]
pub enum PluginVoiceEvent {
    ListeningStarted,
    ListeningStopped,
    UserSpeaking { text: String, is_final: bool },
    WakeyThinking,
    WakeySpeaking { text: String },
    SessionEnded,
    Error { message: String },
}

/// The text of an optional field, empty when absent.
pub open spec fn text_or_empty(t: Option<String>) -> Seq<char> {
    match t {
        Some(s) => s@,
        None => Seq::empty(),
    }
}

/// Whether `r` is the spine event that the plugin event `e` stands for; an
/// unknown event name stands for none.
pub open spec fn translates_to(e: PluginOutputEvent, r: Option<PluginVoiceEvent>) -> bool {
    let n = e.event@;
    if n == "VoiceListeningStarted"@ {
        r matches Some(PluginVoiceEvent::ListeningStarted)
    } else if n == "VoiceListeningStopped"@ {
        r matches Some(PluginVoiceEvent::ListeningStopped)
    } else if n == "VoiceUserSpeaking"@ {
        r matches Some(PluginVoiceEvent::UserSpeaking { text, is_final }) && text@ == text_or_empty(
            e.text,
        ) && is_final == (e.is_final == Some(true))
    } else if n == "VoiceWakeyThinking"@ {
        r matches Some(PluginVoiceEvent::WakeyThinking)
    } else if n == "VoiceWakeySpeaking"@ {
        r matches Some(PluginVoiceEvent::WakeySpeaking { text }) && text@ == text_or_empty(e.text)
    } else if n == "VoiceSessionEnded"@ {
        r matches Some(PluginVoiceEvent::SessionEnded)
    } else if n == "VoiceError"@ {
        r matches Some(PluginVoiceEvent::Error { message }) && message@ == text_or_empty(e.message)
    } else {
        r is None
    }
}

fn string_or_empty(t: Option<String>) -> (r: String)
    ensures
        r@ == text_or_empty(t),
{
    match t {
        Some(s) => s,
        None => String::new(),
    }
}

/// Convert a plugin output event to the spine event it stands for.
pub fn translate_plugin_event(event: PluginOutputEvent) -> (r: Option<PluginVoiceEvent>)
    ensures
        translates_to(event, r),
{
    let n = event.event.as_str();
    if str_eq(n, "VoiceListeningStarted") {
        Some(PluginVoiceEvent::ListeningStarted)
    } else if str_eq(n, "VoiceListeningStopped") {
        Some(PluginVoiceEvent::ListeningStopped)
    } else if str_eq(n, "VoiceUserSpeaking") {
        let is_final = match event.is_final {
            Some(b) => b,
            None => false,
        };
        Some(PluginVoiceEvent::UserSpeaking { text: string_or_empty(event.text), is_final })
    } else if str_eq(n, "VoiceWakeyThinking") {
        Some(PluginVoiceEvent::WakeyThinking)
    } else if str_eq(n, "VoiceWakeySpeaking") {
        Some(PluginVoiceEvent::WakeySpeaking { text: string_or_empty(event.text) })
    } else if str_eq(n, "VoiceSessionEnded") {
        Some(PluginVoiceEvent::SessionEnded)
    } else if str_eq(n, "VoiceError") {
        Some(PluginVoiceEvent::Error { message: string_or_empty(event.message) })
    } else {
        None
    }
}

/// The name of the variable that a template refers to: the text between its
/// first `${` and its first `}` (or its end), when that `}` comes after the `${`.
pub open spec fn env_reference_spec(t: Seq<char>) -> Option<Seq<char>> {
    match find(t, "${"@) {
        Some(start) => {
            let end = match find(t, "}"@) {
                Some(e) => e,
                None => t.len() as int,
            };
            if start < end {
                Some(t.subrange(start + 2, end))
            } else {
                None
            }
        },
        None => None,
    }
}

/// The variable an env template refers to, if it refers to one.
pub fn env_reference(template: &str) -> (r: Option<String>)
    ensures
        r matches Some(s) ==> env_reference_spec(template@) == Some(s@),
        r is None ==> env_reference_spec(template@) is None,
{
    let t = chars_of(template);
    let open = chars_of("${");
    let close = chars_of("}");
    proof {
        reveal_strlit("${");
        reveal_strlit("}");
        assert(open@ =~= seq!['$', '{']);
        assert(close@ =~= seq!['}']);
        lemma_find_from_bounds(t@, open@, 0);
        lemma_find_from_bounds(t@, close@, 0);
    }
    match find_exec(&t, &open) {
        Some(start) => {
            let end = match find_exec(&t, &close) {
                Some(e) => e,
                None => t.len(),
            };
            if start < end {
                proof {
                    assert(t@.subrange(start as int, start + 2) == seq!['$', '{']);
                    assert(t@[start as int] == '$');
                    assert(t@[start + 1] == '{');
                    if end < t@.len() {
                        lemma_occurs_single(t@, '}', end as int);
                    }
                }
                let name = slice_chars(&t, start + 2, end);
                Some(string_of(&name))
            } else {
                None
            }
        },
        None => None,
    }
}

/// `template` with every `${name}` replaced by `value`.
pub fn expand_env_value(template: &str, name: &str, value: &str) -> (r: String)
    ensures
        r@ == replace(template@, "${"@ + name@ + "}"@, value@),
{
    let mut pat = chars_of("${");
    let nm = chars_of(name);
    append_chars(&mut pat, &nm);
    let close = chars_of("}");
    append_chars(&mut pat, &close);
    proof {
        reveal_strlit("${");
    }
    let p = string_of(&pat);
    replace_str(template, p.as_str(), value)
}

/// What to do when the plugin process is found dead.
#[derive(Debug, Clone, Copy, PartialEq, Eq)]
pub enum RestartAction {
    /// Spawn the process again.
    Restart,
    /// Give up: the plugin crashed too many times.
    GiveUp,
}

/// How many times a crashed plugin is restarted.
#[derive(Debug, Clone, Copy)]
pub struct RestartPolicy {
    pub restart_count: u32,
    pub max_restarts: u32,
}

impl RestartPolicy {
    /// The policy of a new plugin host: no restarts yet, at most five.
    pub fn new() -> (r: Self)
        ensures
            r.restart_count == 0,
            r.max_restarts == 5,
    {
        RestartPolicy { restart_count: 0, max_restarts: 5 }
    }

    /// Decides on a dead plugin process: restart while fewer than the maximum
    /// restarts were made, counting this one, else give up.
    pub fn on_process_dead(&mut self) -> (r: RestartAction)
        ensures
            (*final(self), r) == restart_step(*old(self)),
    {
        if self.restart_count < self.max_restarts {
            self.restart_count = self.restart_count + 1;
            RestartAction::Restart
        } else {
            RestartAction::GiveUp
        }
    }
}

/// One death of the plugin process: a restart, counted, while fewer than the
/// maximum were made; else giving up, with the policy unchanged.
pub open spec fn restart_step(p: RestartPolicy) -> (RestartPolicy, RestartAction) {
    if p.restart_count < p.max_restarts {
        (RestartPolicy { restart_count: (p.restart_count + 1) as u32, ..p }, RestartAction::Restart)
    } else {
        (p, RestartAction::GiveUp)
    }
}

/// The policy after `k` deaths of the process.
pub open spec fn restart_run(p: RestartPolicy, k: nat) -> RestartPolicy
    decreases k,
{
    if k == 0 {
        p
    } else {
        restart_step(restart_run(p, (k - 1) as nat)).0
    }
}

/// Law: however many times the process dies, a policy that starts within its
/// limit restarts it exactly until the limit is reached, and then gives up.
pub proof fn law_restarts_bounded(p: RestartPolicy, k: nat)
    requires
        p.restart_count <= p.max_restarts,
    ensures
        restart_run(p, k).restart_count == if p.restart_count + k <= p.max_restarts {
            p.restart_count + k
        } else {
            p.max_restarts as int
        },
        restart_run(p, k).max_restarts == p.max_restarts,
        restart_step(restart_run(p, k)).1 == RestartAction::Restart <==> p.restart_count + k
            < p.max_restarts,
    decreases k,
{
    if k > 0 {
        law_restarts_bounded(p, (k - 1) as nat);
    }
}

} // verus!
