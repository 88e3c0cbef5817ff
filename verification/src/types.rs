//! Shared vocabulary: event enums, chat messages and configuration.
use vstd::prelude::*;

verus! {

#[derive(Debug, Clone, Copy, PartialEq, Eq)]
pub enum Urgency {
    Low,
    Medium,
    High,
    Critical,
}

#[derive(Debug, Clone, Copy, PartialEq, Eq)]
pub enum Importance {
    Fleeting,
    ShortTerm,
    LongTerm,
    Core,
}

#[derive(Debug, Clone, Copy, PartialEq, Eq)]
pub enum Mood {
    Neutral,
    Happy,
    Empathetic,
    Focused,
    Playful,
    Concerned,
    Sleepy,
}

#[derive(Debug, Clone, Copy, PartialEq, Eq)]
pub enum Emotion {
    Neutral,
    Excited,
    Gentle,
    Encouraging,
    Teasing,
    Worried,
    Calm,
}

#[derive(Debug, Clone, Copy, PartialEq, Eq)]
pub enum MouseButton {
    Left,
    Right,
    Middle,
}

#[derive(Debug, Clone, Copy, PartialEq, Eq)]
pub enum FileChangeKind {
    Created,
    Modified,
    Deleted,
    Renamed,
}

/// A single message in a chat conversation, in the chat-completions format.
#[derive(Debug, Clone)]
pub struct ChatMessage {
    /// Role: "system", "user", or "assistant"
    pub role: String,
    /// The message content
    pub content: String,
}

/// The (role, content) of a message.
pub open spec fn message_view(m: ChatMessage) -> (Seq<char>, Seq<char>) {
    (m.role@, m.content@)
}

impl ChatMessage {
    /// A copy of this message.
    pub fn duplicate(&self) -> (r: Self)
        ensures
            message_view(r) == message_view(*self),
    {
        ChatMessage { role: self.role.clone(), content: self.content.clone() }
    }

    /// Create a system message (sets behavior and context)
    pub fn system(content: &str) -> (r: Self)
        ensures
            r.role@ == "system"@,
            r.content@ == content@,
    {
        ChatMessage { role: String::from_str("system"), content: String::from_str(content) }
    }

    /// Create a user message (human input)
    pub fn user(content: &str) -> (r: Self)
        ensures
            r.role@ == "user"@,
            r.content@ == content@,
    {
        ChatMessage { role: String::from_str("user"), content: String::from_str(content) }
    }

    /// Create an assistant message (AI response)
    pub fn assistant(content: &str) -> (r: Self)
        ensures
            r.role@ == "assistant"@,
            r.content@ == content@,
    {
        ChatMessage { role: String::from_str("assistant"), content: String::from_str(content) }
    }
}

/// The whole configuration; directories are held as path strings.
#[derive(Debug, Clone)]
pub struct WakeyConfig {
    pub general: GeneralConfig,
    pub heartbeat: HeartbeatConfig,
    pub vision: VisionConfig,
    pub memory: MemoryConfig,
    pub action: ActionConfig,
    pub persona: PersonaConfig,
    pub llm: LlmConfig,
}

#[derive(Debug, Clone)]
pub struct GeneralConfig {
    pub data_dir: String,
    pub log_level: String,
}

#[derive(Debug, Clone, Copy)]
pub struct HeartbeatConfig {
    pub tick_interval_ms: u64,
    pub breath_interval_ms: u64,
    pub reflect_interval_ms: u64,
    pub dream_hour: u8,
}

#[derive(Debug, Clone, Copy)]
pub struct VisionConfig {
    pub a11y_enabled: bool,
    pub ocr_enabled: bool,
    pub vlm_enabled: bool,
    pub vlm_interval_secs: u64,
    pub capture_resolution: (u32, u32),
}

#[derive(Debug, Clone)]
pub struct MemoryConfig {
    pub backend: String,
    pub viking_root: String,
    pub max_working_memory_tokens: usize,
}

#[derive(Debug, Clone)]
pub struct ActionConfig {
    pub enabled: bool,
    pub require_confirmation: bool,
    pub policy_dir: String,
}

#[derive(Debug, Clone)]
pub struct PersonaConfig {
    pub name: String,
    pub style: String,
    pub proactive: bool,
}

#[derive(Debug, Clone)]
pub struct LlmConfig {
    pub default_provider: String,
    pub providers: Vec<LlmProviderConfig>,
}

#[derive(Debug, Clone)]
pub struct LlmProviderConfig {
    pub name: String,
    pub api_base: String,
    pub model: String,
    pub api_key_env: String,
}

/// Voice conversation settings.
#[derive(Debug, Clone)]
pub struct VoiceConfig {
    pub enabled: bool,
    pub api_key_env: String,
    pub stt_model: String,
    pub tts_model: String,
    pub asr_sample_rate: u32,
    pub tts_sample_rate: u32,
    pub language: String,
    pub endpointing_ms: u32,
}

impl Default for WakeyConfig {
    fn default() -> (r: Self)
        ensures
            r.general.data_dir@ == "~/.wakey"@,
            r.general.log_level@ == "info"@,
            r.heartbeat.tick_interval_ms == 2000,
            r.heartbeat.breath_interval_ms == 30_000,
            r.heartbeat.reflect_interval_ms == 900_000,
            r.heartbeat.dream_hour == 4,
            r.vision.a11y_enabled && r.vision.ocr_enabled && r.vision.vlm_enabled,
            r.vision.vlm_interval_secs == 60,
            r.vision.capture_resolution == (1024u32, 768u32),
            r.memory.backend@ == "viking"@,
            r.memory.viking_root@ == "~/.wakey/viking"@,
            r.memory.max_working_memory_tokens == 4096,
            r.action.enabled && r.action.require_confirmation,
            r.action.policy_dir@ == "~/.wakey/policies"@,
            r.persona.name@ == "Buddy"@,
            r.persona.style@ == "casual"@,
            r.persona.proactive,
            r.llm.default_provider@ == "anthropic"@,
            r.llm.providers@.len() == 0,
    {
        WakeyConfig {
            general: GeneralConfig {
                data_dir: String::from_str("~/.wakey"),
                log_level: String::from_str("info"),
            },
            heartbeat: HeartbeatConfig {
                tick_interval_ms: 2000,
                breath_interval_ms: 30_000,
                reflect_interval_ms: 900_000,
                dream_hour: 4,
            },
            vision: VisionConfig {
                a11y_enabled: true,
                ocr_enabled: true,
                vlm_enabled: true,
                vlm_interval_secs: 60,
                capture_resolution: (1024, 768),
            },
            memory: MemoryConfig {
                backend: String::from_str("viking"),
                viking_root: String::from_str("~/.wakey/viking"),
                max_working_memory_tokens: 4096,
            },
            action: ActionConfig {
                enabled: true,
                require_confirmation: true,
                policy_dir: String::from_str("~/.wakey/policies"),
            },
            persona: PersonaConfig {
                name: String::from_str("Buddy"),
                style: String::from_str("casual"),
                proactive: true,
            },
            llm: LlmConfig { default_provider: String::from_str("anthropic"), providers: Vec::new() },
        }
    }
}

} // verus!
