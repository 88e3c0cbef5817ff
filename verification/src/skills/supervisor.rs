//! Supervision of coding agents: the agent kinds and the supervisor's settings.
use vstd::prelude::*;

verus! {

/// Agent types we can supervise
#[derive(Debug, Clone, Copy, PartialEq, Eq)]
pub enum AgentType {
    /// GSD headless session
    Gsd,
    /// Session of the coding-assistant CLI
    ClaudeCode,
    /// OpenAI Codex session
    Codex,
    /// Generic terminal session
    Generic,
}

/// How an agent type reads.
pub open spec fn agent_type_name(t: AgentType) -> Seq<char> {
    match t {
        AgentType::Gsd => "GSD"@,
        AgentType::ClaudeCode => "ClaudeCode"@,
        AgentType::Codex => "Codex"@,
        AgentType::Generic => "Agent"@,
    }
}

impl AgentType {
    /// How the agent type reads.
    pub fn to_string(&self) -> (r: String)
        ensures
            r@ == agent_type_name(*self),
    {
        match self {
            AgentType::Gsd => String::from_str("GSD"),
            AgentType::ClaudeCode => String::from_str("ClaudeCode"),
            AgentType::Codex => String::from_str("Codex"),
            AgentType::Generic => String::from_str("Agent"),
        }
    }
}

/// Configuration for agent supervision
#[derive(Debug, Clone)]
pub struct SupervisorConfig {
    /// Seconds without activity before flagging as stuck
    pub activity_timeout_secs: u64,
    /// Loop detection: warn after N identical tool calls
    pub loop_warning_threshold: usize,
    /// Loop detection: block after N identical tool calls
    pub loop_block_threshold: usize,
    /// Loop detection: break after N identical tool calls
    pub loop_break_threshold: usize,
    /// Maximum auto-fix retries before escalating
    pub max_auto_retries: usize,
    /// Seconds to wait after fix before checking recovery
    pub fix_monitor_window_secs: u64,
    /// Milliseconds to debounce filesystem events
    pub debounce_ms: u64,
    /// Paths to watch for agent state
    pub watch_paths: Vec<String>,
}

impl Default for SupervisorConfig {
    fn default() -> (r: Self)
        ensures
            r.activity_timeout_secs == 300,
            r.loop_warning_threshold == 2,
            r.loop_block_threshold == 4,
            r.loop_break_threshold == 6,
            r.max_auto_retries == 3,
            r.fix_monitor_window_secs == 30,
            r.debounce_ms == 500,
            r.watch_paths@.len() == 1,
            r.watch_paths@[0]@ == ".gsd"@,
    {
        let mut paths: Vec<String> = Vec::new();
        paths.push(String::from_str(".gsd"));
        SupervisorConfig {
            activity_timeout_secs: 300,
            loop_warning_threshold: 2,
            loop_block_threshold: 4,
            loop_break_threshold: 6,
            max_auto_retries: 3,
            fix_monitor_window_secs: 30,
            debounce_ms: 500,
            watch_paths: paths,
        }
    }
}

} // verus!
