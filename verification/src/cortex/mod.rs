//! The decision side: prompts, the chat provider's helpers, plugin protocol and voice settings.
pub mod agent_loop;
pub mod decision;
pub mod llm;
pub mod plugin_host;
pub mod prompt_loader;
pub mod voice;
