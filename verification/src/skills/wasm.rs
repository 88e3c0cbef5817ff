//! The sandbox for running skills as WebAssembly: settings only, as execution
//! is not available yet.
use vstd::prelude::*;

verus! {

/// WASM sandbox configuration
#[derive(Debug, Clone, Copy)]
pub struct WasmConfig {
    /// Maximum fuel (instructions)
    pub max_fuel: u64,
    /// Maximum memory (bytes)
    pub max_memory: u64,
    /// Timeout for execution (ms)
    pub timeout_ms: u64,
}

impl Default for WasmConfig {
    fn default() -> (r: Self)
        ensures
            r.max_fuel == 1_000_000_000,
            r.max_memory == 16 * 1024 * 1024,
            r.timeout_ms == 30_000,
    {
        WasmConfig { max_fuel: 1_000_000_000, max_memory: 16 * 1024 * 1024, timeout_ms: 30_000 }
    }
}

/// Why a sandbox call failed.
#[derive(Debug, Clone)]
pub struct SandboxError {
    pub skill: String,
    pub message: String,
}

/// WASM sandbox executor
pub struct WasmSandbox {
    config: WasmConfig,
}

impl WasmSandbox {
    pub closed spec fn config_spec(&self) -> WasmConfig {
        self.config
    }

    /// Create a new WASM sandbox; this always succeeds.
    pub fn new(config: WasmConfig) -> (r: Result<Self, SandboxError>)
        ensures
            r matches Ok(s) && s.config_spec() == config,
    {
        Ok(WasmSandbox { config })
    }

    /// Execute a skill in the sandbox: not implemented, so it always fails.
    pub fn execute(&self, skill_wasm: &[u8], input: &[u8]) -> (r: Result<Vec<u8>, SandboxError>)
        ensures
            r matches Err(e) && e.skill@ == "wasm"@ && e.message@
                == "WASM sandbox not yet implemented"@,
    {
        Err(
            SandboxError {
                skill: String::from_str("wasm"),
                message: String::from_str("WASM sandbox not yet implemented"),
            },
        )
    }

    /// Check if WASM execution is available: it never is.
    pub fn is_available(&self) -> (r: bool)
        ensures
            !r,
    {
        false
    }
}

} // verus!
