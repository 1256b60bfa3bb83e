use vstd::prelude::*;

verus! {

/// Everything that can go wrong at the boundary. A context or a plugin keeps
/// the last one in its error slot.
#[derive(Debug, PartialEq, Eq)]
pub enum HostError {
    /// No live plugin has this index.
    PluginNotFound(i32),
    /// Every plugin index is taken.
    IndicesExhausted,
    /// The engine refused the module bytes; its message.
    Compile(String),
    /// The config update was not a JSON object of strings and nulls.
    InvalidConfig(String),
    /// The plugin exports no function of this name.
    FunctionNotFound(String),
    /// The function returns more than one value.
    TooManyResults { name: String, count: usize },
    /// The watchdog could not be armed for this timer id.
    TimerStart(u64),
    /// The watchdog could not be disarmed for this timer id.
    TimerStop(u64),
    /// The call ran past its deadline.
    Timeout,
    /// A WASI entry point exited with a nonzero code; the engine's message.
    Exit { code: i32, message: String },
    /// The call trapped; the engine's message.
    CallFailed(String),
}

} // verus!
