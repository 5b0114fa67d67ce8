//! Live-reload runtime core: handle allocation, the shader dependency
//! tracker, compile-batch planning, the script sandbox with its state
//! machine and draw-command decoding, and the per-frame orchestration plan.
pub mod handles;
pub mod pipeline;
pub mod tracker;
pub mod draw;
pub mod new_data;
pub mod runtime;
pub mod reload;
pub mod console;
pub mod orchestrator;
pub mod compile;
pub mod lua_calls;
pub mod lua_module;
