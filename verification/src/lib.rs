//! Core of a WebAssembly execution sandbox for untrusted guest code.
//!
//! The library covers three subsystems: compile-time instrumentation
//! middleware (gas metering, memory-growth control, runtime breakpoints,
//! instruction tracing) expressed over a streaming event pipeline; an
//! artifact cache that serializes a compiled module together with its
//! executable memory region; and in-place instance reset, which rewinds an
//! instantiated module to its post-initialization state.

pub mod fields;
pub mod event;
pub mod costs;
pub mod metering;
pub mod opcode_control;
pub mod runtime_breakpoints;
pub mod opcode_trace;
pub mod machine;
pub mod memory;
pub mod module_info;
pub mod instance;
pub mod reset;
pub mod cache;
pub mod vbus;
