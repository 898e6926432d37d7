//! The registry of internal fields: per-instance 64-bit cells that the
//! instrumentation middlewares read and write from generated code.
//!
//! Each field has a dense index that is stable for the lifetime of the
//! process; every instance owns an array of `FIELD_COUNT` cells.

use vstd::prelude::*;

verus! {

/// Cumulative gas points consumed by the current invocation.
pub const FIELD_USED_POINTS: usize = 0;

/// The gas limit; execution traps with `OUT_OF_GAS` once
/// `USED_POINTS >= POINTS_LIMIT` at a control-transfer checkpoint.
pub const FIELD_POINTS_LIMIT: usize = 1;

/// Number of successful `memory.grow` operations so far.
pub const FIELD_MEMORY_GROW_COUNT: usize = 2;

/// Scratch cell used to duplicate the top of the operand stack.
pub const FIELD_OPERAND_BACKUP: usize = 3;

/// The pending runtime-breakpoint reason; zero means none.
pub const FIELD_RUNTIME_BREAKPOINT_VALUE: usize = 4;

/// Source offset of the last traced instruction.
pub const FIELD_OPCODE_LAST_LOCATION: usize = 5;

/// Number of internal fields; instance cell arrays have exactly this length.
pub const FIELD_COUNT: usize = 6;

} // verus!
