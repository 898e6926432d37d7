//! Events: the sole interface between the middlewares and the code
//! generator.
//!
//! A streaming front-end emits one event per parsed item (function begin and
//! end, raw operator, local declaration is fed separately); each middleware
//! receives an event, may emit additional events into a sink, and always
//! forwards the original.

use vstd::prelude::*;

verus! {

/// Number of operator entries in the opcode index space.
pub const OPCODE_COUNT: usize = 448;

/// Synthetic cost index charged per metered local allocation.
pub const COST_INDEX_LOCAL_ALLOCATE: usize = 448;

/// Total length of a cost table: every operator plus the synthetic indices.
pub const COST_TABLE_LEN: usize = 449;

/// First opcode index available to operators the middlewares do not inspect.
pub const FIRST_PLAIN_OPCODE: u32 = 18;

/// A WebAssembly operator, reduced to what the instrumentation inspects: the
/// control-flow class, the `memory.grow` memory index, and the constants the
/// injected sequences are built from. Every other operator is `Plain` and
/// carries only its opcode index.
#[derive(Clone, Copy, PartialEq, Eq, Structural, Debug)]
pub enum WasmOp {
    Unreachable,
    Block,
    Loop,
    If,
    Else,
    End,
    Br { relative_depth: u32 },
    BrIf { relative_depth: u32 },
    BrTable { count: u32 },
    Return,
    Call { function_index: u32 },
    CallIndirect { type_index: u32 },
    MemoryGrow { reserved: u32 },
    I64Const { value: i64 },
    I64Add,
    I64GeU,
    I64GtU,
    I64Ne,
    Plain { opcode: u32 },
}

impl WasmOp {
    /// The dense index of this operator in the opcode index space.
    pub open spec fn spec_opcode_index(self) -> int {
        match self {
            WasmOp::Unreachable => 0,
            WasmOp::Block => 1,
            WasmOp::Loop => 2,
            WasmOp::If => 3,
            WasmOp::Else => 4,
            WasmOp::End => 5,
            WasmOp::Br { .. } => 6,
            WasmOp::BrIf { .. } => 7,
            WasmOp::BrTable { .. } => 8,
            WasmOp::Return => 9,
            WasmOp::Call { .. } => 10,
            WasmOp::CallIndirect { .. } => 11,
            WasmOp::MemoryGrow { .. } => 12,
            WasmOp::I64Const { .. } => 13,
            WasmOp::I64Add => 14,
            WasmOp::I64GeU => 15,
            WasmOp::I64GtU => 16,
            WasmOp::I64Ne => 17,
            WasmOp::Plain { opcode } => opcode as int,
        }
    }

    /// An operator is well formed when its index lies in the opcode index
    /// space; a `Plain` operator may not shadow one of the inspected ones.
    pub open spec fn wf(self) -> bool {
        match self {
            WasmOp::Plain { opcode } => FIRST_PLAIN_OPCODE <= opcode < OPCODE_COUNT as u32,
            _ => true,
        }
    }

    /// Executable twin of [`Self::spec_opcode_index`].
    pub fn opcode_index(&self) -> (r: usize)
        requires
            self.wf(),
        ensures
            r == self.spec_opcode_index(),
            r < OPCODE_COUNT,
    {
        match self {
            WasmOp::Unreachable => 0,
            WasmOp::Block => 1,
            WasmOp::Loop => 2,
            WasmOp::If => 3,
            WasmOp::Else => 4,
            WasmOp::End => 5,
            WasmOp::Br { .. } => 6,
            WasmOp::BrIf { .. } => 7,
            WasmOp::BrTable { .. } => 8,
            WasmOp::Return => 9,
            WasmOp::Call { .. } => 10,
            WasmOp::CallIndirect { .. } => 11,
            WasmOp::MemoryGrow { .. } => 12,
            WasmOp::I64Const { .. } => 13,
            WasmOp::I64Add => 14,
            WasmOp::I64GeU => 15,
            WasmOp::I64GtU => 16,
            WasmOp::I64Ne => 17,
            WasmOp::Plain { opcode } => *opcode as usize,
        }
    }

    /// Block-boundary operators: the metering accumulator is flushed before
    /// each of them.
    pub open spec fn is_block_boundary(self) -> bool {
        match self {
            WasmOp::Loop => true,
            WasmOp::Block => true,
            WasmOp::End => true,
            WasmOp::If => true,
            WasmOp::Else => true,
            WasmOp::Unreachable => true,
            WasmOp::Br { .. } => true,
            WasmOp::BrTable { .. } => true,
            WasmOp::BrIf { .. } => true,
            WasmOp::Call { .. } => true,
            WasmOp::CallIndirect { .. } => true,
            WasmOp::Return => true,
            _ => false,
        }
    }

    /// Control-transfer operators: the only points from which runaway
    /// computation can begin, so the gas-limit check is injected before each.
    pub open spec fn is_control_transfer(self) -> bool {
        match self {
            WasmOp::Br { .. } => true,
            WasmOp::BrTable { .. } => true,
            WasmOp::BrIf { .. } => true,
            WasmOp::Call { .. } => true,
            WasmOp::CallIndirect { .. } => true,
            _ => false,
        }
    }

    /// Executable twin of [`Self::is_block_boundary`].
    pub fn is_block_boundary_exec(&self) -> (r: bool)
        ensures
            r == self.is_block_boundary(),
    {
        match self {
            WasmOp::Loop => true,
            WasmOp::Block => true,
            WasmOp::End => true,
            WasmOp::If => true,
            WasmOp::Else => true,
            WasmOp::Unreachable => true,
            WasmOp::Br { .. } => true,
            WasmOp::BrTable { .. } => true,
            WasmOp::BrIf { .. } => true,
            WasmOp::Call { .. } => true,
            WasmOp::CallIndirect { .. } => true,
            WasmOp::Return => true,
            _ => false,
        }
    }

    /// Executable twin of [`Self::is_control_transfer`].
    pub fn is_control_transfer_exec(&self) -> (r: bool)
        ensures
            r == self.is_control_transfer(),
    {
        match self {
            WasmOp::Br { .. } => true,
            WasmOp::BrTable { .. } => true,
            WasmOp::BrIf { .. } => true,
            WasmOp::Call { .. } => true,
            WasmOp::CallIndirect { .. } => true,
            _ => false,
        }
    }

    /// Call operators: a runtime-breakpoint check is injected after each.
    pub open spec fn is_call(self) -> bool {
        match self {
            WasmOp::Call { .. } => true,
            WasmOp::CallIndirect { .. } => true,
            _ => false,
        }
    }
}

/// One event of the compile-time pipeline.
#[derive(Clone, Copy, PartialEq, Eq, Structural, Debug)]
pub enum Event {
    /// A function body begins; carries the local function index.
    FunctionBegin { local_function_index: u32 },
    /// The current function body ends.
    FunctionEnd,
    /// A guest operator, possibly rewritten or injected.
    Wasm { op: WasmOp },
    /// Generated code pushes the named internal field onto the stack.
    GetInternal { field_index: usize },
    /// Generated code pops the stack into the named internal field.
    SetInternal { field_index: usize },
    /// Generated code transfers control to the registered breakpoint
    /// callback, which surfaces a typed error to the host.
    Breakpoint,
}

impl Event {
    /// Events are well formed when their operator and field indices are.
    pub open spec fn wf(self) -> bool {
        match self {
            Event::Wasm { op } => op.wf(),
            Event::GetInternal { field_index } => field_index < crate::fields::FIELD_COUNT,
            Event::SetInternal { field_index } => field_index < crate::fields::FIELD_COUNT,
            _ => true,
        }
    }
}

/// All events of a sequence are well formed.
pub open spec fn all_wf(events: Seq<Event>) -> bool {
    forall|i: int| 0 <= i < events.len() ==> (#[trigger] events[i]).wf()
}

/// The ordered sink a middleware pushes events into; its contents are handed
/// on to the next middleware and finally to the code generator.
pub struct EventSink {
    pub events: Vec<Event>,
}

impl EventSink {
    /// An empty sink.
    pub fn new() -> (r: EventSink)
        ensures
            r.events@ =~= Seq::<Event>::empty(),
    {
        EventSink { events: Vec::new() }
    }

    /// Append one event.
    pub fn push(&mut self, ev: Event)
        ensures
            final(self).events@ =~= old(self).events@.push(ev),
    {
        self.events.push(ev);
    }
}

} // verus!
