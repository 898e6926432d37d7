//! The instruction tracer: strictly observational diagnostics.
//!
//! For each operator the tracer yields a record naming the function, the
//! operator's ordinal within it, and the operator itself; the host appends
//! the records to its trace output. The tracer also mirrors the last seen
//! source offset into `OPCODE_LAST_LOCATION`, so that on any trap the host
//! can read the offset of the last executed instruction.

use vstd::prelude::*;
use crate::event::{Event, EventSink, WasmOp};
use crate::fields::FIELD_OPCODE_LAST_LOCATION;

verus! {

/// One line of the trace: which function, which operator ordinal, and the
/// operator itself.
#[derive(Clone, Copy, PartialEq, Eq, Structural, Debug)]
pub struct TraceRecord {
    /// The local index of the function being compiled.
    pub local_function_index: u32,
    /// The ordinal of the operator within the function.
    pub operator_index: u32,
    /// The operator observed.
    pub op: WasmOp,
}

/// The events that mirror the current source offset into
/// `OPCODE_LAST_LOCATION`.
pub open spec fn last_location_events(source_loc: u32) -> Seq<Event> {
    seq![
        Event::Wasm { op: WasmOp::I64Const { value: source_loc as i64 } },
        Event::SetInternal { field_index: FIELD_OPCODE_LAST_LOCATION },
    ]
}

/// The tracer middleware's compile-time state.
pub struct OpcodeTracer {
    /// The function currently being traced.
    pub local_function_index: u32,
    /// Operators seen so far in the current function.
    pub counter: u32,
}

impl OpcodeTracer {
    /// A fresh tracer; the host owns the trace output it feeds records to.
    pub fn new() -> (r: OpcodeTracer)
        ensures
            r.local_function_index == 0,
            r.counter == 0,
    {
        OpcodeTracer { local_function_index: 0, counter: 0 }
    }

    /// Observe one event: a function beginning resets the ordinal counter;
    /// an operator yields a trace record and advances it.
    pub fn trace_operator(&mut self, event: &Event) -> (r: Option<TraceRecord>)
        requires
            old(self).counter < u32::MAX,
        ensures
            match *event {
                Event::FunctionBegin { local_function_index } => {
                    &&& r is None
                    &&& final(self).local_function_index == local_function_index
                    &&& final(self).counter == 0
                },
                Event::Wasm { op } => {
                    &&& r == Some(
                        TraceRecord {
                            local_function_index: old(self).local_function_index,
                            operator_index: old(self).counter,
                            op,
                        },
                    )
                    &&& *final(self) == (OpcodeTracer {
                        counter: (old(self).counter + 1) as u32,
                        ..*old(self)
                    })
                },
                _ => r is None && *final(self) == *old(self),
            },
    {
        match event {
            Event::FunctionBegin { local_function_index } => {
                self.local_function_index = *local_function_index;
                self.counter = 0;
                Option::None
            },
            Event::Wasm { op } => {
                let record = TraceRecord {
                    local_function_index: self.local_function_index,
                    operator_index: self.counter,
                    op: *op,
                };
                self.counter = self.counter + 1;
                Some(record)
            },
            _ => Option::None,
        }
    }

    /// Emit the events that mirror `source_loc` into the last-location
    /// field.
    pub fn push_last_location_tracer(&self, sink: &mut EventSink, source_loc: u32)
        ensures
            final(sink).events@ =~= old(sink).events@ + last_location_events(source_loc),
    {
        sink.push(Event::Wasm { op: WasmOp::I64Const { value: source_loc as i64 } });
        sink.push(Event::SetInternal { field_index: FIELD_OPCODE_LAST_LOCATION });
    }

    /// Feed one event: record it, mirror the source offset, and forward
    /// the event unchanged — the tracer never changes semantics.
    pub fn feed_event(&mut self, op: Event, sink: &mut EventSink, source_loc: u32) -> (r: (
        Result<(), String>,
        Option<TraceRecord>,
    ))
        requires
            old(self).counter < u32::MAX,
        ensures
            r.0 is Ok,
            final(sink).events@ =~= old(sink).events@ + last_location_events(source_loc).push(op),
    {
        let record = self.trace_operator(&op);
        self.push_last_location_tracer(sink, source_loc);
        sink.push(op);
        (Ok(()), record)
    }
}

/// Read the source offset of the last traced instruction.
pub fn get_opcodetracer_last_location(instance: &mut crate::instance::Instance) -> (r: u64)
    requires
        old(instance).wf(),
    ensures
        *final(instance) == *old(instance),
        r == old(instance).cells@[FIELD_OPCODE_LAST_LOCATION as int],
{
    instance.cells[FIELD_OPCODE_LAST_LOCATION]
}

/// Clear the recorded source offset.
pub fn reset_opcodetracer_last_location(instance: &mut crate::instance::Instance)
    requires
        old(instance).wf(),
    ensures
        final(instance).wf(),
        final(instance).cells@ == old(instance).cells@.update(
            FIELD_OPCODE_LAST_LOCATION as int,
            0u64,
        ),
        final(instance).module == old(instance).module,
        final(instance).memories@ == old(instance).memories@,
        final(instance).tables@ == old(instance).tables@,
        final(instance).globals@ == old(instance).globals@,
{
    instance.cells.set(FIELD_OPCODE_LAST_LOCATION, 0);
}

} // verus!
