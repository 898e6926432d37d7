//! Runtime breakpoints: a per-instance field encodes an abort reason that is
//! surfaced at the next safe point.
//!
//! Other middlewares trip a breakpoint by emitting a short sequence that
//! stores the reason into `RUNTIME_BREAKPOINT_VALUE` and transfers control to
//! the registered callback; the handler middleware additionally checks the
//! field after every outgoing call, so that a reason set by the host (from
//! any thread) is caught at the earliest safe boundary.

use vstd::prelude::*;
use crate::event::{Event, EventSink, WasmOp};
use crate::fields::FIELD_RUNTIME_BREAKPOINT_VALUE;

verus! {

/// No breakpoint is pending.
pub const BREAKPOINT_VALUE_NO_BREAKPOINT: u64 = 0;

/// Execution failed for a generic reason.
pub const BREAKPOINT_VALUE_EXECUTION_FAILED: u64 = 1;

/// The gas limit was exhausted.
pub const BREAKPOINT_VALUE_OUT_OF_GAS: u64 = 4;

/// A memory-growth limit was exceeded.
pub const BREAKPOINT_VALUE_MEMORY_LIMIT: u64 = 5;

/// The typed error surfaced to the host when a breakpoint is reached.
#[derive(Clone, Copy, PartialEq, Eq, Structural, Debug)]
pub struct RuntimeBreakpointReachedError;

/// The events that store `value` into the breakpoint field and transfer
/// control to the breakpoint callback.
pub open spec fn breakpoint_events(value: u64) -> Seq<Event> {
    seq![
        Event::Wasm { op: WasmOp::I64Const { value: value as i64 } },
        Event::SetInternal { field_index: FIELD_RUNTIME_BREAKPOINT_VALUE },
        Event::Breakpoint,
    ]
}

/// The events injected after every call operator: if the breakpoint field is
/// non-zero, invoke the breakpoint callback.
pub open spec fn call_check_events() -> Seq<Event> {
    seq![
        Event::GetInternal { field_index: FIELD_RUNTIME_BREAKPOINT_VALUE },
        Event::Wasm { op: WasmOp::I64Const { value: BREAKPOINT_VALUE_NO_BREAKPOINT as i64 } },
        Event::Wasm { op: WasmOp::I64Ne },
        Event::Wasm { op: WasmOp::If },
        Event::Breakpoint,
        Event::Wasm { op: WasmOp::End },
    ]
}

/// Emit the cooperative breakpoint-injection sequence for `value`.
pub fn push_runtime_breakpoint(sink: &mut EventSink, value: u64)
    ensures
        final(sink).events@ =~= old(sink).events@ + breakpoint_events(value),
{
    sink.push(Event::Wasm { op: WasmOp::I64Const { value: value as i64 } });
    sink.push(Event::SetInternal { field_index: FIELD_RUNTIME_BREAKPOINT_VALUE });
    sink.push(Event::Breakpoint);
}

/// The middleware that injects a breakpoint check after every `call` and
/// `call_indirect`, so that a host-set abort reason takes effect at the next
/// safe boundary.
pub struct RuntimeBreakpointHandler {}

impl RuntimeBreakpointHandler {
    /// A fresh handler; it keeps no state between events.
    pub fn new() -> (r: RuntimeBreakpointHandler)
        ensures
            r == (RuntimeBreakpointHandler {  }),
    {
        RuntimeBreakpointHandler {  }
    }

    /// What one event makes this middleware emit, after the forwarded event.
    pub open spec fn spec_emitted_after(op: Event) -> Seq<Event> {
        if op matches Event::Wasm { op: w } && w.is_call() {
            call_check_events()
        } else {
            Seq::empty()
        }
    }

    /// Feed one event: the event is forwarded first, and after every call
    /// operator the breakpoint check is appended.
    pub fn feed_event(&mut self, op: Event, sink: &mut EventSink) -> (r: Result<(), String>)
        ensures
            r is Ok,
            final(sink).events@ =~= old(sink).events@.push(op)
                + RuntimeBreakpointHandler::spec_emitted_after(op),
            *final(self) == *old(self),
    {
        let must_add_breakpoint = match op {
            Event::Wasm { op: WasmOp::Call { .. } } => true,
            Event::Wasm { op: WasmOp::CallIndirect { .. } } => true,
            _ => false,
        };

        sink.push(op);

        if must_add_breakpoint {
            sink.push(Event::GetInternal { field_index: FIELD_RUNTIME_BREAKPOINT_VALUE });
            sink.push(
                Event::Wasm { op: WasmOp::I64Const { value: BREAKPOINT_VALUE_NO_BREAKPOINT as i64 } },
            );
            sink.push(Event::Wasm { op: WasmOp::I64Ne });
            sink.push(Event::Wasm { op: WasmOp::If });
            sink.push(Event::Breakpoint);
            sink.push(Event::Wasm { op: WasmOp::End });
        }

        Ok(())
    }
}

/// Store a breakpoint reason into an instance, as the host's cancellation
/// path does from any thread.
pub fn set_runtime_breakpoint_value(instance: &mut crate::instance::Instance, value: u64)
    requires
        old(instance).wf(),
    ensures
        final(instance).wf(),
        final(instance).cells@ == old(instance).cells@.update(
            FIELD_RUNTIME_BREAKPOINT_VALUE as int,
            value,
        ),
        final(instance).module == old(instance).module,
        final(instance).memories@ == old(instance).memories@,
        final(instance).tables@ == old(instance).tables@,
        final(instance).globals@ == old(instance).globals@,
{
    instance.cells.set(FIELD_RUNTIME_BREAKPOINT_VALUE, value);
}

/// Read the pending breakpoint reason of an instance.
pub fn get_runtime_breakpoint_value(instance: &mut crate::instance::Instance) -> (r: u64)
    requires
        old(instance).wf(),
    ensures
        *final(instance) == *old(instance),
        r == old(instance).cells@[FIELD_RUNTIME_BREAKPOINT_VALUE as int],
{
    instance.cells[FIELD_RUNTIME_BREAKPOINT_VALUE]
}

/// Soundness of the post-call breakpoint check: a non-zero reason stored in
/// `RUNTIME_BREAKPOINT_VALUE` halts execution with exactly that reason and
/// the state untouched; a zero reason passes through with the state
/// untouched.
pub proof fn lemma_call_check_events(st: crate::machine::MState)
    requires
        st.wf(),
    ensures
        ({
            let rbv = st.cells[FIELD_RUNTIME_BREAKPOINT_VALUE as int];
            let run = crate::machine::spec_run(call_check_events(), 0, st);
            if rbv != 0 {
                run == crate::machine::SpecOutcome::Halted(st, rbv)
            } else {
                run == crate::machine::SpecOutcome::Done(st)
            }
        }),
{
    let es = call_check_events();
    let rbv = st.cells[FIELD_RUNTIME_BREAKPOINT_VALUE as int];
    let s1 = crate::machine::MState { stack: st.stack.push(rbv), ..st };
    assert(crate::machine::spec_run(es, 0, st) == crate::machine::spec_run(es, 1, s1));
    let s2 = crate::machine::MState { stack: s1.stack.push(0), ..s1 };
    assert(crate::machine::spec_run(es, 1, s1) == crate::machine::spec_run(es, 2, s2));
    let ne: u64 = if rbv != 0 {
        1
    } else {
        0
    };
    let s3 = crate::machine::MState { stack: s2.stack.drop_last().drop_last().push(ne), ..s2 };
    assert(s2.stack[s2.stack.len() - 2] == rbv && s2.stack[s2.stack.len() - 1] == 0);
    assert(crate::machine::spec_run(es, 2, s2) == crate::machine::spec_run(es, 3, s3));
    let s4 = crate::machine::MState { stack: s3.stack.drop_last(), ..s3 };
    assert(s4.stack =~= st.stack);
    assert(s4 =~= st);
    if rbv != 0 {
        assert(crate::machine::spec_run(es, 3, s3) == crate::machine::spec_run(es, 4, s4));
        assert(crate::machine::spec_run(es, 4, s4) == crate::machine::SpecOutcome::Halted(
            s4,
            rbv,
        ));
    } else {
        assert(crate::machine::spec_skip_to_end(es, 4, 0) == 5) by {
            reveal_with_fuel(crate::machine::spec_skip_to_end, 3);
        }
        assert(crate::machine::spec_run(es, 3, s3) == crate::machine::spec_run(es, 6, s4));
        assert(crate::machine::spec_run(es, 6, s4) == crate::machine::SpecOutcome::Done(s4));
    }
}

/// Cancellation is caught at the next call boundary. For a `call` operator
/// instrumented by both the metering middleware and the breakpoint
/// handler, running the full instrumented sequence from any state either
/// trips `OUT_OF_GAS` at the checkpoint, or halts with exactly the reason
/// the host stored in `RUNTIME_BREAKPOINT_VALUE`, or — with enough gas and
/// no pending reason — completes with only the used points advanced.
pub proof fn lemma_cancellation_caught_at_call(
    m: crate::metering::Metering,
    w: WasmOp,
    st: crate::machine::MState,
)
    requires
        m.wf(),
        w.wf(),
        w.is_call(),
        st.wf(),
        st.cells[crate::fields::FIELD_USED_POINTS as int] + m.spec_charged(w) <= u64::MAX,
    ensures
        ({
            let flushed = (st.cells[crate::fields::FIELD_USED_POINTS as int] + m.spec_charged(
                w,
            )) as u64;
            let rbv = st.cells[FIELD_RUNTIME_BREAKPOINT_VALUE as int];
            let after = crate::machine::MState {
                cells: st.cells.update(crate::fields::FIELD_USED_POINTS as int, flushed),
                ..st
            };
            let run = crate::machine::spec_run(
                m.spec_emitted_before(Event::Wasm { op: w }).push(Event::Wasm { op: w })
                    + RuntimeBreakpointHandler::spec_emitted_after(Event::Wasm { op: w }),
                0,
                st,
            );
            if flushed >= st.cells[crate::fields::FIELD_POINTS_LIMIT as int] {
                run == crate::machine::SpecOutcome::Halted(
                    crate::machine::MState {
                        cells: after.cells.update(
                            FIELD_RUNTIME_BREAKPOINT_VALUE as int,
                            BREAKPOINT_VALUE_OUT_OF_GAS,
                        ),
                        ..st
                    },
                    BREAKPOINT_VALUE_OUT_OF_GAS,
                )
            } else if rbv != 0 {
                run == crate::machine::SpecOutcome::Halted(after, rbv)
            } else {
                run == crate::machine::SpecOutcome::Done(after)
            }
        }),
{
    let call_ev = Event::Wasm { op: w };
    let k = m.spec_charged(w) as u64;
    let used = st.cells[crate::fields::FIELD_USED_POINTS as int];
    let limit = st.cells[crate::fields::FIELD_POINTS_LIMIT as int];
    let rbv = st.cells[FIELD_RUNTIME_BREAKPOINT_VALUE as int];
    let flushed = (used + k) as u64;
    assert(crate::machine::wrap_add64(used, k) == flushed);
    let full = m.spec_emitted_before(call_ev).push(call_ev)
        + RuntimeBreakpointHandler::spec_emitted_after(call_ev);
    assert(w.is_block_boundary() && w.is_control_transfer());
    let rest = crate::metering::limit_check_events() + seq![call_ev] + call_check_events();
    assert(full =~= crate::metering::flush_events(k) + rest);
    let mid = crate::machine::MState {
        cells: st.cells.update(crate::fields::FIELD_USED_POINTS as int, flushed),
        ..st
    };
    crate::metering::lemma_flush_events(k, st);
    crate::machine::lemma_run_prefix(crate::metering::flush_events(k), rest, st, mid);
    // Step through the limit check over the extended sequence.
    let s1 = crate::machine::MState { stack: mid.stack.push(flushed), ..mid };
    assert(crate::machine::spec_run(rest, 0, mid) == crate::machine::spec_run(rest, 1, s1));
    let s2 = crate::machine::MState { stack: s1.stack.push(limit), ..s1 };
    assert(crate::machine::spec_run(rest, 1, s1) == crate::machine::spec_run(rest, 2, s2));
    let ge: u64 = if flushed >= limit {
        1
    } else {
        0
    };
    let s3 = crate::machine::MState { stack: s2.stack.drop_last().drop_last().push(ge), ..s2 };
    assert(s2.stack[s2.stack.len() - 2] == flushed && s2.stack[s2.stack.len() - 1] == limit);
    assert(crate::machine::spec_run(rest, 2, s2) == crate::machine::spec_run(rest, 3, s3));
    let s4 = crate::machine::MState { stack: s3.stack.drop_last(), ..s3 };
    assert(s4.stack =~= mid.stack);
    assert(s4 =~= mid);
    if flushed >= limit {
        // The checkpoint trips before the call is reached.
        assert(crate::machine::spec_run(rest, 3, s3) == crate::machine::spec_run(rest, 4, s4));
        let s5 = crate::machine::MState {
            stack: s4.stack.push(BREAKPOINT_VALUE_OUT_OF_GAS),
            ..s4
        };
        assert(crate::machine::spec_run(rest, 4, s4) == crate::machine::spec_run(rest, 5, s5));
        let s6 = crate::machine::MState {
            cells: mid.cells.update(
                FIELD_RUNTIME_BREAKPOINT_VALUE as int,
                BREAKPOINT_VALUE_OUT_OF_GAS,
            ),
            stack: s5.stack.drop_last(),
            ..s5
        };
        assert(s5.stack.last() == BREAKPOINT_VALUE_OUT_OF_GAS);
        assert(crate::machine::spec_run(rest, 5, s5) == crate::machine::spec_run(rest, 6, s6));
        assert(crate::machine::spec_run(rest, 6, s6) == crate::machine::SpecOutcome::Halted(
            s6,
            s6.cells[FIELD_RUNTIME_BREAKPOINT_VALUE as int],
        ));
        assert(s6.stack =~= st.stack);
    } else {
        // The checkpoint passes; the call itself leaves the
        // instrumentation state alone, and its breakpoint check follows.
        assert(crate::machine::spec_skip_to_end(rest, 4, 0) == 7) by {
            reveal_with_fuel(crate::machine::spec_skip_to_end, 5);
        }
        assert(crate::machine::spec_run(rest, 3, s3) == crate::machine::spec_run(rest, 8, s4));
        assert(rest[8] == call_ev);
        assert(crate::machine::spec_run(rest, 8, s4) == crate::machine::spec_run(rest, 9, s4));
        let c1 = crate::machine::MState { stack: s4.stack.push(rbv), ..s4 };
        assert(crate::machine::spec_run(rest, 9, s4) == crate::machine::spec_run(rest, 10, c1));
        let c2 = crate::machine::MState { stack: c1.stack.push(0), ..c1 };
        assert(crate::machine::spec_run(rest, 10, c1) == crate::machine::spec_run(rest, 11, c2));
        let ne: u64 = if rbv != 0 {
            1
        } else {
            0
        };
        let c3 = crate::machine::MState {
            stack: c2.stack.drop_last().drop_last().push(ne),
            ..c2
        };
        assert(c2.stack[c2.stack.len() - 2] == rbv && c2.stack[c2.stack.len() - 1] == 0);
        assert(crate::machine::spec_run(rest, 11, c2) == crate::machine::spec_run(rest, 12, c3));
        let c4 = crate::machine::MState { stack: c3.stack.drop_last(), ..c3 };
        assert(c4.stack =~= mid.stack);
        assert(c4 =~= mid);
        if rbv != 0 {
            assert(crate::machine::spec_run(rest, 12, c3) == crate::machine::spec_run(
                rest,
                13,
                c4,
            ));
            assert(crate::machine::spec_run(rest, 13, c4)
                == crate::machine::SpecOutcome::Halted(c4, rbv));
        } else {
            assert(crate::machine::spec_skip_to_end(rest, 13, 0) == 14) by {
                reveal_with_fuel(crate::machine::spec_skip_to_end, 3);
            }
            assert(crate::machine::spec_run(rest, 12, c3) == crate::machine::spec_run(
                rest,
                15,
                c4,
            ));
            assert(crate::machine::spec_run(rest, 15, c4) == crate::machine::SpecOutcome::Done(
                c4,
            ));
        }
    }
}

} // verus!
