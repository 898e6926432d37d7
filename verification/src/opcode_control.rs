//! Memory-growth control: bounds both the number of successful
//! `memory.grow` operations and the per-call page delta.
//!
//! Before each `memory.grow` the middleware injects a check of the growth
//! counter against `max_memory_grow`, increments the counter, backs up the
//! requested delta, checks it against `max_memory_grow_delta`, and restores
//! the delta for the original operator. Exceeding either bound trips the
//! `MEMORY_LIMIT` breakpoint.

use vstd::prelude::*;
use crate::event::{Event, EventSink, WasmOp};
use crate::fields::{FIELD_MEMORY_GROW_COUNT, FIELD_OPERAND_BACKUP};
use crate::runtime_breakpoints::{
    push_runtime_breakpoint,
    breakpoint_events,
    BREAKPOINT_VALUE_MEMORY_LIMIT,
};
use crate::fields::FIELD_RUNTIME_BREAKPOINT_VALUE;
use crate::machine::{MState, SpecOutcome, spec_run, spec_skip_to_end, wrap_add64};

verus! {

/// The middleware bounding `memory.grow`.
pub struct OpcodeControl {
    /// Maximum number of growth operations one invocation may complete.
    pub max_memory_grow: usize,
    /// Maximum number of pages a single growth may request.
    pub max_memory_grow_delta: usize,
}

/// The events that trip `MEMORY_LIMIT` when the growth counter has reached
/// `max_memory_grow`.
pub open spec fn grow_count_limit_events(max_memory_grow: usize) -> Seq<Event> {
    seq![
        Event::GetInternal { field_index: FIELD_MEMORY_GROW_COUNT },
        Event::Wasm { op: WasmOp::I64Const { value: max_memory_grow as i64 } },
        Event::Wasm { op: WasmOp::I64GeU },
        Event::Wasm { op: WasmOp::If },
    ] + breakpoint_events(BREAKPOINT_VALUE_MEMORY_LIMIT) + seq![Event::Wasm { op: WasmOp::End }]
}

/// The events that increment the growth counter.
pub open spec fn grow_count_increment_events() -> Seq<Event> {
    seq![
        Event::GetInternal { field_index: FIELD_MEMORY_GROW_COUNT },
        Event::Wasm { op: WasmOp::I64Const { value: 1 } },
        Event::Wasm { op: WasmOp::I64Add },
        Event::SetInternal { field_index: FIELD_MEMORY_GROW_COUNT },
    ]
}

/// The events that trip `MEMORY_LIMIT` when the backed-up delta exceeds
/// `max_memory_grow_delta`.
pub open spec fn grow_delta_limit_events(max_memory_grow_delta: usize) -> Seq<Event> {
    seq![
        Event::GetInternal { field_index: FIELD_OPERAND_BACKUP },
        Event::Wasm { op: WasmOp::I64Const { value: max_memory_grow_delta as i64 } },
        Event::Wasm { op: WasmOp::I64GtU },
        Event::Wasm { op: WasmOp::If },
    ] + breakpoint_events(BREAKPOINT_VALUE_MEMORY_LIMIT) + seq![Event::Wasm { op: WasmOp::End }]
}

/// The full guard injected ahead of a `memory.grow`: count check, count
/// increment, delta backup, delta check, delta restore.
pub open spec fn grow_guard_events(max_memory_grow: usize, max_memory_grow_delta: usize) -> Seq<
    Event,
> {
    grow_count_limit_events(max_memory_grow) + grow_count_increment_events() + seq![
        Event::SetInternal { field_index: FIELD_OPERAND_BACKUP },
    ] + grow_delta_limit_events(max_memory_grow_delta) + seq![
        Event::GetInternal { field_index: FIELD_OPERAND_BACKUP },
    ]
}

impl OpcodeControl {
    /// A fresh growth-control middleware with the given bounds.
    pub fn new(max_memory_grow: usize, max_memory_grow_delta: usize) -> (r: OpcodeControl)
        ensures
            r.max_memory_grow == max_memory_grow,
            r.max_memory_grow_delta == max_memory_grow_delta,
    {
        OpcodeControl { max_memory_grow, max_memory_grow_delta }
    }

    /// What this middleware emits ahead of the forwarded event: the growth
    /// guard before every `memory.grow`, nothing otherwise.
    pub open spec fn spec_emitted_before(self, op: Event) -> Seq<Event> {
        if op matches Event::Wasm { op: WasmOp::MemoryGrow { .. } } {
            grow_guard_events(self.max_memory_grow, self.max_memory_grow_delta)
        } else {
            Seq::empty()
        }
    }

    fn inject_memory_grow_count_limit(&mut self, sink: &mut EventSink)
        ensures
            *final(self) == *old(self),
            final(sink).events@ =~= old(sink).events@ + grow_count_limit_events(
                old(self).max_memory_grow,
            ),
    {
        sink.push(Event::GetInternal { field_index: FIELD_MEMORY_GROW_COUNT });
        sink.push(Event::Wasm { op: WasmOp::I64Const { value: self.max_memory_grow as i64 } });
        sink.push(Event::Wasm { op: WasmOp::I64GeU });
        sink.push(Event::Wasm { op: WasmOp::If });
        push_runtime_breakpoint(sink, BREAKPOINT_VALUE_MEMORY_LIMIT);
        sink.push(Event::Wasm { op: WasmOp::End });
    }

    fn inject_memory_grow_count_increment(&mut self, sink: &mut EventSink)
        ensures
            *final(self) == *old(self),
            final(sink).events@ =~= old(sink).events@ + grow_count_increment_events(),
    {
        sink.push(Event::GetInternal { field_index: FIELD_MEMORY_GROW_COUNT });
        sink.push(Event::Wasm { op: WasmOp::I64Const { value: 1 } });
        sink.push(Event::Wasm { op: WasmOp::I64Add });
        sink.push(Event::SetInternal { field_index: FIELD_MEMORY_GROW_COUNT });
    }

    fn inject_memory_grow_delta_limit(&mut self, sink: &mut EventSink)
        ensures
            *final(self) == *old(self),
            final(sink).events@ =~= old(sink).events@ + grow_delta_limit_events(
                old(self).max_memory_grow_delta,
            ),
    {
        sink.push(Event::GetInternal { field_index: FIELD_OPERAND_BACKUP });
        sink.push(
            Event::Wasm { op: WasmOp::I64Const { value: self.max_memory_grow_delta as i64 } },
        );
        sink.push(Event::Wasm { op: WasmOp::I64GtU });
        sink.push(Event::Wasm { op: WasmOp::If });
        push_runtime_breakpoint(sink, BREAKPOINT_VALUE_MEMORY_LIMIT);
        sink.push(Event::Wasm { op: WasmOp::End });
    }

    /// Feed one event. A `memory.grow` on memory index zero gets the growth
    /// guard injected ahead of it; one on any other memory index fails
    /// compilation, with nothing emitted. Everything else passes through.
    pub fn feed_event(&mut self, op: Event, sink: &mut EventSink) -> (r: Result<(), String>)
        ensures
            *final(self) == *old(self),
            r is Ok <==> !(op matches Event::Wasm { op: WasmOp::MemoryGrow { reserved } }
                && reserved != 0),
            r is Ok ==> final(sink).events@ =~= old(sink).events@ + old(self).spec_emitted_before(
                op,
            ).push(op),
            r is Err ==> final(sink).events@ =~= old(sink).events@,
            r matches Err(m) ==> m@ == "MemoryGrow must have memory index 0"@,
    {
        match op {
            Event::Wasm { op: WasmOp::MemoryGrow { reserved } } => {
                if reserved != 0 {
                    return Err("MemoryGrow must have memory index 0".to_owned());
                }

                // The growth count is checked against the limit before
                // anything else is attempted.
                self.inject_memory_grow_count_limit(sink);
                self.inject_memory_grow_count_increment(sink);

                // Back up the top of the stack (the requested delta) so it
                // can be both compared against the bound and handed to the
                // original memory.grow.
                sink.push(Event::SetInternal { field_index: FIELD_OPERAND_BACKUP });

                self.inject_memory_grow_delta_limit(sink);

                // Bring back the backed-up operand for memory.grow.
                sink.push(Event::GetInternal { field_index: FIELD_OPERAND_BACKUP });
            },
            _ => {},
        }

        sink.push(op);
        Ok(())
    }
}

/// Casting a `usize` through `i64` and back to `u64` preserves its value;
/// the injected bound constants round-trip this way.
pub proof fn lemma_usize_i64_roundtrip(x: usize)
    ensures
        (x as i64) as u64 == x as u64,
{
    assert((x as i64) as u64 == x as u64) by (bit_vector);
}

/// Soundness of the memory-growth guard. For a `memory.grow` requesting `d`
/// pages: either fewer than `max_memory_grow` growths have completed and
/// `d <= max_memory_grow_delta`, in which case the grow proceeds (with the
/// growth counter incremented and the requested delta restored for the
/// operator), or execution halts with the `MEMORY_LIMIT` breakpoint.
pub proof fn lemma_grow_guard(mg: usize, md: usize, reserved: u32, st: MState)
    requires
        st.wf(),
        st.stack.len() > 0,
    ensures
        ({
            let d = st.stack.last();
            let count = st.cells[FIELD_MEMORY_GROW_COUNT as int];
            let run = spec_run(
                grow_guard_events(mg, md).push(Event::Wasm { op: WasmOp::MemoryGrow { reserved } }),
                0,
                st,
            );
            if count >= mg as u64 {
                run == SpecOutcome::Halted(
                    MState {
                        cells: st.cells.update(
                            FIELD_RUNTIME_BREAKPOINT_VALUE as int,
                            BREAKPOINT_VALUE_MEMORY_LIMIT,
                        ),
                        ..st
                    },
                    BREAKPOINT_VALUE_MEMORY_LIMIT,
                )
            } else if d > md as u64 {
                run == SpecOutcome::Halted(
                    MState {
                        cells: st.cells.update(
                            FIELD_MEMORY_GROW_COUNT as int,
                            (count + 1) as u64,
                        ).update(FIELD_OPERAND_BACKUP as int, d).update(
                            FIELD_RUNTIME_BREAKPOINT_VALUE as int,
                            BREAKPOINT_VALUE_MEMORY_LIMIT,
                        ),
                        stack: st.stack.drop_last(),
                        ..st
                    },
                    BREAKPOINT_VALUE_MEMORY_LIMIT,
                )
            } else {
                run == SpecOutcome::Done(
                    MState {
                        cells: st.cells.update(
                            FIELD_MEMORY_GROW_COUNT as int,
                            (count + 1) as u64,
                        ).update(FIELD_OPERAND_BACKUP as int, d),
                        stack: st.stack.drop_last().push(st.pages),
                        pages: wrap_add64(st.pages, d),
                    },
                )
            }
        }),
{
    let d = st.stack.last();
    let count = st.cells[FIELD_MEMORY_GROW_COUNT as int];
    let es = grow_guard_events(mg, md).push(Event::Wasm { op: WasmOp::MemoryGrow { reserved } });
    lemma_usize_i64_roundtrip(mg);
    lemma_usize_i64_roundtrip(md);
    assert(es =~= seq![
        Event::GetInternal { field_index: FIELD_MEMORY_GROW_COUNT },
        Event::Wasm { op: WasmOp::I64Const { value: mg as i64 } },
        Event::Wasm { op: WasmOp::I64GeU },
        Event::Wasm { op: WasmOp::If },
        Event::Wasm { op: WasmOp::I64Const { value: BREAKPOINT_VALUE_MEMORY_LIMIT as i64 } },
        Event::SetInternal { field_index: FIELD_RUNTIME_BREAKPOINT_VALUE },
        Event::Breakpoint,
        Event::Wasm { op: WasmOp::End },
        Event::GetInternal { field_index: FIELD_MEMORY_GROW_COUNT },
        Event::Wasm { op: WasmOp::I64Const { value: 1 } },
        Event::Wasm { op: WasmOp::I64Add },
        Event::SetInternal { field_index: FIELD_MEMORY_GROW_COUNT },
        Event::SetInternal { field_index: FIELD_OPERAND_BACKUP },
        Event::GetInternal { field_index: FIELD_OPERAND_BACKUP },
        Event::Wasm { op: WasmOp::I64Const { value: md as i64 } },
        Event::Wasm { op: WasmOp::I64GtU },
        Event::Wasm { op: WasmOp::If },
        Event::Wasm { op: WasmOp::I64Const { value: BREAKPOINT_VALUE_MEMORY_LIMIT as i64 } },
        Event::SetInternal { field_index: FIELD_RUNTIME_BREAKPOINT_VALUE },
        Event::Breakpoint,
        Event::Wasm { op: WasmOp::End },
        Event::GetInternal { field_index: FIELD_OPERAND_BACKUP },
        Event::Wasm { op: WasmOp::MemoryGrow { reserved } },
    ]);
    let s1 = MState { stack: st.stack.push(count), ..st };
    assert(spec_run(es, 0, st) == spec_run(es, 1, s1));
    let s2 = MState { stack: s1.stack.push(mg as u64), ..s1 };
    assert(spec_run(es, 1, s1) == spec_run(es, 2, s2));
    let ge: u64 = if count >= mg as u64 {
        1
    } else {
        0
    };
    let s3 = MState { stack: s2.stack.drop_last().drop_last().push(ge), ..s2 };
    assert(s2.stack[s2.stack.len() - 2] == count && s2.stack[s2.stack.len() - 1] == mg as u64);
    assert(spec_run(es, 2, s2) == spec_run(es, 3, s3));
    let s4 = MState { stack: s3.stack.drop_last(), ..s3 };
    assert(s4.stack =~= st.stack);
    if count >= mg as u64 {
        // The growth counter has reached the bound: trip MEMORY_LIMIT.
        assert(spec_run(es, 3, s3) == spec_run(es, 4, s4));
        let s5 = MState { stack: s4.stack.push(BREAKPOINT_VALUE_MEMORY_LIMIT), ..s4 };
        assert(spec_run(es, 4, s4) == spec_run(es, 5, s5));
        let s6 = MState {
            cells: st.cells.update(
                FIELD_RUNTIME_BREAKPOINT_VALUE as int,
                BREAKPOINT_VALUE_MEMORY_LIMIT,
            ),
            stack: s5.stack.drop_last(),
            ..s5
        };
        assert(s5.stack.last() == BREAKPOINT_VALUE_MEMORY_LIMIT);
        assert(spec_run(es, 5, s5) == spec_run(es, 6, s6));
        assert(spec_run(es, 6, s6) == SpecOutcome::Halted(
            s6,
            s6.cells[FIELD_RUNTIME_BREAKPOINT_VALUE as int],
        ));
        assert(s6.stack =~= st.stack);
    } else {
        // The count check passes: skip its breakpoint arm.
        assert(spec_skip_to_end(es, 4, 0) == 7) by {
            reveal_with_fuel(spec_skip_to_end, 5);
        }
        assert(spec_run(es, 3, s3) == spec_run(es, 8, s4));
        // Increment the growth counter.
        let t1 = MState { stack: s4.stack.push(count), ..s4 };
        assert(spec_run(es, 8, s4) == spec_run(es, 9, t1));
        let t2 = MState { stack: t1.stack.push(1), ..t1 };
        assert(spec_run(es, 9, t1) == spec_run(es, 10, t2));
        let t3 = MState {
            stack: t2.stack.drop_last().drop_last().push((count + 1) as u64),
            ..t2
        };
        assert(t2.stack[t2.stack.len() - 2] == count && t2.stack[t2.stack.len() - 1] == 1);
        assert(wrap_add64(count, 1) == (count + 1) as u64);
        assert(spec_run(es, 10, t2) == spec_run(es, 11, t3));
        let t4 = MState {
            cells: st.cells.update(FIELD_MEMORY_GROW_COUNT as int, (count + 1) as u64),
            stack: t3.stack.drop_last(),
            ..t3
        };
        assert(t3.stack.last() == (count + 1) as u64);
        assert(spec_run(es, 11, t3) == spec_run(es, 12, t4));
        assert(t4.stack =~= st.stack);
        // Back up the requested delta.
        assert(t4.stack.last() == d);
        let t5 = MState {
            cells: t4.cells.update(FIELD_OPERAND_BACKUP as int, d),
            stack: t4.stack.drop_last(),
            ..t4
        };
        assert(spec_run(es, 12, t4) == spec_run(es, 13, t5));
        assert(t5.stack =~= st.stack.drop_last());
        // Check the delta bound.
        let u1 = MState { stack: t5.stack.push(d), ..t5 };
        assert(spec_run(es, 13, t5) == spec_run(es, 14, u1));
        let u2 = MState { stack: u1.stack.push(md as u64), ..u1 };
        assert(spec_run(es, 14, u1) == spec_run(es, 15, u2));
        let gt: u64 = if d > md as u64 {
            1
        } else {
            0
        };
        let u3 = MState { stack: u2.stack.drop_last().drop_last().push(gt), ..u2 };
        assert(u2.stack[u2.stack.len() - 2] == d && u2.stack[u2.stack.len() - 1] == md as u64);
        assert(spec_run(es, 15, u2) == spec_run(es, 16, u3));
        let u4 = MState { stack: u3.stack.drop_last(), ..u3 };
        assert(u4.stack =~= st.stack.drop_last());
        if d > md as u64 {
            // The delta exceeds the bound: trip MEMORY_LIMIT.
            assert(spec_run(es, 16, u3) == spec_run(es, 17, u4));
            let u5 = MState { stack: u4.stack.push(BREAKPOINT_VALUE_MEMORY_LIMIT), ..u4 };
            assert(spec_run(es, 17, u4) == spec_run(es, 18, u5));
            let u6 = MState {
                cells: u4.cells.update(
                    FIELD_RUNTIME_BREAKPOINT_VALUE as int,
                    BREAKPOINT_VALUE_MEMORY_LIMIT,
                ),
                stack: u5.stack.drop_last(),
                ..u5
            };
            assert(u5.stack.last() == BREAKPOINT_VALUE_MEMORY_LIMIT);
            assert(spec_run(es, 18, u5) == spec_run(es, 19, u6));
            assert(spec_run(es, 19, u6) == SpecOutcome::Halted(
                u6,
                u6.cells[FIELD_RUNTIME_BREAKPOINT_VALUE as int],
            ));
            assert(u6.stack =~= st.stack.drop_last());
        } else {
            // Both checks pass: restore the delta and let the grow proceed.
            assert(spec_skip_to_end(es, 17, 0) == 20) by {
                reveal_with_fuel(spec_skip_to_end, 5);
            }
            assert(spec_run(es, 16, u3) == spec_run(es, 21, u4));
            let v1 = MState { stack: u4.stack.push(d), ..u4 };
            assert(spec_run(es, 21, u4) == spec_run(es, 22, v1));
            assert(v1.stack.last() == d);
            let v2 = MState {
                stack: v1.stack.drop_last().push(st.pages),
                pages: wrap_add64(st.pages, d),
                ..v1
            };
            assert(spec_run(es, 22, v1) == spec_run(es, 23, v2));
            assert(spec_run(es, 23, v2) == SpecOutcome::Done(v2));
            assert(v2.stack =~= st.stack.drop_last().push(st.pages));
        }
    }
}

} // verus!
