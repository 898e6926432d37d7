//! Gas metering: a compiler middleware that makes every guest function
//! call, loop iteration, branch, and local allocation cost a pre-declared
//! number of points, and aborts once the configured limit is exceeded.
//!
//! Costs are accumulated per basic block at compile time; the accumulated
//! constant is flushed into `USED_POINTS` at each block boundary, and the
//! limit check is injected before each control-transfer operator.

use vstd::prelude::*;
use crate::event::{Event, EventSink, WasmOp, COST_TABLE_LEN, COST_INDEX_LOCAL_ALLOCATE};
use crate::fields::{FIELD_USED_POINTS, FIELD_POINTS_LIMIT};
use crate::runtime_breakpoints::{
    push_runtime_breakpoint,
    breakpoint_events,
    BREAKPOINT_VALUE_OUT_OF_GAS,
};
use crate::fields::FIELD_RUNTIME_BREAKPOINT_VALUE;
use crate::machine::{
    MState,
    SpecOutcome,
    spec_run,
    spec_skip_to_end,
    wrap_add64,
    lemma_u64_i64_roundtrip,
    lemma_run_prefix,
};

verus! {

/// A dense table of per-opcode costs, covering the whole opcode index space
/// plus the synthetic indices. Installed once per process, before any module
/// is compiled.
pub struct OpcodeCostTable {
    pub costs: Vec<u32>,
}

impl OpcodeCostTable {
    /// A table is well formed when it covers the whole index space.
    pub open spec fn wf(self) -> bool {
        self.costs@.len() == COST_TABLE_LEN
    }

    /// Build a table from its entries.
    pub fn new(costs: Vec<u32>) -> (r: Result<OpcodeCostTable, String>)
        ensures
            r matches Ok(t) ==> t.wf() && t.costs@ == costs@,
            r is Ok <==> costs@.len() == COST_TABLE_LEN,
    {
        if costs.len() == COST_TABLE_LEN {
            Ok(OpcodeCostTable { costs })
        } else {
            Err("opcode cost table must cover the whole opcode index space".to_owned())
        }
    }

    /// The cost of one operator under this table.
    pub open spec fn spec_cost_of(self, op: WasmOp) -> u64 {
        self.costs@[op.spec_opcode_index()] as u64
    }

    /// The synthetic cost charged per metered local.
    pub open spec fn spec_local_allocate_cost(self) -> u32 {
        self.costs@[COST_INDEX_LOCAL_ALLOCATE as int]
    }
}

/// The typed error surfaced when an invocation exhausts its point limit.
#[derive(Clone, Copy, PartialEq, Eq, Structural, Debug)]
pub struct ExecutionLimitExceededError;

/// The events that flush an accumulated cost of `amount` points into
/// `USED_POINTS`: read the field, add the compile-time constant, write back.
pub open spec fn flush_events(amount: u64) -> Seq<Event> {
    seq![
        Event::GetInternal { field_index: FIELD_USED_POINTS },
        Event::Wasm { op: WasmOp::I64Const { value: amount as i64 } },
        Event::Wasm { op: WasmOp::I64Add },
        Event::SetInternal { field_index: FIELD_USED_POINTS },
    ]
}

/// The events that check the gas limit: if `USED_POINTS >= POINTS_LIMIT`,
/// trip the `OUT_OF_GAS` breakpoint.
pub open spec fn limit_check_events() -> Seq<Event> {
    seq![
        Event::GetInternal { field_index: FIELD_USED_POINTS },
        Event::GetInternal { field_index: FIELD_POINTS_LIMIT },
        Event::Wasm { op: WasmOp::I64GeU },
        Event::Wasm { op: WasmOp::If },
    ] + breakpoint_events(BREAKPOINT_VALUE_OUT_OF_GAS) + seq![Event::Wasm { op: WasmOp::End }]
}

/// The gas-metering middleware. Deterministic: for the same cost table and
/// the same event stream, every backend produces the same instrumentation.
pub struct Metering {
    /// Locals below this count are declared free of charge.
    pub unmetered_locals: usize,
    /// Points accumulated for the current basic block.
    pub current_block: u64,
    /// The prologue cost of the current function's local declarations.
    pub func_locals_costs: u32,
    /// The installed cost table.
    pub opcode_costs: OpcodeCostTable,
}

impl Metering {
    /// A fresh metering middleware over the given cost table.
    pub fn new(opcode_costs: OpcodeCostTable, unmetered_locals: usize) -> (r: Metering)
        ensures
            r.unmetered_locals == unmetered_locals,
            r.current_block == 0,
            r.func_locals_costs == 0,
            r.opcode_costs == opcode_costs,
    {
        Metering { unmetered_locals, current_block: 0, func_locals_costs: 0, opcode_costs }
    }

    /// The middleware is well formed when its cost table is.
    pub open spec fn wf(self) -> bool {
        self.opcode_costs.wf()
    }

    /// The accumulator after charging `op`.
    pub open spec fn spec_charged(self, op: WasmOp) -> int {
        self.current_block + self.opcode_costs.spec_cost_of(op)
    }

    /// What this middleware emits ahead of the forwarded event: at a block
    /// boundary the flush of the charged accumulator, and before a control
    /// transfer additionally the gas-limit check.
    pub open spec fn spec_emitted_before(self, op: Event) -> Seq<Event> {
        match op {
            Event::Wasm { op: w } => {
                let flushed = if w.is_block_boundary() {
                    flush_events(self.spec_charged(w) as u64)
                } else {
                    Seq::empty()
                };
                let checked = if w.is_control_transfer() {
                    limit_check_events()
                } else {
                    Seq::empty()
                };
                flushed + checked
            },
            _ => Seq::empty(),
        }
    }

    /// The middleware state after feeding `op`.
    pub open spec fn spec_after(self, op: Event) -> Metering {
        match op {
            Event::FunctionBegin { .. } => Metering {
                current_block: self.func_locals_costs as u64,
                ..self
            },
            Event::Wasm { op: w } => Metering {
                current_block: if w.is_block_boundary() {
                    0
                } else {
                    self.spec_charged(w) as u64
                },
                ..self
            },
            _ => self,
        }
    }

    /// Feed one event. On `FunctionBegin` the accumulator is seeded with the
    /// prologue cost of the function's locals; each operator is charged into
    /// the accumulator; at block boundaries the accumulator is flushed, and
    /// before control transfers the gas-limit check is injected. The
    /// original event is always forwarded last.
    pub fn feed_event(&mut self, op: Event, sink: &mut EventSink) -> (r: Result<(), String>)
        requires
            old(self).wf(),
            op.wf(),
            op matches Event::Wasm { op: w } ==> old(self).spec_charged(w) <= u64::MAX,
        ensures
            r is Ok,
            *final(self) == old(self).spec_after(op),
            final(sink).events@ =~= old(sink).events@ + old(self).spec_emitted_before(op).push(op),
    {
        match op {
            Event::FunctionBegin { .. } => {
                self.current_block = self.func_locals_costs as u64;
            },
            Event::Wasm { op: w } => {
                let opcode_index = w.opcode_index();
                let cost = self.opcode_costs.costs[opcode_index];
                self.current_block = self.current_block + cost as u64;
                if w.is_block_boundary_exec() {
                    sink.push(Event::GetInternal { field_index: FIELD_USED_POINTS });
                    sink.push(
                        Event::Wasm { op: WasmOp::I64Const { value: self.current_block as i64 } },
                    );
                    sink.push(Event::Wasm { op: WasmOp::I64Add });
                    sink.push(Event::SetInternal { field_index: FIELD_USED_POINTS });
                    self.current_block = 0;
                }
                if w.is_control_transfer_exec() {
                    sink.push(Event::GetInternal { field_index: FIELD_USED_POINTS });
                    sink.push(Event::GetInternal { field_index: FIELD_POINTS_LIMIT });
                    sink.push(Event::Wasm { op: WasmOp::I64GeU });
                    sink.push(Event::Wasm { op: WasmOp::If });
                    push_runtime_breakpoint(sink, BREAKPOINT_VALUE_OUT_OF_GAS);
                    sink.push(Event::Wasm { op: WasmOp::End });
                }
            },
            _ => {},
        }

        sink.push(op);

        Ok(())
    }

    /// Charge one local declaration of `n` locals: everything beyond the
    /// unmetered allowance costs the synthetic per-local allocation price,
    /// added to the function's prologue cost.
    pub fn feed_local(&mut self, n: usize) -> (r: Result<(), String>)
        requires
            old(self).wf(),
            n > old(self).unmetered_locals ==> (n - old(self).unmetered_locals) <= u32::MAX
                && old(self).func_locals_costs + old(self).opcode_costs.spec_local_allocate_cost()
                * (n - old(self).unmetered_locals) <= u32::MAX,
        ensures
            r is Ok,
            n > old(self).unmetered_locals ==> *final(self) == (Metering {
                func_locals_costs: (old(self).func_locals_costs
                    + old(self).opcode_costs.spec_local_allocate_cost() * (n - old(
                    self,
                ).unmetered_locals)) as u32,
                ..*old(self)
            }),
            n <= old(self).unmetered_locals ==> *final(self) == *old(self),
    {
        if n > self.unmetered_locals {
            let metered_locals = (n - self.unmetered_locals) as u32;
            let cost = self.opcode_costs.costs[COST_INDEX_LOCAL_ALLOCATE];
            self.func_locals_costs = self.func_locals_costs + cost * metered_locals;
        }
        Ok(())
    }
}

/// Returns the number of points used by an instance.
pub fn get_points_used(instance: &crate::instance::Instance) -> (r: u64)
    requires
        instance.wf(),
    ensures
        r == instance.cells@[FIELD_USED_POINTS as int],
{
    instance.cells[FIELD_USED_POINTS]
}

/// Sets the number of points used by an instance.
pub fn set_points_used(instance: &mut crate::instance::Instance, value: u64)
    requires
        old(instance).wf(),
    ensures
        final(instance).wf(),
        final(instance).cells@ == old(instance).cells@.update(FIELD_USED_POINTS as int, value),
        final(instance).module == old(instance).module,
        final(instance).memories@ == old(instance).memories@,
        final(instance).tables@ == old(instance).tables@,
        final(instance).globals@ == old(instance).globals@,
{
    instance.cells.set(FIELD_USED_POINTS, value);
}

/// Sets the limit of points to be used by an instance.
pub fn set_points_limit(instance: &mut crate::instance::Instance, value: u64)
    requires
        old(instance).wf(),
    ensures
        final(instance).wf(),
        final(instance).cells@ == old(instance).cells@.update(FIELD_POINTS_LIMIT as int, value),
        final(instance).module == old(instance).module,
        final(instance).memories@ == old(instance).memories@,
        final(instance).tables@ == old(instance).tables@,
        final(instance).globals@ == old(instance).globals@,
{
    instance.cells.set(FIELD_POINTS_LIMIT, value);
}

/// Returns the number of points used in a runtime context.
pub fn get_points_used_ctx(ctx: &crate::machine::MachineState) -> (r: u64)
    requires
        ctx@.wf(),
    ensures
        r == ctx@.cells[FIELD_USED_POINTS as int],
{
    ctx.cell(FIELD_USED_POINTS)
}

/// Sets the number of points used in a runtime context.
pub fn set_points_used_ctx(ctx: &mut crate::machine::MachineState, value: u64)
    requires
        old(ctx)@.wf(),
    ensures
        final(ctx)@ == (crate::machine::MState {
            cells: old(ctx)@.cells.update(FIELD_USED_POINTS as int, value),
            ..old(ctx)@
        }),
{
    ctx.set_cell(FIELD_USED_POINTS, value);
}

/// Running a flush sequence adds the flushed constant to `USED_POINTS` and
/// leaves everything else unchanged.
pub proof fn lemma_flush_events(amount: u64, st: MState)
    requires
        st.wf(),
    ensures
        spec_run(flush_events(amount), 0, st) == SpecOutcome::Done(
            MState {
                cells: st.cells.update(
                    FIELD_USED_POINTS as int,
                    wrap_add64(st.cells[FIELD_USED_POINTS as int], amount),
                ),
                ..st
            },
        ),
{
    let es = flush_events(amount);
    let used = st.cells[FIELD_USED_POINTS as int];
    lemma_u64_i64_roundtrip(amount);
    let s1 = MState { stack: st.stack.push(used), ..st };
    assert(spec_run(es, 0, st) == spec_run(es, 1, s1));
    let s2 = MState { stack: s1.stack.push(amount), ..s1 };
    assert(spec_run(es, 1, s1) == spec_run(es, 2, s2));
    let s3 = MState {
        stack: s2.stack.drop_last().drop_last().push(wrap_add64(used, amount)),
        ..s2
    };
    assert(s2.stack[s2.stack.len() - 2] == used && s2.stack[s2.stack.len() - 1] == amount);
    assert(spec_run(es, 2, s2) == spec_run(es, 3, s3));
    let s4 = MState {
        cells: st.cells.update(FIELD_USED_POINTS as int, wrap_add64(used, amount)),
        stack: s3.stack.drop_last(),
        ..s3
    };
    assert(s3.stack.last() == wrap_add64(used, amount));
    assert(spec_run(es, 3, s3) == spec_run(es, 4, s4));
    assert(spec_run(es, 4, s4) == SpecOutcome::Done(s4));
    assert(s4.stack =~= st.stack);
}

/// Running the gas-limit check from a state where `USED_POINTS` has reached
/// `POINTS_LIMIT` halts with the `OUT_OF_GAS` breakpoint, with the used
/// points unchanged from the checkpoint; otherwise the check passes through
/// with the state untouched.
pub proof fn lemma_limit_check_events(st: MState)
    requires
        st.wf(),
    ensures
        st.cells[FIELD_USED_POINTS as int] >= st.cells[FIELD_POINTS_LIMIT as int] ==> spec_run(
            limit_check_events(),
            0,
            st,
        ) == SpecOutcome::Halted(
            MState {
                cells: st.cells.update(
                    FIELD_RUNTIME_BREAKPOINT_VALUE as int,
                    BREAKPOINT_VALUE_OUT_OF_GAS,
                ),
                ..st
            },
            BREAKPOINT_VALUE_OUT_OF_GAS,
        ),
        st.cells[FIELD_USED_POINTS as int] < st.cells[FIELD_POINTS_LIMIT as int] ==> spec_run(
            limit_check_events(),
            0,
            st,
        ) == SpecOutcome::Done(st),
{
    let es = limit_check_events();
    let used = st.cells[FIELD_USED_POINTS as int];
    let limit = st.cells[FIELD_POINTS_LIMIT as int];
    let s1 = MState { stack: st.stack.push(used), ..st };
    assert(spec_run(es, 0, st) == spec_run(es, 1, s1));
    let s2 = MState { stack: s1.stack.push(limit), ..s1 };
    assert(spec_run(es, 1, s1) == spec_run(es, 2, s2));
    let ge: u64 = if used >= limit {
        1
    } else {
        0
    };
    let s3 = MState { stack: s2.stack.drop_last().drop_last().push(ge), ..s2 };
    assert(s2.stack[s2.stack.len() - 2] == used && s2.stack[s2.stack.len() - 1] == limit);
    assert(spec_run(es, 2, s2) == spec_run(es, 3, s3));
    let s4 = MState { stack: s3.stack.drop_last(), ..s3 };
    assert(s4.stack =~= st.stack);
    if used >= limit {
        assert(spec_run(es, 3, s3) == spec_run(es, 4, s4));
        let s5 = MState { stack: s4.stack.push(BREAKPOINT_VALUE_OUT_OF_GAS), ..s4 };
        assert(spec_run(es, 4, s4) == spec_run(es, 5, s5));
        let s6 = MState {
            cells: st.cells.update(
                FIELD_RUNTIME_BREAKPOINT_VALUE as int,
                BREAKPOINT_VALUE_OUT_OF_GAS,
            ),
            stack: s5.stack.drop_last(),
            ..s5
        };
        assert(s5.stack.last() == BREAKPOINT_VALUE_OUT_OF_GAS);
        assert(spec_run(es, 5, s5) == spec_run(es, 6, s6));
        assert(spec_run(es, 6, s6) == SpecOutcome::Halted(
            s6,
            s6.cells[FIELD_RUNTIME_BREAKPOINT_VALUE as int],
        ));
        assert(s6.stack =~= st.stack);
    } else {
        assert(spec_skip_to_end(es, 4, 0) == 7) by {
            reveal_with_fuel(spec_skip_to_end, 5);
        }
        assert(spec_run(es, 3, s3) == spec_run(es, 8, s4));
        assert(spec_run(es, 8, s4) == SpecOutcome::Done(s4));
        assert(s4 =~= st) by {
            assert(s4.stack =~= st.stack);
        }
    }
}

/// Soundness of the metering instrumentation at a control-transfer
/// operator. Running the injected flush-and-check prefix either completes
/// with `USED_POINTS` increased by exactly the flushed constant — never
/// decreased — or halts with the `OUT_OF_GAS` breakpoint, in which case
/// `USED_POINTS >= POINTS_LIMIT` held at the checkpoint.
pub proof fn lemma_metering_checkpoint(m: Metering, w: WasmOp, st: MState)
    requires
        m.wf(),
        w.wf(),
        w.is_control_transfer(),
        st.wf(),
        st.cells[FIELD_USED_POINTS as int] + m.spec_charged(w) <= u64::MAX,
    ensures
        ({
            let flushed = (st.cells[FIELD_USED_POINTS as int] + m.spec_charged(w)) as u64;
            let run = spec_run(m.spec_emitted_before(Event::Wasm { op: w }), 0, st);
            if flushed >= st.cells[FIELD_POINTS_LIMIT as int] {
                run == SpecOutcome::Halted(
                    MState {
                        cells: st.cells.update(FIELD_USED_POINTS as int, flushed).update(
                            FIELD_RUNTIME_BREAKPOINT_VALUE as int,
                            BREAKPOINT_VALUE_OUT_OF_GAS,
                        ),
                        ..st
                    },
                    BREAKPOINT_VALUE_OUT_OF_GAS,
                )
            } else {
                run == SpecOutcome::Done(
                    MState { cells: st.cells.update(FIELD_USED_POINTS as int, flushed), ..st },
                )
            }
        }),
{
    let k = m.spec_charged(w) as u64;
    let used = st.cells[FIELD_USED_POINTS as int];
    let flushed = (used + k) as u64;
    assert(wrap_add64(used, k) == flushed);
    let es = m.spec_emitted_before(Event::Wasm { op: w });
    assert(w.is_block_boundary());
    assert(es =~= flush_events(k) + limit_check_events());
    let mid = MState { cells: st.cells.update(FIELD_USED_POINTS as int, flushed), ..st };
    lemma_flush_events(k, st);
    lemma_limit_check_events(mid);
    lemma_run_prefix(flush_events(k), limit_check_events(), st, mid);
}

/// With an unbounded point limit the checkpoint is transparent: as long as
/// the flushed total stays below the limit's ceiling, the injected
/// instrumentation completes without halting, so instrumented execution
/// terminates exactly when the guest's own execution does.
pub proof fn lemma_unbounded_limit_is_transparent(m: Metering, w: WasmOp, st: MState)
    requires
        m.wf(),
        w.wf(),
        w.is_control_transfer(),
        st.wf(),
        st.cells[FIELD_POINTS_LIMIT as int] == u64::MAX,
        st.cells[FIELD_USED_POINTS as int] + m.spec_charged(w) < u64::MAX,
    ensures
        spec_run(m.spec_emitted_before(Event::Wasm { op: w }), 0, st) == SpecOutcome::Done(
            MState {
                cells: st.cells.update(
                    FIELD_USED_POINTS as int,
                    (st.cells[FIELD_USED_POINTS as int] + m.spec_charged(w)) as u64,
                ),
                ..st
            },
        ),
{
    lemma_metering_checkpoint(m, w, st);
}

} // verus!
