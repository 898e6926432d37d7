//! A small machine over instrumentation events.
//!
//! The machine gives runtime meaning to the sequences the middlewares
//! inject: it tracks the per-instance internal-field cells, the portion of
//! the operand stack the injected code touches, and the linear-memory page
//! count. Guest operators outside that set leave the machine state
//! unchanged; an `if` whose condition is false skips to its matching `end`.
//! Executing a `Breakpoint` event halts with the reason currently stored in
//! `RUNTIME_BREAKPOINT_VALUE`.

use vstd::prelude::*;
use crate::event::{Event, WasmOp};
use crate::fields::{FIELD_COUNT, FIELD_RUNTIME_BREAKPOINT_VALUE};

verus! {

/// The mathematical machine state.
#[verifier::ext_equal]
pub struct MState {
    /// The internal-field cells of the instance.
    pub cells: Seq<u64>,
    /// The operand stack, bottom first.
    pub stack: Seq<u64>,
    /// The current linear-memory size in pages.
    pub pages: u64,
}

impl MState {
    /// The cell array covers every internal field.
    pub open spec fn wf(self) -> bool {
        self.cells.len() == FIELD_COUNT
    }
}

/// What a run of an event sequence ends in.
pub enum SpecOutcome {
    /// All events executed; the final state.
    Done(MState),
    /// A breakpoint transferred control to the host; the state at the
    /// breakpoint and the reason read from `RUNTIME_BREAKPOINT_VALUE`.
    Halted(MState, u64),
    /// An event was not executable (stack underflow or a field index out of
    /// range); instrumented code never reaches this.
    Stuck,
}

/// Addition modulo 2^64, as the generated `i64.add` computes it.
pub open spec fn wrap_add64(a: u64, b: u64) -> u64 {
    ((a + b) % 0x1_0000_0000_0000_0000) as u64
}

/// The index of the `end` that closes the block open at `i` (at nesting
/// `depth`), or the sequence length if none does.
pub open spec fn spec_skip_to_end(events: Seq<Event>, i: int, depth: int) -> int
    decreases events.len() - i,
    when 0 <= i <= events.len()
{
    if i >= events.len() {
        events.len() as int
    } else {
        match events[i] {
            Event::Wasm { op: WasmOp::If } => spec_skip_to_end(events, i + 1, depth + 1),
            Event::Wasm { op: WasmOp::Block } => spec_skip_to_end(events, i + 1, depth + 1),
            Event::Wasm { op: WasmOp::Loop } => spec_skip_to_end(events, i + 1, depth + 1),
            Event::Wasm { op: WasmOp::End } => if depth == 0 {
                i
            } else {
                spec_skip_to_end(events, i + 1, depth - 1)
            },
            _ => spec_skip_to_end(events, i + 1, depth),
        }
    }
}

/// The skip target lies between the start and the sequence length.
pub proof fn lemma_skip_to_end_bounds(events: Seq<Event>, i: int, depth: int)
    requires
        0 <= i <= events.len(),
    ensures
        i <= spec_skip_to_end(events, i, depth) <= events.len(),
    decreases events.len() - i,
{
    if i < events.len() {
        match events[i] {
            Event::Wasm { op: WasmOp::If } => lemma_skip_to_end_bounds(events, i + 1, depth + 1),
            Event::Wasm { op: WasmOp::Block } => lemma_skip_to_end_bounds(events, i + 1, depth + 1),
            Event::Wasm { op: WasmOp::Loop } => lemma_skip_to_end_bounds(events, i + 1, depth + 1),
            Event::Wasm { op: WasmOp::End } => if depth != 0 {
                lemma_skip_to_end_bounds(events, i + 1, depth - 1)
            },
            _ => lemma_skip_to_end_bounds(events, i + 1, depth),
        }
    }
}

/// Run the events from index `i` in state `st`.
pub open spec fn spec_run(events: Seq<Event>, i: int, st: MState) -> SpecOutcome
    decreases events.len() - i,
    when 0 <= i <= events.len()
    via spec_run_decreases
{
    if i >= events.len() {
        SpecOutcome::Done(st)
    } else {
        match events[i] {
            Event::GetInternal { field_index } => if field_index < st.cells.len() {
                spec_run(
                    events,
                    i + 1,
                    MState { stack: st.stack.push(st.cells[field_index as int]), ..st },
                )
            } else {
                SpecOutcome::Stuck
            },
            Event::SetInternal { field_index } => if field_index < st.cells.len()
                && st.stack.len() > 0 {
                spec_run(
                    events,
                    i + 1,
                    MState {
                        cells: st.cells.update(field_index as int, st.stack.last()),
                        stack: st.stack.drop_last(),
                        ..st
                    },
                )
            } else {
                SpecOutcome::Stuck
            },
            Event::Breakpoint => if FIELD_RUNTIME_BREAKPOINT_VALUE < st.cells.len() {
                SpecOutcome::Halted(st, st.cells[FIELD_RUNTIME_BREAKPOINT_VALUE as int])
            } else {
                SpecOutcome::Stuck
            },
            Event::Wasm { op } => match op {
                WasmOp::I64Const { value } => spec_run(
                    events,
                    i + 1,
                    MState { stack: st.stack.push(value as u64), ..st },
                ),
                WasmOp::I64Add => if st.stack.len() >= 2 {
                    spec_run(
                        events,
                        i + 1,
                        MState {
                            stack: st.stack.drop_last().drop_last().push(
                                wrap_add64(
                                    st.stack[st.stack.len() - 2],
                                    st.stack[st.stack.len() - 1],
                                ),
                            ),
                            ..st
                        },
                    )
                } else {
                    SpecOutcome::Stuck
                },
                WasmOp::I64GeU => if st.stack.len() >= 2 {
                    spec_run(
                        events,
                        i + 1,
                        MState {
                            stack: st.stack.drop_last().drop_last().push(
                                if st.stack[st.stack.len() - 2] >= st.stack[st.stack.len() - 1] {
                                    1u64
                                } else {
                                    0u64
                                },
                            ),
                            ..st
                        },
                    )
                } else {
                    SpecOutcome::Stuck
                },
                WasmOp::I64GtU => if st.stack.len() >= 2 {
                    spec_run(
                        events,
                        i + 1,
                        MState {
                            stack: st.stack.drop_last().drop_last().push(
                                if st.stack[st.stack.len() - 2] > st.stack[st.stack.len() - 1] {
                                    1u64
                                } else {
                                    0u64
                                },
                            ),
                            ..st
                        },
                    )
                } else {
                    SpecOutcome::Stuck
                },
                WasmOp::I64Ne => if st.stack.len() >= 2 {
                    spec_run(
                        events,
                        i + 1,
                        MState {
                            stack: st.stack.drop_last().drop_last().push(
                                if st.stack[st.stack.len() - 2] != st.stack[st.stack.len() - 1] {
                                    1u64
                                } else {
                                    0u64
                                },
                            ),
                            ..st
                        },
                    )
                } else {
                    SpecOutcome::Stuck
                },
                WasmOp::If => if st.stack.len() > 0 {
                    if st.stack.last() != 0 {
                        spec_run(events, i + 1, MState { stack: st.stack.drop_last(), ..st })
                    } else {
                        let j = spec_skip_to_end(events, i + 1, 0);
                        if j < events.len() {
                            spec_run(events, j + 1, MState { stack: st.stack.drop_last(), ..st })
                        } else {
                            SpecOutcome::Done(MState { stack: st.stack.drop_last(), ..st })
                        }
                    }
                } else {
                    SpecOutcome::Stuck
                },
                WasmOp::MemoryGrow { .. } => if st.stack.len() > 0 {
                    spec_run(
                        events,
                        i + 1,
                        MState {
                            stack: st.stack.drop_last().push(st.pages),
                            pages: wrap_add64(st.pages, st.stack.last()),
                            ..st
                        },
                    )
                } else {
                    SpecOutcome::Stuck
                },
                _ => spec_run(events, i + 1, st),
            },
            _ => spec_run(events, i + 1, st),
        }
    }
}

#[via_fn]
proof fn spec_run_decreases(events: Seq<Event>, i: int, st: MState) {
    if 0 <= i < events.len() {
        if events[i] matches Event::Wasm { op: WasmOp::If } {
            lemma_skip_to_end_bounds(events, i + 1, 0);
        }
    }
}

/// A sequence without `if` operators: control never skips within it.
pub open spec fn straightline(s: Seq<Event>) -> bool {
    forall|i: int|
        0 <= i < s.len() ==> !((#[trigger] s[i]) matches Event::Wasm { op: WasmOp::If })
}

/// Skipping within the suffix of a concatenation ignores the prefix.
pub proof fn lemma_skip_shift(p: Seq<Event>, s: Seq<Event>, i: int, d: int)
    requires
        0 <= i <= s.len(),
    ensures
        spec_skip_to_end(p + s, p.len() + i, d) == p.len() + spec_skip_to_end(s, i, d),
    decreases s.len() - i,
{
    if i < s.len() {
        assert((p + s)[p.len() + i] == s[i]);
        match s[i] {
            Event::Wasm { op: WasmOp::If } => lemma_skip_shift(p, s, i + 1, d + 1),
            Event::Wasm { op: WasmOp::Block } => lemma_skip_shift(p, s, i + 1, d + 1),
            Event::Wasm { op: WasmOp::Loop } => lemma_skip_shift(p, s, i + 1, d + 1),
            Event::Wasm { op: WasmOp::End } => if d != 0 {
                lemma_skip_shift(p, s, i + 1, d - 1)
            },
            _ => lemma_skip_shift(p, s, i + 1, d),
        }
    }
}

/// Running the suffix of a concatenation ignores the prefix.
pub proof fn lemma_run_shift(p: Seq<Event>, s: Seq<Event>, i: int, st: MState)
    requires
        0 <= i <= s.len(),
    ensures
        spec_run(p + s, p.len() + i, st) == spec_run(s, i, st),
    decreases s.len() - i,
{
    if i < s.len() {
        assert((p + s)[p.len() + i] == s[i]);
        match s[i] {
            Event::GetInternal { field_index } => {
                if field_index < st.cells.len() {
                    lemma_run_shift(
                        p,
                        s,
                        i + 1,
                        MState { stack: st.stack.push(st.cells[field_index as int]), ..st },
                    );
                }
            },
            Event::SetInternal { field_index } => {
                if field_index < st.cells.len() && st.stack.len() > 0 {
                    lemma_run_shift(
                        p,
                        s,
                        i + 1,
                        MState {
                            cells: st.cells.update(field_index as int, st.stack.last()),
                            stack: st.stack.drop_last(),
                            ..st
                        },
                    );
                }
            },
            Event::Breakpoint => {},
            Event::Wasm { op } => match op {
                WasmOp::I64Const { value } => lemma_run_shift(
                    p,
                    s,
                    i + 1,
                    MState { stack: st.stack.push(value as u64), ..st },
                ),
                WasmOp::I64Add => {
                    if st.stack.len() >= 2 {
                        lemma_run_shift(
                            p,
                            s,
                            i + 1,
                            MState {
                                stack: st.stack.drop_last().drop_last().push(
                                    wrap_add64(
                                        st.stack[st.stack.len() - 2],
                                        st.stack[st.stack.len() - 1],
                                    ),
                                ),
                                ..st
                            },
                        );
                    }
                },
                WasmOp::I64GeU => {
                    if st.stack.len() >= 2 {
                        lemma_run_shift(
                            p,
                            s,
                            i + 1,
                            MState {
                                stack: st.stack.drop_last().drop_last().push(
                                    if st.stack[st.stack.len() - 2] >= st.stack[st.stack.len()
                                        - 1] {
                                        1u64
                                    } else {
                                        0u64
                                    },
                                ),
                                ..st
                            },
                        );
                    }
                },
                WasmOp::I64GtU => {
                    if st.stack.len() >= 2 {
                        lemma_run_shift(
                            p,
                            s,
                            i + 1,
                            MState {
                                stack: st.stack.drop_last().drop_last().push(
                                    if st.stack[st.stack.len() - 2] > st.stack[st.stack.len()
                                        - 1] {
                                        1u64
                                    } else {
                                        0u64
                                    },
                                ),
                                ..st
                            },
                        );
                    }
                },
                WasmOp::I64Ne => {
                    if st.stack.len() >= 2 {
                        lemma_run_shift(
                            p,
                            s,
                            i + 1,
                            MState {
                                stack: st.stack.drop_last().drop_last().push(
                                    if st.stack[st.stack.len() - 2] != st.stack[st.stack.len()
                                        - 1] {
                                        1u64
                                    } else {
                                        0u64
                                    },
                                ),
                                ..st
                            },
                        );
                    }
                },
                WasmOp::If => {
                    if st.stack.len() > 0 {
                        let st1 = MState { stack: st.stack.drop_last(), ..st };
                        if st.stack.last() != 0 {
                            lemma_run_shift(p, s, i + 1, st1);
                        } else {
                            lemma_skip_shift(p, s, i + 1, 0);
                            lemma_skip_to_end_bounds(s, i + 1, 0);
                            let j = spec_skip_to_end(s, i + 1, 0);
                            if j < s.len() {
                                lemma_run_shift(p, s, j + 1, st1);
                            }
                        }
                    }
                },
                WasmOp::MemoryGrow { .. } => {
                    if st.stack.len() > 0 {
                        lemma_run_shift(
                            p,
                            s,
                            i + 1,
                            MState {
                                stack: st.stack.drop_last().push(st.pages),
                                pages: wrap_add64(st.pages, st.stack.last()),
                                ..st
                            },
                        );
                    }
                },
                _ => lemma_run_shift(p, s, i + 1, st),
            },
            _ => lemma_run_shift(p, s, i + 1, st),
        }
    }
}

/// Running a concatenation whose straight-line prefix completes continues
/// with the suffix from the state the prefix reached.
pub proof fn lemma_run_prefix(s1: Seq<Event>, s2: Seq<Event>, st: MState, mid: MState)
    requires
        straightline(s1),
        spec_run(s1, 0, st) == SpecOutcome::Done(mid),
    ensures
        spec_run(s1 + s2, 0, st) == spec_run(s2, 0, mid),
{
    lemma_run_prefix_from(s1, s2, 0, st, mid);
}

proof fn lemma_run_prefix_from(s1: Seq<Event>, s2: Seq<Event>, i: int, st: MState, mid: MState)
    requires
        straightline(s1),
        0 <= i <= s1.len(),
        spec_run(s1, i, st) == SpecOutcome::Done(mid),
    ensures
        spec_run(s1 + s2, i, st) == spec_run(s2, 0, mid),
    decreases s1.len() - i,
{
    if i == s1.len() {
        assert(st == mid);
        lemma_run_shift(s1, s2, 0, st);
    } else {
        assert((s1 + s2)[i] == s1[i]);
        match s1[i] {
            Event::GetInternal { field_index } => {
                if field_index < st.cells.len() {
                    lemma_run_prefix_from(
                        s1,
                        s2,
                        i + 1,
                        MState { stack: st.stack.push(st.cells[field_index as int]), ..st },
                        mid,
                    );
                }
            },
            Event::SetInternal { field_index } => {
                if field_index < st.cells.len() && st.stack.len() > 0 {
                    lemma_run_prefix_from(
                        s1,
                        s2,
                        i + 1,
                        MState {
                            cells: st.cells.update(field_index as int, st.stack.last()),
                            stack: st.stack.drop_last(),
                            ..st
                        },
                        mid,
                    );
                }
            },
            Event::Breakpoint => {},
            Event::Wasm { op } => match op {
                WasmOp::I64Const { value } => lemma_run_prefix_from(
                    s1,
                    s2,
                    i + 1,
                    MState { stack: st.stack.push(value as u64), ..st },
                    mid,
                ),
                WasmOp::I64Add => {
                    if st.stack.len() >= 2 {
                        lemma_run_prefix_from(
                            s1,
                            s2,
                            i + 1,
                            MState {
                                stack: st.stack.drop_last().drop_last().push(
                                    wrap_add64(
                                        st.stack[st.stack.len() - 2],
                                        st.stack[st.stack.len() - 1],
                                    ),
                                ),
                                ..st
                            },
                            mid,
                        );
                    }
                },
                WasmOp::I64GeU => {
                    if st.stack.len() >= 2 {
                        lemma_run_prefix_from(
                            s1,
                            s2,
                            i + 1,
                            MState {
                                stack: st.stack.drop_last().drop_last().push(
                                    if st.stack[st.stack.len() - 2] >= st.stack[st.stack.len()
                                        - 1] {
                                        1u64
                                    } else {
                                        0u64
                                    },
                                ),
                                ..st
                            },
                            mid,
                        );
                    }
                },
                WasmOp::I64GtU => {
                    if st.stack.len() >= 2 {
                        lemma_run_prefix_from(
                            s1,
                            s2,
                            i + 1,
                            MState {
                                stack: st.stack.drop_last().drop_last().push(
                                    if st.stack[st.stack.len() - 2] > st.stack[st.stack.len()
                                        - 1] {
                                        1u64
                                    } else {
                                        0u64
                                    },
                                ),
                                ..st
                            },
                            mid,
                        );
                    }
                },
                WasmOp::I64Ne => {
                    if st.stack.len() >= 2 {
                        lemma_run_prefix_from(
                            s1,
                            s2,
                            i + 1,
                            MState {
                                stack: st.stack.drop_last().drop_last().push(
                                    if st.stack[st.stack.len() - 2] != st.stack[st.stack.len()
                                        - 1] {
                                        1u64
                                    } else {
                                        0u64
                                    },
                                ),
                                ..st
                            },
                            mid,
                        );
                    }
                },
                WasmOp::MemoryGrow { .. } => {
                    if st.stack.len() > 0 {
                        lemma_run_prefix_from(
                            s1,
                            s2,
                            i + 1,
                            MState {
                                stack: st.stack.drop_last().push(st.pages),
                                pages: wrap_add64(st.pages, st.stack.last()),
                                ..st
                            },
                            mid,
                        );
                    }
                },
                WasmOp::If => {},
                _ => lemma_run_prefix_from(s1, s2, i + 1, st, mid),
            },
            _ => lemma_run_prefix_from(s1, s2, i + 1, st, mid),
        }
    }
}

/// Reinterpreting a 64-bit value as signed and back preserves it; the
/// injected `i64.const` operands round-trip this way.
pub proof fn lemma_u64_i64_roundtrip(x: u64)
    ensures
        (x as i64) as u64 == x,
{
    assert((x as i64) as u64 == x) by (bit_vector);
}

/// The executable machine state, mirroring [`MState`].
pub struct MachineState {
    /// The internal-field cells of the instance.
    pub cells: Vec<u64>,
    /// The operand stack, bottom first.
    pub stack: Vec<u64>,
    /// The current linear-memory size in pages.
    pub pages: u64,
}

impl View for MachineState {
    type V = MState;

    open spec fn view(&self) -> MState {
        MState { cells: self.cells@, stack: self.stack@, pages: self.pages }
    }
}

impl MachineState {
    /// A fresh state: all cells zero, an empty stack, `pages` pages of
    /// linear memory.
    pub fn new(pages: u64) -> (r: MachineState)
        ensures
            r@.wf(),
            r@.stack.len() == 0,
            r@.pages == pages,
            forall|i: int| 0 <= i < FIELD_COUNT ==> r@.cells[i] == 0,
    {
        let mut cells: Vec<u64> = Vec::new();
        let mut i: usize = 0;
        while i < FIELD_COUNT
            invariant
                i <= FIELD_COUNT,
                cells@.len() == i,
                forall|j: int| 0 <= j < i ==> cells@[j] == 0,
            decreases FIELD_COUNT - i,
        {
            cells.push(0);
            i = i + 1;
        }
        MachineState { cells, stack: Vec::new(), pages }
    }

    /// Read one cell.
    pub fn cell(&self, field_index: usize) -> (r: u64)
        requires
            field_index < self@.cells.len(),
        ensures
            r == self@.cells[field_index as int],
    {
        self.cells[field_index]
    }

    /// Write one cell.
    pub fn set_cell(&mut self, field_index: usize, value: u64)
        requires
            field_index < old(self)@.cells.len(),
        ensures
            final(self)@ == (MState {
                cells: old(self)@.cells.update(field_index as int, value),
                ..old(self)@
            }),
    {
        self.cells.set(field_index, value);
    }

    /// Push one operand.
    pub fn push_operand(&mut self, value: u64)
        ensures
            final(self)@ == (MState { stack: old(self)@.stack.push(value), ..old(self)@ }),
    {
        self.stack.push(value);
    }
}

/// The executable outcome of a run, mirroring [`SpecOutcome`].
pub enum RunOutcome {
    /// All events executed; the final state.
    Done(MachineState),
    /// A breakpoint transferred control to the host, with the given reason.
    Halted(MachineState, u64),
    /// An event was not executable.
    Stuck,
}

impl View for RunOutcome {
    type V = SpecOutcome;

    open spec fn view(&self) -> SpecOutcome {
        match self {
            RunOutcome::Done(m) => SpecOutcome::Done(m@),
            RunOutcome::Halted(m, v) => SpecOutcome::Halted(m@, *v),
            RunOutcome::Stuck => SpecOutcome::Stuck,
        }
    }
}

/// Executable twin of [`spec_skip_to_end`].
fn skip_to_end(events: &Vec<Event>, i: usize, depth: usize) -> (r: usize)
    requires
        i <= events@.len(),
        depth <= i,
    ensures
        r == spec_skip_to_end(events@, i as int, depth as int),
        i <= r <= events@.len(),
    decreases events@.len() - i,
{
    if i >= events.len() {
        events.len()
    } else {
        match events[i] {
            Event::Wasm { op: WasmOp::If } => skip_to_end(events, i + 1, depth + 1),
            Event::Wasm { op: WasmOp::Block } => skip_to_end(events, i + 1, depth + 1),
            Event::Wasm { op: WasmOp::Loop } => skip_to_end(events, i + 1, depth + 1),
            Event::Wasm { op: WasmOp::End } => if depth == 0 {
                i
            } else {
                skip_to_end(events, i + 1, depth - 1)
            },
            _ => skip_to_end(events, i + 1, depth),
        }
    }
}

/// Run the events from index `i` in state `st`: the executable twin of
/// [`spec_run`].
#[verifier::rlimit(100)]
pub fn run_events(events: &Vec<Event>, i: usize, st: MachineState) -> (r: RunOutcome)
    requires
        i <= events@.len(),
    ensures
        r@ == spec_run(events@, i as int, st@),
    decreases events@.len() - i,
{
    if i >= events.len() {
        return RunOutcome::Done(st);
    }
    let ghost st0 = st@;
    let mut st = st;
    match events[i] {
        Event::GetInternal { field_index } => {
            if field_index < st.cells.len() {
                let v = st.cells[field_index];
                st.stack.push(v);
                run_events(events, i + 1, st)
            } else {
                RunOutcome::Stuck
            }
        },
        Event::SetInternal { field_index } => {
            if field_index < st.cells.len() && st.stack.len() > 0 {
                let v = st.stack[st.stack.len() - 1];
                st.stack.pop();
                st.cells.set(field_index, v);
                assert(st@.stack =~= st0.stack.drop_last());
                run_events(events, i + 1, st)
            } else {
                RunOutcome::Stuck
            }
        },
        Event::Breakpoint => {
            if FIELD_RUNTIME_BREAKPOINT_VALUE < st.cells.len() {
                let reason = st.cells[FIELD_RUNTIME_BREAKPOINT_VALUE];
                RunOutcome::Halted(st, reason)
            } else {
                RunOutcome::Stuck
            }
        },
        Event::Wasm { op } => match op {
            WasmOp::I64Const { value } => {
                st.stack.push(value as u64);
                run_events(events, i + 1, st)
            },
            WasmOp::I64Add => {
                if st.stack.len() >= 2 {
                    let b = st.stack[st.stack.len() - 1];
                    let a = st.stack[st.stack.len() - 2];
                    st.stack.pop();
                    st.stack.pop();
                    st.stack.push(a.wrapping_add(b));
                    assert(st@.stack =~= st0.stack.drop_last().drop_last().push(
                        wrap_add64(st0.stack[st0.stack.len() - 2], st0.stack[st0.stack.len() - 1]),
                    ));
                    run_events(events, i + 1, st)
                } else {
                    RunOutcome::Stuck
                }
            },
            WasmOp::I64GeU => {
                if st.stack.len() >= 2 {
                    let b = st.stack[st.stack.len() - 1];
                    let a = st.stack[st.stack.len() - 2];
                    st.stack.pop();
                    st.stack.pop();
                    st.stack.push(if a >= b { 1 } else { 0 });
                    assert(st@.stack =~= st0.stack.drop_last().drop_last().push(
                        if st0.stack[st0.stack.len() - 2] >= st0.stack[st0.stack.len() - 1] {
                            1u64
                        } else {
                            0u64
                        },
                    ));
                    run_events(events, i + 1, st)
                } else {
                    RunOutcome::Stuck
                }
            },
            WasmOp::I64GtU => {
                if st.stack.len() >= 2 {
                    let b = st.stack[st.stack.len() - 1];
                    let a = st.stack[st.stack.len() - 2];
                    st.stack.pop();
                    st.stack.pop();
                    st.stack.push(if a > b { 1 } else { 0 });
                    assert(st@.stack =~= st0.stack.drop_last().drop_last().push(
                        if st0.stack[st0.stack.len() - 2] > st0.stack[st0.stack.len() - 1] {
                            1u64
                        } else {
                            0u64
                        },
                    ));
                    run_events(events, i + 1, st)
                } else {
                    RunOutcome::Stuck
                }
            },
            WasmOp::I64Ne => {
                if st.stack.len() >= 2 {
                    let b = st.stack[st.stack.len() - 1];
                    let a = st.stack[st.stack.len() - 2];
                    st.stack.pop();
                    st.stack.pop();
                    st.stack.push(if a != b { 1 } else { 0 });
                    assert(st@.stack =~= st0.stack.drop_last().drop_last().push(
                        if st0.stack[st0.stack.len() - 2] != st0.stack[st0.stack.len() - 1] {
                            1u64
                        } else {
                            0u64
                        },
                    ));
                    run_events(events, i + 1, st)
                } else {
                    RunOutcome::Stuck
                }
            },
            WasmOp::If => {
                if st.stack.len() > 0 {
                    let c = st.stack[st.stack.len() - 1];
                    st.stack.pop();
                    assert(st@.stack =~= st0.stack.drop_last());
                    if c != 0 {
                        run_events(events, i + 1, st)
                    } else {
                        let j = skip_to_end(events, i + 1, 0);
                        if j < events.len() {
                            run_events(events, j + 1, st)
                        } else {
                            RunOutcome::Done(st)
                        }
                    }
                } else {
                    RunOutcome::Stuck
                }
            },
            WasmOp::MemoryGrow { .. } => {
                if st.stack.len() > 0 {
                    let d = st.stack[st.stack.len() - 1];
                    st.stack.pop();
                    let p = st.pages;
                    st.stack.push(p);
                    st.pages = p.wrapping_add(d);
                    assert(st@.stack =~= st0.stack.drop_last().push(st0.pages));
                    run_events(events, i + 1, st)
                } else {
                    RunOutcome::Stuck
                }
            },
            _ => run_events(events, i + 1, st),
        },
        _ => run_events(events, i + 1, st),
    }
}

/// Two runs of the same events from the same state end the same way: the
/// machine is deterministic, so the sequence of `USED_POINTS` values
/// observed at trap points is fixed by the program, its inputs, and the cost
/// table alone.
pub proof fn lemma_run_deterministic(events: Seq<Event>, i: int, st1: MState, st2: MState)
    requires
        0 <= i <= events.len(),
        st1 == st2,
    ensures
        spec_run(events, i, st1) == spec_run(events, i, st2),
{
}

} // verus!
