use wasm_sandbox::event::{Event, EventSink, WasmOp};
use wasm_sandbox::fields::FIELD_MEMORY_GROW_COUNT;
use wasm_sandbox::machine::{run_events, MachineState, RunOutcome};
use wasm_sandbox::opcode_control::OpcodeControl;
use wasm_sandbox::runtime_breakpoints::BREAKPOINT_VALUE_MEMORY_LIMIT;

/// The growth guard plus the guarded operator, as the middleware emits them.
fn guarded_grow(max_memory_grow: usize, max_memory_grow_delta: usize) -> Vec<Event> {
    let mut control = OpcodeControl::new(max_memory_grow, max_memory_grow_delta);
    let mut sink = EventSink::new();
    control
        .feed_event(
            Event::Wasm {
                op: WasmOp::MemoryGrow { reserved: 0 },
            },
            &mut sink,
        )
        .unwrap();
    sink.events
}

/// Run a single guarded grow requesting `delta` pages.
fn run_grow(max_grow: usize, max_delta: usize, delta: u64, prior_count: u64) -> RunOutcome {
    let events = guarded_grow(max_grow, max_delta);
    let mut state = MachineState::new(1);
    state.set_cell(FIELD_MEMORY_GROW_COUNT, prior_count);
    state.push_operand(delta);
    run_events(&events, 0, state)
}

#[test]
fn grow_with_zero_budget_trips_memory_limit() {
    // max_memory_grow = 0: the very first memory.grow trips MEMORY_LIMIT.
    match run_grow(0, 100, 1, 0) {
        RunOutcome::Halted(_, reason) => assert_eq!(reason, BREAKPOINT_VALUE_MEMORY_LIMIT),
        _ => panic!("expected MEMORY_LIMIT"),
    }
}

#[test]
fn oversized_delta_trips_and_allowed_delta_proceeds() {
    // max_memory_grow = 10, max_memory_grow_delta = 5: a grow of 6 trips
    // MEMORY_LIMIT; a grow of 5 succeeds with the counter at one.
    match run_grow(10, 5, 6, 0) {
        RunOutcome::Halted(_, reason) => assert_eq!(reason, BREAKPOINT_VALUE_MEMORY_LIMIT),
        _ => panic!("expected MEMORY_LIMIT for a delta of 6"),
    }
    match run_grow(10, 5, 5, 0) {
        RunOutcome::Done(state) => {
            assert_eq!(state.cell(FIELD_MEMORY_GROW_COUNT), 1);
            assert_eq!(state.pages, 6);
        }
        _ => panic!("expected the grow of 5 to proceed"),
    }
}

#[test]
fn exhausted_budget_trips_memory_limit() {
    match run_grow(3, 100, 1, 3) {
        RunOutcome::Halted(state, reason) => {
            assert_eq!(reason, BREAKPOINT_VALUE_MEMORY_LIMIT);
            // The count check trips before the counter is incremented.
            assert_eq!(state.cell(FIELD_MEMORY_GROW_COUNT), 3);
        }
        _ => panic!("expected MEMORY_LIMIT"),
    }
}

#[test]
fn nonzero_memory_index_fails_compilation() {
    let mut control = OpcodeControl::new(10, 10);
    let mut sink = EventSink::new();
    let result = control.feed_event(
        Event::Wasm {
            op: WasmOp::MemoryGrow { reserved: 1 },
        },
        &mut sink,
    );
    assert_eq!(result, Err("MemoryGrow must have memory index 0".to_string()));
    assert!(sink.events.is_empty());
}

#[test]
fn other_operators_pass_through_unchanged() {
    let mut control = OpcodeControl::new(10, 10);
    let mut sink = EventSink::new();
    control
        .feed_event(Event::Wasm { op: WasmOp::I64Add }, &mut sink)
        .unwrap();
    assert_eq!(sink.events, vec![Event::Wasm { op: WasmOp::I64Add }]);
}
