use wasm_sandbox::costs::{get_costs_table, table_cost, CostsTable};
use wasm_sandbox::event::{Event, EventSink, WasmOp, COST_TABLE_LEN};
use wasm_sandbox::fields::{
    FIELD_POINTS_LIMIT, FIELD_RUNTIME_BREAKPOINT_VALUE, FIELD_USED_POINTS,
};
use wasm_sandbox::machine::{run_events, MachineState, RunOutcome};
use wasm_sandbox::metering::{Metering, OpcodeCostTable};
use wasm_sandbox::opcode_trace::OpcodeTracer;
use wasm_sandbox::runtime_breakpoints::{
    RuntimeBreakpointHandler, BREAKPOINT_VALUE_NO_BREAKPOINT, BREAKPOINT_VALUE_OUT_OF_GAS,
};

fn uniform_cost_table(cost: u32) -> OpcodeCostTable {
    OpcodeCostTable::new(vec![cost; COST_TABLE_LEN]).unwrap()
}

/// Run the full two-middleware chain over a guest event stream.
fn instrument(events: Vec<Event>, costs: OpcodeCostTable) -> Vec<Event> {
    let mut metering = Metering::new(costs, 0);
    let mut handler = RuntimeBreakpointHandler::new();
    let mut out = EventSink::new();
    for event in events {
        let mut staged = EventSink::new();
        metering.feed_event(event, &mut staged).unwrap();
        for staged_event in staged.events {
            handler.feed_event(staged_event, &mut out).unwrap();
        }
    }
    out.events
}

fn loop_body_guest() -> Vec<Event> {
    vec![
        Event::FunctionBegin {
            local_function_index: 0,
        },
        Event::Wasm { op: WasmOp::Loop },
        Event::Wasm {
            op: WasmOp::Br { relative_depth: 0 },
        },
        Event::Wasm { op: WasmOp::End },
        Event::FunctionEnd,
    ]
}

#[test]
fn looping_guest_runs_out_of_gas() {
    // A guest of the shape (func (loop br 0)) with every opcode costing one
    // point and a limit of 1000: iterating must end with OUT_OF_GAS and at
    // least 1000 points used.
    let instrumented = instrument(loop_body_guest(), uniform_cost_table(1));
    let mut state = MachineState::new(1);
    state.set_cell(FIELD_POINTS_LIMIT, 1000);
    let mut iterations = 0u64;
    loop {
        match run_events(&instrumented, 0, state) {
            RunOutcome::Done(next) => {
                let used_before = next.cell(FIELD_USED_POINTS);
                state = next;
                assert!(used_before < 1000 + 3);
                iterations += 1;
                assert!(iterations < 10_000, "metering never tripped");
            }
            RunOutcome::Halted(at, reason) => {
                assert_eq!(reason, BREAKPOINT_VALUE_OUT_OF_GAS);
                assert!(at.cell(FIELD_USED_POINTS) >= 1000);
                break;
            }
            RunOutcome::Stuck => panic!("instrumented code got stuck"),
        }
    }
}

#[test]
fn zero_limit_trips_at_once_with_zero_used() {
    // A zero cost table and a zero limit: the first checkpoint trips
    // immediately with USED_POINTS still zero.
    let guest = vec![
        Event::FunctionBegin {
            local_function_index: 0,
        },
        Event::Wasm {
            op: WasmOp::Call { function_index: 7 },
        },
    ];
    let instrumented = instrument(guest, uniform_cost_table(0));
    let state = MachineState::new(1);
    match run_events(&instrumented, 0, state) {
        RunOutcome::Halted(at, reason) => {
            assert_eq!(reason, BREAKPOINT_VALUE_OUT_OF_GAS);
            assert_eq!(at.cell(FIELD_USED_POINTS), 0);
        }
        _ => panic!("expected an immediate OUT_OF_GAS"),
    }
}

#[test]
fn used_points_are_deterministic_across_runs() {
    // Two runs of the same instrumented program from the same state observe
    // the same used-points trace.
    let instrumented = instrument(loop_body_guest(), uniform_cost_table(2));
    let mut first = MachineState::new(1);
    first.set_cell(FIELD_POINTS_LIMIT, 50);
    let mut second = MachineState::new(1);
    second.set_cell(FIELD_POINTS_LIMIT, 50);
    let mut trace_first = Vec::new();
    let mut trace_second = Vec::new();
    for _ in 0..20 {
        match run_events(&instrumented, 0, first) {
            RunOutcome::Done(next) => {
                trace_first.push(next.cell(FIELD_USED_POINTS));
                first = next;
            }
            RunOutcome::Halted(at, _) => {
                trace_first.push(at.cell(FIELD_USED_POINTS));
                break;
            }
            RunOutcome::Stuck => panic!("stuck"),
        }
    }
    for _ in 0..20 {
        match run_events(&instrumented, 0, second) {
            RunOutcome::Done(next) => {
                trace_second.push(next.cell(FIELD_USED_POINTS));
                second = next;
            }
            RunOutcome::Halted(at, _) => {
                trace_second.push(at.cell(FIELD_USED_POINTS));
                break;
            }
            RunOutcome::Stuck => panic!("stuck"),
        }
    }
    assert_eq!(trace_first, trace_second);
}

#[test]
fn used_points_never_decrease() {
    let instrumented = instrument(loop_body_guest(), uniform_cost_table(3));
    let mut state = MachineState::new(1);
    state.set_cell(FIELD_POINTS_LIMIT, 200);
    let mut last = 0u64;
    loop {
        match run_events(&instrumented, 0, state) {
            RunOutcome::Done(next) => {
                let used = next.cell(FIELD_USED_POINTS);
                assert!(used >= last);
                last = used;
                state = next;
            }
            RunOutcome::Halted(at, _) => {
                assert!(at.cell(FIELD_USED_POINTS) >= last);
                break;
            }
            RunOutcome::Stuck => panic!("stuck"),
        }
    }
}

#[test]
fn call_check_surfaces_host_set_breakpoint() {
    // A host-set breakpoint value is caught by the check injected after a
    // call, and the reason read at the halt is the host's value.
    let guest = vec![Event::Wasm {
        op: WasmOp::Call { function_index: 0 },
    }];
    let instrumented = instrument(guest, uniform_cost_table(0));
    let mut state = MachineState::new(1);
    state.set_cell(FIELD_POINTS_LIMIT, 1_000_000);
    state.set_cell(FIELD_RUNTIME_BREAKPOINT_VALUE, 77);
    match run_events(&instrumented, 0, state) {
        RunOutcome::Halted(_, reason) => assert_eq!(reason, 77),
        _ => panic!("expected the call check to halt"),
    }
    // With no pending value the same program runs through.
    let guest = vec![Event::Wasm {
        op: WasmOp::Call { function_index: 0 },
    }];
    let instrumented = instrument(guest, uniform_cost_table(0));
    let mut state = MachineState::new(1);
    state.set_cell(FIELD_POINTS_LIMIT, 1_000_000);
    state.set_cell(FIELD_RUNTIME_BREAKPOINT_VALUE, BREAKPOINT_VALUE_NO_BREAKPOINT);
    match run_events(&instrumented, 0, state) {
        RunOutcome::Done(_) => {}
        _ => panic!("expected the program to complete"),
    }
}

#[test]
fn cost_tables_are_selected_by_name() {
    assert_eq!(get_costs_table("uniform_one"), CostsTable::UniformOne);
    assert_eq!(
        get_costs_table("expensive_loop_else_one"),
        CostsTable::ExpensiveLoopElseOne
    );
    assert_eq!(
        get_costs_table("expensive_branching_else_one"),
        CostsTable::ExpensiveBranchingElseOne
    );
    assert_eq!(get_costs_table("anything else"), CostsTable::UniformZero);
}

#[test]
fn cost_table_values_match_their_policy() {
    let looping = WasmOp::Loop;
    let branch = WasmOp::BrIf { relative_depth: 2 };
    let plain = WasmOp::I64Add;
    assert_eq!(table_cost(CostsTable::UniformOne, &plain), 1);
    assert_eq!(table_cost(CostsTable::UniformZero, &plain), 0);
    assert_eq!(table_cost(CostsTable::ExpensiveLoopElseOne, &looping), 12);
    assert_eq!(table_cost(CostsTable::ExpensiveLoopElseOne, &branch), 1);
    assert_eq!(table_cost(CostsTable::ExpensiveBranchingElseOne, &branch), 12);
    assert_eq!(table_cost(CostsTable::ExpensiveBranchingElseOne, &plain), 1);
    assert_eq!(
        table_cost(CostsTable::ExpensiveBranchingElseOne, &WasmOp::Return),
        12
    );
}

#[test]
fn cost_table_must_cover_the_index_space() {
    assert!(OpcodeCostTable::new(vec![0; COST_TABLE_LEN]).is_ok());
    assert!(OpcodeCostTable::new(vec![0; COST_TABLE_LEN - 1]).is_err());
}

#[test]
fn locals_beyond_the_allowance_are_charged() {
    let mut costs = vec![0u32; COST_TABLE_LEN];
    costs[COST_TABLE_LEN - 1] = 5;
    let table = OpcodeCostTable::new(costs).unwrap();
    let mut metering = Metering::new(table, 2);
    metering.feed_local(6).unwrap();
    assert_eq!(metering.func_locals_costs, 20);
    metering.feed_local(2).unwrap();
    assert_eq!(metering.func_locals_costs, 20);
}

#[test]
fn the_machine_executes_arithmetic_and_branches() {
    let events = vec![
        Event::Wasm {
            op: WasmOp::I64Const { value: 40 },
        },
        Event::Wasm {
            op: WasmOp::I64Const { value: 2 },
        },
        Event::Wasm { op: WasmOp::I64Add },
        Event::SetInternal { field_index: FIELD_USED_POINTS },
    ];
    match run_events(&events, 0, MachineState::new(0)) {
        RunOutcome::Done(state) => assert_eq!(state.cell(FIELD_USED_POINTS), 42),
        _ => panic!("expected the program to complete"),
    }
    // A false condition skips to the matching end; breakpoints inside the
    // skipped region never fire.
    let events = vec![
        Event::Wasm {
            op: WasmOp::I64Const { value: 0 },
        },
        Event::Wasm { op: WasmOp::If },
        Event::Breakpoint,
        Event::Wasm { op: WasmOp::End },
    ];
    match run_events(&events, 0, MachineState::new(0)) {
        RunOutcome::Done(_) => {}
        _ => panic!("expected the skipped branch not to halt"),
    }
}

#[test]
fn tracer_records_functions_and_ordinals() {
    let mut tracer = OpcodeTracer::new();
    assert!(tracer
        .trace_operator(&Event::FunctionBegin {
            local_function_index: 3
        })
        .is_none());
    let first = tracer
        .trace_operator(&Event::Wasm { op: WasmOp::Loop })
        .unwrap();
    assert_eq!(first.local_function_index, 3);
    assert_eq!(first.operator_index, 0);
    let second = tracer
        .trace_operator(&Event::Wasm { op: WasmOp::End })
        .unwrap();
    assert_eq!(second.operator_index, 1);
    assert!(tracer.trace_operator(&Event::FunctionEnd).is_none());
}
