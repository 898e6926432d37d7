//! Built-in opcode cost tables, selectable by name.
//!
//! A cost table assigns a non-negative number of points to every operator;
//! the host installs one table per process before any module is compiled.

use vstd::prelude::*;
use crate::event::WasmOp;

verus! {

/// The named cost policies offered by the host.
#[derive(Clone, Copy, PartialEq, Eq, Structural, Debug)]
pub enum CostsTable {
    /// Every operator costs one point.
    UniformOne,
    /// A loop header costs 12 points, everything else one.
    ExpensiveLoopElseOne,
    /// Branching operators cost 12 points, everything else one.
    ExpensiveBranchingElseOne,
    /// Every operator is free; the fallback for an unknown name.
    UniformZero,
}

/// Cost of `op` under `table`.
pub open spec fn spec_table_cost(table: CostsTable, op: WasmOp) -> u64 {
    match table {
        CostsTable::UniformOne => 1,
        CostsTable::ExpensiveLoopElseOne => if op is Loop {
            12
        } else {
            1
        },
        CostsTable::ExpensiveBranchingElseOne => match op {
            WasmOp::Loop => 12,
            WasmOp::Br { .. } => 12,
            WasmOp::BrTable { .. } => 12,
            WasmOp::BrIf { .. } => 12,
            WasmOp::Call { .. } => 12,
            WasmOp::CallIndirect { .. } => 12,
            WasmOp::Return => 12,
            _ => 1,
        },
        CostsTable::UniformZero => 0,
    }
}

/// The table that a given name selects; an unknown name selects the free
/// table.
pub open spec fn spec_costs_table_for(name: Seq<char>) -> CostsTable {
    if name == "uniform_one"@ {
        CostsTable::UniformOne
    } else if name == "expensive_loop_else_one"@ {
        CostsTable::ExpensiveLoopElseOne
    } else if name == "expensive_branching_else_one"@ {
        CostsTable::ExpensiveBranchingElseOne
    } else {
        CostsTable::UniformZero
    }
}

/// Select a cost table by name; an unknown name yields the free table.
pub fn get_costs_table(table_name: &str) -> (r: CostsTable)
    ensures
        r == spec_costs_table_for(table_name@),
{
    let name = table_name.to_owned();
    if name == "uniform_one".to_owned() {
        CostsTable::UniformOne
    } else if name == "expensive_loop_else_one".to_owned() {
        CostsTable::ExpensiveLoopElseOne
    } else if name == "expensive_branching_else_one".to_owned() {
        CostsTable::ExpensiveBranchingElseOne
    } else {
        CostsTable::UniformZero
    }
}

/// Every operator costs one point.
pub fn uniform_one(op: &WasmOp) -> (r: u64)
    ensures
        r == spec_table_cost(CostsTable::UniformOne, *op),
{
    let _ = op;
    1
}

/// Every operator is free.
pub fn uniform_zero(op: &WasmOp) -> (r: u64)
    ensures
        r == spec_table_cost(CostsTable::UniformZero, *op),
{
    let _ = op;
    0
}

/// A loop header costs 12 points, everything else one.
pub fn expensive_loop_else_one(op: &WasmOp) -> (r: u64)
    ensures
        r == spec_table_cost(CostsTable::ExpensiveLoopElseOne, *op),
{
    match op {
        WasmOp::Loop => 12,
        _ => 1,
    }
}

/// Branching operators cost 12 points, everything else one.
pub fn expensive_branching_else_one(op: &WasmOp) -> (r: u64)
    ensures
        r == spec_table_cost(CostsTable::ExpensiveBranchingElseOne, *op),
{
    match op {
        WasmOp::Loop => 12,
        WasmOp::Br { .. } => 12,
        WasmOp::BrTable { .. } => 12,
        WasmOp::BrIf { .. } => 12,
        WasmOp::Call { .. } => 12,
        WasmOp::CallIndirect { .. } => 12,
        WasmOp::Return => 12,
        _ => 1,
    }
}

/// Cost of `op` under `table`, as executable code.
pub fn table_cost(table: CostsTable, op: &WasmOp) -> (r: u64)
    ensures
        r == spec_table_cost(table, *op),
{
    match table {
        CostsTable::UniformOne => uniform_one(op),
        CostsTable::ExpensiveLoopElseOne => expensive_loop_else_one(op),
        CostsTable::ExpensiveBranchingElseOne => expensive_branching_else_one(op),
        CostsTable::UniformZero => uniform_zero(op),
    }
}

} // verus!
