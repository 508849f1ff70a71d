//! Dataflow constraints and the blocks that group them.

use vstd::prelude::*;

verus! {

/// An arithmetic operation of a function constraint.
#[derive(Clone, Copy, Debug, PartialEq, Eq, Structural)]
pub enum Function {
    Add,
    Subtract,
    Multiply,
    Divide,
}

/// The comparison of a filter constraint.
#[derive(Clone, Copy, Debug, PartialEq, Eq, Structural)]
pub enum Comparator {
    LessThan,
    GreaterThan,
    Equal,
}

/// One constraint of a block. Tables and columns are named by their ids;
/// `input` and `memory` name registers of the block.
#[derive(Clone, Copy, Debug, PartialEq, Eq)]
pub enum Constraint {
    /// The column `column` of the table `table`; table 0 stands for the
    /// block's memory, whose columns are its memory registers.
    Data { table: u64, column: u64 },
    /// Selects the rows of memory register `source` where register `truth` holds, into `memory`.
    IndexMask { source: u64, truth: u64, memory: u64 },
    /// Writes memory register `memory` into a column of a table.
    Insert { memory: u64, table: u64, column: u64 },
    /// Appends memory register `memory` to a column of a table.
    Append { memory: u64, table: u64, column: u64 },
    /// Watches a column of a table for changes, through input register `input`.
    ChangeScan { table: u64, column: u64, input: u64 },
    /// Reads a column of a table into input register `input`.
    Scan { table: u64, column: u64, input: u64 },
    /// Copies input register `input` into memory register `memory`.
    CopyInput { input: u64, memory: u64 },
    /// Names memory register `memory` with the identifier `id`.
    Identifier { id: u64, memory: u64 },
    /// Creates the table `id` with the given numbers of rows and columns.
    NewTable { id: u64, rows: u64, columns: u64 },
    /// Compares two memory registers into a third.
    Filter { comparator: Comparator, lhs: u64, rhs: u64, memory: u64 },
    /// Applies an operation to two memory registers, into a third.
    Function { operation: Function, parameters: (u64, u64), memory: u64 },
    /// Puts a constant into a memory register.
    Constant { value: i64, memory: u64 },
}

/// A compiled block: its name, the id that the name hashes to, and its constraints.
#[derive(Debug)]
pub struct Block {
    pub id: usize,
    pub name: String,
    pub constraints: Vec<Constraint>,
}

/// The mathematical model of a block.
pub struct BlockView {
    pub id: usize,
    pub name: Seq<char>,
    pub constraints: Seq<Constraint>,
}

impl View for Block {
    type V = BlockView;

    open spec fn view(&self) -> BlockView {
        BlockView { id: self.id, name: self.name@, constraints: self.constraints@ }
    }
}

/// The models of a sequence of blocks.
pub open spec fn block_views(s: Seq<Block>) -> Seq<BlockView> {
    s.map_values(|b: Block| b@)
}

} // verus!
