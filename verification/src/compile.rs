//! What compiling a syntax tree into constraints yields: the model of the
//! compiler's constraint pass, and its laws.

use vstd::prelude::*;
use crate::lexer::Token;
use crate::syntax::{Kind, Tree};
use crate::constraint::{BlockView, Comparator, Constraint, Function};
use crate::text::{decimal, digit_char};
use crate::hasher::{hash_chars, lemma_hash_bound};
use vstd::utf8::is_ascii_chars;
use crate::syntax_build::{all_digits, digits_value, lemma_decimal_digits};

verus! {

/// The compiler's register counters: the next free input, memory and output register.
pub struct Regs {
    pub input: nat,
    pub memory: nat,
    pub output: nat,
}

/// No counter of `a` is above the matching counter of `b`.
pub open spec fn regs_le(a: Regs, b: Regs) -> bool {
    a.input <= b.input && a.memory <= b.memory && a.output <= b.output
}

/// Every counter fits in a `usize`.
pub open spec fn regs_fit(r: Regs) -> bool {
    r.input <= usize::MAX && r.memory <= usize::MAX && r.output <= usize::MAX
}

/// The first constraint of a sequence, if any.
pub open spec fn first(cs: Seq<Constraint>) -> Option<Constraint> {
    if cs.len() > 0 {
        Some(cs[0])
    } else {
        None
    }
}

/// A sequence without its first constraint (the empty sequence stays empty).
pub open spec fn rest(cs: Seq<Constraint>) -> Seq<Constraint> {
    if cs.len() > 0 {
        cs.subrange(1, cs.len() as int)
    } else {
        cs
    }
}

/// The table and column of a leading `Data` constraint; table 0, column 1 otherwise.
pub open spec fn target_of(cs: Seq<Constraint>) -> (u64, u64) {
    match first(cs) {
        Some(Constraint::Data { table, column }) => (table, column),
        _ => (0, 1),
    }
}

/// The table of a leading `Data` constraint; table 0 otherwise.
pub open spec fn table_of(cs: Seq<Constraint>) -> u64 {
    match first(cs) {
        Some(Constraint::Data { table, .. }) => table,
        _ => 0,
    }
}

/// The memory register of a leading `Data` constraint of table 0; register 0 otherwise.
pub open spec fn source_of(cs: Seq<Constraint>) -> u64 {
    match first(cs) {
        Some(Constraint::Data { table, column }) => if table == 0 {
            column
        } else {
            0
        },
        _ => 0,
    }
}

/// Chains the index masks of an assignment: each mask reads the register
/// that the previous one wrote, starting from `source`. Gives the masks and
/// the register the last one writes.
pub open spec fn mask_chain(cs: Seq<Constraint>, source: u64) -> (Seq<Constraint>, u64)
    decreases cs.len(),
{
    if cs.len() == 0 {
        (seq![], source)
    } else {
        let (pre, src) = mask_chain(cs.drop_last(), source);
        match cs.last() {
            Constraint::IndexMask { source: _, truth, memory } => (
                pre.push(Constraint::IndexMask { source: src, truth, memory }),
                memory,
            ),
            _ => (pre, src),
        }
    }
}

/// Each `Data` constraint becomes a `ChangeScan` through the next input
/// register; the rest are dropped. Gives the scans and the next free input register.
pub open spec fn watch(cs: Seq<Constraint>, input: nat) -> (Seq<Constraint>, nat)
    decreases cs.len(),
{
    if cs.len() == 0 {
        (seq![], input)
    } else {
        let (pre, i) = watch(cs.drop_last(), input);
        match cs.last() {
            Constraint::Data { table, column } => (
                pre.push(Constraint::ChangeScan { table, column, input: i as u64 }),
                i + 1,
            ),
            _ => (pre, i),
        }
    }
}

/// Within a row, each `Identifier` sets the column that the `Insert`s after
/// it write to (column 1 before the first one). Gives the constraints and the last column.
pub open spec fn assign_columns(cs: Seq<Constraint>) -> (Seq<Constraint>, u64)
    decreases cs.len(),
{
    if cs.len() == 0 {
        (seq![], 1)
    } else {
        let (pre, ix) = assign_columns(cs.drop_last());
        match cs.last() {
            Constraint::Identifier { id, memory } => (pre.push(cs.last()), id),
            Constraint::Insert { memory, table, column: _ } => (
                pre.push(Constraint::Insert { memory, table, column: ix }),
                ix,
            ),
            _ => (pre.push(cs.last()), ix),
        }
    }
}

/// Within a column, each `Data` constraint names the last memory register
/// (`memory - 1`); the rest stay. Undefined where there is no such register.
pub open spec fn name_columns(cs: Seq<Constraint>, memory: nat) -> Option<Seq<Constraint>>
    decreases cs.len(),
{
    if cs.len() == 0 {
        Some(seq![])
    } else {
        match name_columns(cs.drop_last(), memory) {
            None => None,
            Some(pre) => match cs.last() {
                Constraint::Data { table, column } => if memory == 0 {
                    None
                } else {
                    Some(pre.push(Constraint::Identifier { id: column, memory: (memory - 1) as u64 }))
                },
                _ => Some(pre.push(cs.last())),
            },
        }
    }
}

/// Within a table definition, `Insert`s go to the table `id`, and each
/// memory column (`Data` of table 0) is inserted into its first column,
/// taking an output register. Gives the constraints and the next free output register.
pub open spec fn assign_table(cs: Seq<Constraint>, id: u64, output: nat) -> (Seq<Constraint>, nat)
    decreases cs.len(),
{
    if cs.len() == 0 {
        (seq![], output)
    } else {
        let (pre, o) = assign_table(cs.drop_last(), id, output);
        match cs.last() {
            Constraint::Insert { memory, table: _, column } => (
                pre.push(Constraint::Insert { memory, table: id, column }),
                o,
            ),
            Constraint::Data { table, column } => if table == 0 {
                (pre.push(Constraint::Insert { memory: column, table: id, column: 1 }), o + 1)
            } else {
                (pre.push(cs.last()), o)
            },
            _ => (pre.push(cs.last()), o),
        }
    }
}

/// Within a new row, `Insert`s become `Append`s to the table `id`.
pub open spec fn append_rows(cs: Seq<Constraint>, id: u64) -> Seq<Constraint>
    decreases cs.len(),
{
    if cs.len() == 0 {
        seq![]
    } else {
        let pre = append_rows(cs.drop_last(), id);
        match cs.last() {
            Constraint::Insert { memory, table: _, column } => pre.push(
                Constraint::Append { memory, table: id, column },
            ),
            _ => pre.push(cs.last()),
        }
    }
}

/// Each `Data` constraint becomes a scan into the next input register and a
/// copy of it into the next memory register, led by `Data` of memory
/// register `target` where there is one; the rest stay.
pub open spec fn select(cs: Seq<Constraint>, r: Regs, target: Option<u64>) -> (Seq<Constraint>, Regs)
    decreases cs.len(),
{
    if cs.len() == 0 {
        (seq![], r)
    } else {
        let (pre, r1) = select(cs.drop_last(), r, target);
        match cs.last() {
            Constraint::Data { table, column } => {
                let scan = seq![
                    Constraint::Scan { table, column, input: r1.input as u64 },
                    Constraint::CopyInput { input: r1.input as u64, memory: r1.memory as u64 },
                ];
                let lead = match target {
                    Some(m) => seq![Constraint::Data { table: 0, column: m }],
                    None => seq![],
                };
                (
                    pre + lead + scan,
                    Regs { input: r1.input + 1, memory: r1.memory + 1, output: r1.output },
                )
            },
            _ => (pre.push(cs.last()), r1),
        }
    }
}

/// The memory register that holds the value a constraint computes; 0 for
/// constraints that compute none.
pub open spec fn result_register(c: Constraint) -> u64 {
    match c {
        Constraint::Function { memory, .. } => memory,
        Constraint::Constant { memory, .. } => memory,
        Constraint::CopyInput { memory, .. } => memory,
        _ => 0,
    }
}

/// The register that holds an operand of a filter: that of its first
/// constraint, or, after a scan, that of the copy that follows it.
/// Undefined for no constraints, or for a scan with nothing after it.
pub open spec fn operand(cs: Seq<Constraint>) -> Option<u64> {
    if cs.len() == 0 {
        None
    } else {
        match cs[0] {
            Constraint::Scan { .. } => if cs.len() < 2 {
                None
            } else {
                match cs[1] {
                    Constraint::CopyInput { memory, .. } => Some(memory),
                    _ => Some(0),
                }
            },
            _ => Some(result_register(cs[0])),
        }
    }
}

/// The comparator that a filter's middle node names.
pub open spec fn comparator_of(t: Tree) -> Comparator {
    match t {
        Tree::Token(Token::GreaterThan, _) => Comparator::GreaterThan,
        Tree::Token(Token::LessThan, _) => Comparator::LessThan,
        _ => Comparator::Equal,
    }
}

/// The operation that a function's name names; addition for other names.
pub open spec fn operation_of(name: Seq<char>) -> Function {
    if name == "+"@ {
        Function::Add
    } else if name == "-"@ {
        Function::Subtract
    } else if name == "*"@ {
        Function::Multiply
    } else if name == "/"@ {
        Function::Divide
    } else {
        Function::Add
    }
}

/// Within a bracket index, each identifier masks the next memory register.
/// Gives the constraints and the next free memory register.
pub open spec fn bracket_masks(data: Seq<Constraint>, cols: Seq<Tree>, memory: nat) -> (Seq<Constraint>, nat)
    decreases cols.len(),
{
    if cols.len() == 0 {
        (data, memory)
    } else {
        let (d, m) = bracket_masks(data, cols.drop_last(), memory);
        match cols.last() {
            Tree::Identifier(_, id) => (
                d.push(Constraint::IndexMask { source: 0, truth: id, memory: m as u64 }),
                m + 1,
            ),
            _ => (d, m),
        }
    }
}

/// Within a dot index, each identifier selects a column of `table`, and each
/// bracket index adds its masks. Gives the constraints and the next free memory register.
pub open spec fn index_columns(data: Seq<Constraint>, cols: Seq<Tree>, table: u64, memory: nat) -> (Seq<Constraint>, nat)
    decreases cols.len(),
{
    if cols.len() == 0 {
        (data, memory)
    } else {
        let (d, m) = index_columns(data, cols.drop_last(), table, memory);
        match cols.last() {
            Tree::Identifier(_, id) => (d.push(Constraint::Data { table, column: id }), m),
            Tree::BracketIndex(_, inner) => bracket_masks(d, inner, m),
            _ => (d, m),
        }
    }
}

/// The state of compiling the children of a data node: the constraints so
/// far, the column selections so far, the current table, and the counters.
pub struct DataState {
    pub constraints: Seq<Constraint>,
    pub data: Seq<Constraint>,
    pub table: u64,
    pub regs: Regs,
}

/// Compiling the first `k` children of a data node: a table sets the current
/// table, a dot index selects columns of it, and any other child compiles
/// all the children. Undefined where a compilation is.
pub open spec fn data_fold(st: DataState, ch: Seq<Tree>, k: nat) -> Option<DataState>
    decreases ch, k,
{
    if k == 0 || k > ch.len() {
        Some(st)
    } else {
        match data_fold(st, ch, (k - 1) as nat) {
            None => None,
            Some(s) => match ch[k - 1] {
                Tree::Table(_, id) => Some(DataState { table: id, ..s }),
                Tree::DotIndex(_, cols) => {
                    let (d, m) = index_columns(s.data, cols, s.table, s.regs.memory);
                    Some(DataState { data: d, regs: Regs { memory: m, ..s.regs }, ..s })
                },
                _ => match ccs(s.regs, ch) {
                    None => None,
                    Some((cs, r)) => Some(DataState { constraints: s.constraints + cs, regs: r, ..s }),
                },
            },
        }
    }
}

/// The result of a data node: its constraints, then its column selections in
/// reverse order (the first column of the table where there are none).
pub open spec fn data_result(st: Option<DataState>) -> Option<(Seq<Constraint>, Regs)> {
    match st {
        None => None,
        Some(s) => {
            let d = if s.data.len() == 0 {
                seq![Constraint::Data { table: s.table, column: 1 }]
            } else {
                s.data
            };
            Some((s.constraints + d.reverse(), s.regs))
        },
    }
}

/// Compiling a syntax tree into constraints, from the counters `r`: the
/// constraints and the counters after. Undefined where compiling fails
/// (a missing child, a missing operand, a register below zero).
pub open spec fn cc(r: Regs, t: Tree) -> Option<(Seq<Constraint>, Regs)>
    decreases t, 0nat,
{
    match t {
        Tree::Branch(k, ch) => match k {
            Kind::Constraint | Kind::Statement | Kind::Expression => ccs(r, ch),
            Kind::MathExpression => match ccs(r, ch) {
                None => None,
                Some((res, r2)) => Some(
                    (seq![Constraint::Data { table: 0, column: r.memory as u64 }] + res, r2),
                ),
            },
            Kind::SetData => if ch.len() < 2 {
                None
            } else {
                match cc(r, ch[0]) {
                    None => None,
                    Some((lhs, r1)) => match cc(r1, ch[1]) {
                        None => None,
                        Some((rhs, r2)) => {
                            let (table, column) = target_of(lhs);
                            let (masks, out) = mask_chain(rest(lhs), source_of(rhs));
                            Some(
                                (
                                    masks.push(Constraint::Insert { memory: out, table, column })
                                        + rest(rhs),
                                    Regs { output: r2.output + 1, ..r2 },
                                ),
                            )
                        },
                    },
                }
            },
            Kind::DataWatch => match ccs(r, ch) {
                None => None,
                Some((res, r2)) => {
                    let (scans, i) = watch(res, r2.input);
                    Some((scans, Regs { input: i, ..r2 }))
                },
            },
            Kind::RowDefine => match ccs(r, ch) {
                None => None,
                Some((res, r2)) => Some((assign_columns(res).0, r2)),
            },
            Kind::Column => match ccs(r, ch) {
                None => None,
                Some((res, r2)) => match name_columns(res, r2.memory) {
                    None => None,
                    Some(named) => Some((named, r2)),
                },
            },
            Kind::Binding => match ccs(Regs { output: r.output + 1, ..r }, ch) {
                None => None,
                Some((res, r2)) => Some(
                    (
                        seq![Constraint::Insert { memory: r.memory as u64, table: 0, column: 0 }]
                            + res,
                        r2,
                    ),
                ),
            },
            Kind::Data => data_result(
                data_fold(
                    DataState { constraints: seq![], data: seq![], table: 0, regs: r },
                    ch,
                    ch.len(),
                ),
            ),
            Kind::ColumnDefine => match ccs(r, ch) {
                None => None,
                Some((res, r2)) => {
                    let head = match first(res) {
                        Some(Constraint::Data { table, column }) => seq![
                            Constraint::Identifier { id: column, memory: r.memory as u64 },
                        ],
                        _ => seq![],
                    };
                    Some((head + rest(res), r2))
                },
            },
            Kind::TableDefine => match ccs(r, ch) {
                None => None,
                Some((res, r2)) => {
                    let id = table_of(res);
                    let (body, o) = assign_table(rest(res), id, r2.output);
                    Some(
                        (
                            body.push(
                                Constraint::NewTable {
                                    id,
                                    rows: 1,
                                    columns: (r2.memory - r.memory) as u64,
                                },
                            ),
                            Regs { output: o, ..r2 },
                        ),
                    )
                },
            },
            Kind::AddRow => match ccs(r, ch) {
                None => None,
                Some((res, r2)) => Some((append_rows(rest(res), table_of(res)), r2)),
            },
            Kind::FilterExpression => if ch.len() < 3 {
                None
            } else {
                match cc(Regs { memory: r.memory + 1, ..r }, ch[0]) {
                    None => None,
                    Some((lhs, r1)) => match cc(r1, ch[2]) {
                        None => None,
                        Some((rhs, r2)) => match (operand(lhs), operand(rhs)) {
                            (Some(a), Some(b)) => Some(
                                (
                                    seq![
                                        Constraint::Filter {
                                            comparator: comparator_of(ch[1]),
                                            lhs: a,
                                            rhs: b,
                                            memory: r.memory as u64,
                                        },
                                    ] + lhs + rhs,
                                    r2,
                                ),
                            ),
                            _ => None,
                        },
                    },
                }
            },
            Kind::SelectExpression => match ccs(r, ch) {
                None => None,
                Some((res, r2)) => Some(select(res, r2, Some(r.memory as u64))),
            },
            Kind::SelectData => match ccs(r, ch) {
                None => None,
                Some((res, r2)) => Some(select(res, r2, None)),
            },
            _ => Some((seq![], r)),
        },
        Tree::Function(name, ch) => match ccs(Regs { memory: r.memory + 1, ..r }, ch) {
            None => None,
            Some((res, r2)) => if res.len() >= 2 {
                Some(
                    (
                        res.push(
                            Constraint::Function {
                                operation: operation_of(name),
                                parameters: ((r.memory + 1) as u64, result_register(res.last())),
                                memory: r.memory as u64,
                            },
                        ),
                        r2,
                    ),
                )
            } else {
                Some((seq![], r2))
            },
        },
        Tree::Identifier(_, id) => Some((seq![Constraint::Data { table: 0, column: id }], r)),
        Tree::Table(_, id) => Some((seq![Constraint::Data { table: id, column: 1 }], r)),
        Tree::Constant(v) => Some(
            (
                seq![Constraint::Constant { value: v as i64, memory: r.memory as u64 }],
                Regs { memory: r.memory + 1, ..r },
            ),
        ),
        _ => Some((seq![], r)),
    }
}

/// Compiling a sequence of syntax trees one after the other, each from the
/// counters the one before left; the constraints are concatenated.
pub open spec fn ccs(r: Regs, s: Seq<Tree>) -> Option<(Seq<Constraint>, Regs)>
    decreases s, 0nat,
{
    if s.len() == 0 {
        Some((seq![], r))
    } else {
        match ccs(r, s.drop_last()) {
            None => None,
            Some((a, r1)) => match cc(r1, s.last()) {
                None => None,
                Some((b, r2)) => Some((a + b, r2)),
            },
        }
    }
}

/// Compiling succeeds and leaves every counter within a `usize`.
pub open spec fn compiles(r: Regs, t: Tree) -> bool {
    cc(r, t) matches Some((_, r2)) && regs_fit(r2)
}

/// Compiling the sequence succeeds and leaves every counter within a `usize`.
pub open spec fn compiles_all(r: Regs, s: Seq<Tree>) -> bool {
    ccs(r, s) matches Some((_, r2)) && regs_fit(r2)
}


// ## Laws

/// Watching only ever takes input registers.
pub proof fn lemma_watch_monotone(cs: Seq<Constraint>, input: nat)
    ensures
        watch(cs, input).1 >= input,
    decreases cs.len(),
{
    if cs.len() > 0 {
        lemma_watch_monotone(cs.drop_last(), input);
    }
}

/// Selecting only ever takes input and memory registers.
pub proof fn lemma_select_monotone(cs: Seq<Constraint>, r: Regs, target: Option<u64>)
    ensures
        regs_le(r, select(cs, r, target).1),
        select(cs, r, target).1.output == r.output,
    decreases cs.len(),
{
    if cs.len() > 0 {
        lemma_select_monotone(cs.drop_last(), r, target);
    }
}

/// Defining a table only ever takes output registers.
pub proof fn lemma_assign_table_monotone(cs: Seq<Constraint>, id: u64, output: nat)
    ensures
        assign_table(cs, id, output).1 >= output,
    decreases cs.len(),
{
    if cs.len() > 0 {
        lemma_assign_table_monotone(cs.drop_last(), id, output);
    }
}

/// Bracket masks only ever take memory registers.
pub proof fn lemma_bracket_masks_monotone(data: Seq<Constraint>, cols: Seq<Tree>, memory: nat)
    ensures
        bracket_masks(data, cols, memory).1 >= memory,
    decreases cols.len(),
{
    if cols.len() > 0 {
        lemma_bracket_masks_monotone(data, cols.drop_last(), memory);
    }
}

/// Dot indexes only ever take memory registers.
pub proof fn lemma_index_columns_monotone(data: Seq<Constraint>, cols: Seq<Tree>, table: u64, memory: nat)
    ensures
        index_columns(data, cols, table, memory).1 >= memory,
    decreases cols.len(),
{
    if cols.len() > 0 {
        lemma_index_columns_monotone(data, cols.drop_last(), table, memory);
        let (d, m) = index_columns(data, cols.drop_last(), table, memory);
        match cols.last() {
            Tree::BracketIndex(_, inner) => lemma_bracket_masks_monotone(d, inner, m),
            _ => {},
        }
    }
}

/// Compiling a syntax tree never lowers a register counter: registers handed
/// out stay handed out.
pub proof fn lemma_cc_monotone(r: Regs, t: Tree)
    ensures
        cc(r, t) matches Some((_, r2)) ==> regs_le(r, r2),
    decreases t, 0nat,
{
    match t {
        Tree::Branch(k, ch) => match k {
            Kind::SetData => {
                if ch.len() >= 2 {
                    lemma_cc_monotone(r, ch[0]);
                    if let Some((_, r1)) = cc(r, ch[0]) {
                        lemma_cc_monotone(r1, ch[1]);
                    }
                }
            },
            Kind::FilterExpression => {
                if ch.len() >= 3 {
                    let r0 = Regs { memory: r.memory + 1, ..r };
                    lemma_cc_monotone(r0, ch[0]);
                    if let Some((_, r1)) = cc(r0, ch[0]) {
                        lemma_cc_monotone(r1, ch[2]);
                    }
                }
            },
            Kind::Binding => {
                lemma_ccs_monotone(Regs { output: r.output + 1, ..r }, ch);
            },
            Kind::Data => {
                lemma_data_fold_monotone(
                    DataState { constraints: seq![], data: seq![], table: 0, regs: r },
                    ch,
                    ch.len(),
                );
            },
            _ => {
                lemma_ccs_monotone(r, ch);
                if let Some((res, r2)) = ccs(r, ch) {
                    lemma_post_monotone(k, r, res, r2);
                }
            },
        },
        Tree::Function(name, ch) => {
            lemma_ccs_monotone(Regs { memory: r.memory + 1, ..r }, ch);
        },
        _ => {},
    }
}

/// The passes that follow compiling the children only ever take registers.
proof fn lemma_post_monotone(k: Kind, r: Regs, res: Seq<Constraint>, r2: Regs)
    ensures
        watch(res, r2.input).1 >= r2.input,
        regs_le(r2, select(res, r2, Some(r.memory as u64)).1),
        regs_le(r2, select(res, r2, None).1),
        assign_table(rest(res), table_of(res), r2.output).1 >= r2.output,
{
    lemma_watch_monotone(res, r2.input);
    lemma_select_monotone(res, r2, Some(r.memory as u64));
    lemma_select_monotone(res, r2, None);
    lemma_assign_table_monotone(rest(res), table_of(res), r2.output);
}

/// Compiling a sequence of syntax trees never lowers a register counter.
pub proof fn lemma_ccs_monotone(r: Regs, s: Seq<Tree>)
    ensures
        ccs(r, s) matches Some((_, r2)) ==> regs_le(r, r2),
    decreases s, 0nat,
{
    if s.len() > 0 {
        lemma_ccs_monotone(r, s.drop_last());
        if let Some((_, r1)) = ccs(r, s.drop_last()) {
            lemma_cc_monotone(r1, s.last());
        }
    }
}

/// Compiling the children of a data node never lowers a register counter.
pub proof fn lemma_data_fold_monotone(st: DataState, ch: Seq<Tree>, k: nat)
    ensures
        data_fold(st, ch, k) matches Some(s2) ==> regs_le(st.regs, s2.regs),
    decreases ch, k,
{
    if k > 0 && k <= ch.len() {
        lemma_data_fold_monotone(st, ch, (k - 1) as nat);
        if let Some(s) = data_fold(st, ch, (k - 1) as nat) {
            match ch[k - 1] {
                Tree::Table(_, id) => {},
                Tree::DotIndex(_, cols) => {
                    lemma_index_columns_monotone(s.data, cols, s.table, s.regs.memory);
                },
                _ => {
                    lemma_ccs_monotone(s.regs, ch);
                },
            }
        }
    }
}

/// Where a sequence compiles, so does each of its prefixes, with counters no
/// higher than at the end.
pub proof fn lemma_ccs_prefix(r: Regs, s: Seq<Tree>, i: int)
    requires
        0 <= i <= s.len(),
        ccs(r, s) is Some,
    ensures
        ccs(r, s.take(i)) is Some,
        regs_le(ccs(r, s.take(i)).unwrap().1, ccs(r, s).unwrap().1),
    decreases s.len(),
{
    if i == s.len() {
        assert(s.take(i) =~= s);
    } else {
        let (a, r1) = ccs(r, s.drop_last()).unwrap();
        lemma_cc_monotone(r1, s.last());
        lemma_ccs_prefix(r, s.drop_last(), i);
        assert(s.drop_last().take(i) =~= s.take(i));
    }
}

/// Compiling one more tree of a sequence: the step from a prefix to the next.
pub proof fn lemma_ccs_step(r: Regs, s: Seq<Tree>, i: int)
    requires
        0 <= i < s.len(),
    ensures
        ccs(r, s.take(i + 1)) == (match ccs(r, s.take(i)) {
            None => None,
            Some((a, r1)) => match cc(r1, s[i]) {
                None => None,
                Some((b, r2)) => Some((a + b, r2)),
            },
        }),
{
    assert(s.take(i + 1).drop_last() =~= s.take(i));
    assert(s.take(i + 1).last() == s[i]);
}

/// Where the children of a data node compile, so does each prefix of them,
/// with counters no higher than at the end.
pub proof fn lemma_data_fold_prefix(st: DataState, ch: Seq<Tree>, j: nat, k: nat)
    requires
        j <= k <= ch.len(),
        data_fold(st, ch, k) is Some,
    ensures
        data_fold(st, ch, j) is Some,
        regs_le(data_fold(st, ch, j).unwrap().regs, data_fold(st, ch, k).unwrap().regs),
    decreases k,
{
    if j < k {
        lemma_data_fold_prefix(st, ch, j, (k - 1) as nat);
        let s = data_fold(st, ch, (k - 1) as nat).unwrap();
        match ch[k - 1] {
            Tree::Table(_, id) => {},
            Tree::DotIndex(_, cols) => {
                lemma_index_columns_monotone(s.data, cols, s.table, s.regs.memory);
            },
            _ => {
                lemma_ccs_monotone(s.regs, ch);
            },
        }
    }
}


/// Compiling two sequences one after the other is compiling their
/// concatenation: the constraints are concatenated, and the second starts
/// from the registers the first left.
pub proof fn lemma_ccs_append(r: Regs, a: Seq<Tree>, b: Seq<Tree>)
    ensures
        ccs(r, a + b) == (match ccs(r, a) {
            None => None,
            Some((ca, r1)) => match ccs(r1, b) {
                None => None,
                Some((cb, r2)) => Some((ca + cb, r2)),
            },
        }),
    decreases b.len(),
{
    if b.len() == 0 {
        assert(a + b =~= a);
        if let Some((ca, r1)) = ccs(r, a) {
            assert(ca + seq![] =~= ca);
        }
    } else {
        lemma_ccs_append(r, a, b.drop_last());
        assert((a + b).drop_last() =~= a + b.drop_last());
        assert((a + b).last() == b.last());
        if let Some((ca, r1)) = ccs(r, a) {
            if let Some((cb, r2)) = ccs(r1, b.drop_last()) {
                if let Some((cl, r3)) = cc(r2, b.last()) {
                    assert(ca + cb + cl =~= ca + (cb + cl));
                }
            }
        }
    }
}

/// A constraint, statement or expression node adds nothing: it compiles as
/// its children do. No trees give no constraints and leave the counters as
/// they are.
pub proof fn lemma_wrappers_add_nothing(r: Regs, k: Kind, ch: Seq<Tree>)
    requires
        k == Kind::Constraint || k == Kind::Statement || k == Kind::Expression,
    ensures
        cc(r, Tree::Branch(k, ch)) == ccs(r, ch),
        ccs(r, seq![]) == Some((Seq::<Constraint>::empty(), r)),
{
}

/// A block's constraints do not depend on the registers handed out before
/// it: every block is compiled from fresh registers.
pub proof fn lemma_block_fresh_registers(c1: Counters, c2: Counters, ch: Seq<Tree>)
    requires
        c1.section == c2.section,
        c1.block == c2.block,
    ensures
        new_block(c1, ch) matches Some((b1, d1)) ==> new_block(c2, ch) matches Some((b2, d2))
            && b1 == b2 && d1.regs == d2.regs && d1.block == d2.block,
{
}

/// After a section, the next block is the first block of the next section.
pub proof fn lemma_section_advances(c: Counters, ch: Seq<Tree>)
    ensures
        cb(c, Tree::Branch(Kind::Section, ch)) matches Some((_, c2)) ==> c2.block == 1
            && c2.section == cbs(c, ch).unwrap().1.section + 1,
{
}

// ## Prefixes of the passes

/// Watching a prefix takes no more input registers than watching the whole.
pub proof fn lemma_watch_prefix(cs: Seq<Constraint>, input: nat, i: int)
    requires
        0 <= i <= cs.len(),
    ensures
        watch(cs.take(i), input).1 <= watch(cs, input).1,
    decreases cs.len(),
{
    if i < cs.len() {
        lemma_watch_prefix(cs.drop_last(), input, i);
        assert(cs.drop_last().take(i) =~= cs.take(i));
    } else {
        assert(cs.take(i) =~= cs);
    }
}

/// Selecting from a prefix takes no more registers than selecting from the whole.
pub proof fn lemma_select_prefix(cs: Seq<Constraint>, r: Regs, target: Option<u64>, i: int)
    requires
        0 <= i <= cs.len(),
    ensures
        regs_le(select(cs.take(i), r, target).1, select(cs, r, target).1),
    decreases cs.len(),
{
    if i < cs.len() {
        lemma_select_prefix(cs.drop_last(), r, target, i);
        assert(cs.drop_last().take(i) =~= cs.take(i));
    } else {
        assert(cs.take(i) =~= cs);
    }
}

/// Defining a table from a prefix takes no more output registers than from the whole.
pub proof fn lemma_assign_table_prefix(cs: Seq<Constraint>, id: u64, output: nat, i: int)
    requires
        0 <= i <= cs.len(),
    ensures
        assign_table(cs.take(i), id, output).1 <= assign_table(cs, id, output).1,
    decreases cs.len(),
{
    if i < cs.len() {
        lemma_assign_table_prefix(cs.drop_last(), id, output, i);
        assert(cs.drop_last().take(i) =~= cs.take(i));
    } else {
        assert(cs.take(i) =~= cs);
    }
}

/// Masking from a prefix takes no more memory registers than from the whole.
pub proof fn lemma_bracket_masks_prefix(data: Seq<Constraint>, cols: Seq<Tree>, memory: nat, i: int)
    requires
        0 <= i <= cols.len(),
    ensures
        bracket_masks(data, cols.take(i), memory).1 <= bracket_masks(data, cols, memory).1,
    decreases cols.len(),
{
    if i < cols.len() {
        lemma_bracket_masks_prefix(data, cols.drop_last(), memory, i);
        assert(cols.drop_last().take(i) =~= cols.take(i));
    } else {
        assert(cols.take(i) =~= cols);
    }
}

/// Indexing from a prefix takes no more memory registers than from the whole.
pub proof fn lemma_index_columns_prefix(data: Seq<Constraint>, cols: Seq<Tree>, table: u64, memory: nat, i: int)
    requires
        0 <= i <= cols.len(),
    ensures
        index_columns(data, cols.take(i), table, memory).1 <= index_columns(data, cols, table, memory).1,
    decreases cols.len(),
{
    if i < cols.len() {
        lemma_index_columns_prefix(data, cols.drop_last(), table, memory, i);
        assert(cols.drop_last().take(i) =~= cols.take(i));
        let (d, m) = index_columns(data, cols.drop_last(), table, memory);
        match cols.last() {
            Tree::BracketIndex(_, inner) => lemma_bracket_masks_monotone(d, inner, m),
            _ => {},
        }
    } else {
        assert(cols.take(i) =~= cols);
    }
}

/// Where naming the columns of a sequence is defined, so it is for each prefix.
pub proof fn lemma_name_columns_prefix(cs: Seq<Constraint>, memory: nat, i: int)
    requires
        0 <= i <= cs.len(),
        name_columns(cs, memory) is Some,
    ensures
        name_columns(cs.take(i), memory) is Some,
    decreases cs.len(),
{
    if i < cs.len() {
        lemma_name_columns_prefix(cs.drop_last(), memory, i);
        assert(cs.drop_last().take(i) =~= cs.take(i));
    } else {
        assert(cs.take(i) =~= cs);
    }
}


// ## Blocks

/// The compiler's counters as blocks are compiled: the section and block
/// numbers, the register counters, and the blocks of the last root.
pub struct Counters {
    pub section: nat,
    pub block: nat,
    pub regs: Regs,
    pub blocks: Seq<BlockView>,
}

/// The name of a block: its section number and block number, in decimal,
/// joined by a comma.
pub open spec fn block_name(section: nat, block: nat) -> Seq<char> {
    decimal(section) + seq![','] + decimal(block)
}

/// Compiling a block or a fragment: a block named after the current section
/// and block, whose id is the hash of its name, holding the constraints of
/// its children compiled from fresh registers; the block number goes up by
/// one. Undefined where compiling fails or a counter passes `usize::MAX`.
pub open spec fn new_block(c: Counters, ch: Seq<Tree>) -> Option<(BlockView, Counters)> {
    if c.block + 1 > usize::MAX {
        None
    } else {
        let name = block_name(c.section, c.block);
        match ccs(Regs { input: 1, memory: 1, output: 1 }, ch) {
            None => None,
            Some((cs, r)) => if !regs_fit(r) {
                None
            } else {
                Some(
                    (
                        BlockView { id: (hash_chars(name) as u64) as usize, name, constraints: cs },
                        Counters { block: c.block + 1, regs: r, ..c },
                    ),
                )
            },
        }
    }
}

/// Compiling a syntax tree into blocks: the blocks it yields and the
/// counters after. A root's blocks are kept as the compiler's blocks rather
/// than yielded; a section ends by moving to the next section's first block.
pub open spec fn cb(c: Counters, t: Tree) -> Option<(Seq<BlockView>, Counters)>
    decreases t,
{
    match t {
        Tree::Branch(k, ch) => match k {
            Kind::Block | Kind::Fragment => match new_block(c, ch) {
                None => None,
                Some((b, c2)) => Some((seq![b], c2)),
            },
            Kind::Root => match cbs(c, ch) {
                None => None,
                Some((bs, c2)) => Some((seq![], Counters { blocks: bs, ..c2 })),
            },
            Kind::Program | Kind::Body => cbs(c, ch),
            Kind::Section => match cbs(c, ch) {
                None => None,
                Some((bs, c2)) => if c2.section + 1 > usize::MAX {
                    None
                } else {
                    Some((bs, Counters { section: c2.section + 1, block: 1, ..c2 }))
                },
            },
            _ => Some((seq![], c)),
        },
        _ => Some((seq![], c)),
    }
}

/// Compiling each syntax tree of a sequence into blocks in turn.
pub open spec fn cbs(c: Counters, s: Seq<Tree>) -> Option<(Seq<BlockView>, Counters)>
    decreases s,
{
    if s.len() == 0 {
        Some((seq![], c))
    } else {
        match cbs(c, s.drop_last()) {
            None => None,
            Some((a, c1)) => match cb(c1, s.last()) {
                None => None,
                Some((b, c2)) => Some((a + b, c2)),
            },
        }
    }
}

/// Where a sequence compiles into blocks, so does each prefix.
pub proof fn lemma_cbs_prefix(c: Counters, s: Seq<Tree>, i: int)
    requires
        0 <= i <= s.len(),
        cbs(c, s) is Some,
    ensures
        cbs(c, s.take(i)) is Some,
    decreases s.len(),
{
    if i == s.len() {
        assert(s.take(i) =~= s);
    } else {
        lemma_cbs_prefix(c, s.drop_last(), i);
        assert(s.drop_last().take(i) =~= s.take(i));
    }
}

/// Compiling one more tree into blocks: the step from a prefix to the next.
pub proof fn lemma_cbs_step(c: Counters, s: Seq<Tree>, i: int)
    requires
        0 <= i < s.len(),
    ensures
        cbs(c, s.take(i + 1)) == (match cbs(c, s.take(i)) {
            None => None,
            Some((a, c1)) => match cb(c1, s[i]) {
                None => None,
                Some((b, c2)) => Some((a + b, c2)),
            },
        }),
{
    assert(s.take(i + 1).drop_last() =~= s.take(i));
    assert(s.take(i + 1).last() == s[i]);
}

/// Compiling two sequences into blocks one after the other is compiling
/// their concatenation: the blocks are concatenated, and the second starts
/// from the counters the first left. No trees give no blocks and leave the
/// counters as they are.
pub proof fn lemma_cbs_append(c: Counters, a: Seq<Tree>, b: Seq<Tree>)
    ensures
        cbs(c, seq![]) == Some((Seq::<BlockView>::empty(), c)),
        cbs(c, a + b) == (match cbs(c, a) {
            None => None,
            Some((ba, c1)) => match cbs(c1, b) {
                None => None,
                Some((bb, c2)) => Some((ba + bb, c2)),
            },
        }),
    decreases b.len(),
{
    if b.len() == 0 {
        assert(a + b =~= a);
        if let Some((ba, c1)) = cbs(c, a) {
            assert(ba + seq![] =~= ba);
        }
    } else {
        lemma_cbs_append(c, a, b.drop_last());
        assert((a + b).drop_last() =~= a + b.drop_last());
        assert((a + b).last() == b.last());
        if let Some((ba, c1)) = cbs(c, a) {
            if let Some((bb, c2)) = cbs(c1, b.drop_last()) {
                if let Some((bl, c3)) = cb(c2, b.last()) {
                    assert(ba + bb + bl =~= ba + (bb + bl));
                }
            }
        }
    }
}

/// A block node and a fragment node over the same children compile alike.
pub proof fn lemma_fragment_is_block(c: Counters, ch: Seq<Tree>)
    ensures
        cb(c, Tree::Branch(Kind::Fragment, ch)) == cb(c, Tree::Branch(Kind::Block, ch)),
{
}

/// Ten to the power `k`.
pub open spec fn exp10(k: nat) -> nat
    decreases k,
{
    if k == 0 {
        1
    } else {
        10 * exp10((k - 1) as nat)
    }
}

/// A number below ten to the power `k` has at most `k` decimal digits.
pub proof fn lemma_decimal_len(n: nat, k: nat)
    requires
        k >= 1,
        n < exp10(k),
    ensures
        decimal(n).len() <= k,
    decreases k,
{
    if n >= 10 {
        let p = exp10((k - 1) as nat);
        assert(k >= 2) by {
            if k == 1 {
                assert(exp10(0) == 1);
            }
        }
        assert(n / 10 < p) by (nonlinear_arith)
            requires
                n < 10 * p,
                n >= 0,
        ;
        lemma_decimal_len(n / 10, (k - 1) as nat);
    }
}

/// Decimal numerals are ASCII.
pub proof fn lemma_decimal_ascii(n: nat)
    ensures
        is_ascii_chars(decimal(n)),
    decreases n,
{
    if n >= 10 {
        lemma_decimal_ascii(n / 10);
        let w = decimal(n / 10);
        let c = digit_char(n % 10);
        assert('\0' <= c <= '\u{7f}');
        assert forall|j: int| 0 <= j < w.push(c).len() implies '\0' <= #[trigger] w.push(c)[j]
            <= '\u{7f}' by {
            if j < w.len() {
                assert(w.push(c)[j] == w[j]);
            }
        }
    } else {
        assert('\0' <= digit_char(n) <= '\u{7f}');
    }
}

/// A block name is ASCII, and its hash fits in 64 bits.
pub proof fn lemma_block_name(section: nat, block: nat)
    requires
        section <= usize::MAX,
        block <= usize::MAX,
    ensures
        is_ascii_chars(block_name(section, block)),
        hash_chars(block_name(section, block)) <= u64::MAX,
{
    let name = block_name(section, block);
    reveal_with_fuel(exp10, 21);
    assert(exp10(20) == 100000000000000000000);
    lemma_decimal_len(section, 20);
    lemma_decimal_len(block, 20);
    lemma_decimal_ascii(section);
    lemma_decimal_ascii(block);
    let a = decimal(section) + seq![','];
    assert forall|j: int| 0 <= j < name.len() implies '\0' <= #[trigger] name[j] <= '\u{7f}' by {
        if j < decimal(section).len() {
            assert(name[j] == decimal(section)[j]);
        } else if j == decimal(section).len() {
            assert(name[j] == ',');
        } else {
            assert(name[j] == decimal(block)[j - decimal(section).len() - 1]);
        }
    }
    lemma_hash_bound(name);
    assert(name.len() <= 41);
    assert(2130706432 * name.len() <= 2130706432 * 41) by (nonlinear_arith)
        requires
            name.len() <= 41,
    ;
}


// ## Block names

/// Different section and block numbers give different block names.
pub proof fn lemma_block_name_injective(s1: nat, b1: nat, s2: nat, b2: nat)
    requires
        block_name(s1, b1) == block_name(s2, b2),
    ensures
        s1 == s2,
        b1 == b2,
{
    let d1 = decimal(s1);
    let d2 = decimal(s2);
    let e1 = decimal(b1);
    let e2 = decimal(b2);
    lemma_decimal_digits(s1);
    lemma_decimal_digits(s2);
    lemma_decimal_digits(b1);
    lemma_decimal_digits(b2);
    let n = block_name(s1, b1);
    let m = block_name(s2, b2);
    assert(n == m);
    let l1 = d1.len() as int;
    let l2 = d2.len() as int;
    if l1 < l2 {
        assert(n[l1] == ',');
        assert(m[l1] == d2[l1]);
        assert('0' <= d2[l1] <= '9');
        assert(false);
    }
    if l2 < l1 {
        assert(m[l2] == ',');
        assert(n[l2] == d1[l2]);
        assert('0' <= d1[l2] <= '9');
        assert(false);
    }
    assert(d1 =~= n.take(l1));
    assert(d2 =~= m.take(l1));
    assert(e1 =~= n.skip(l1 + 1));
    assert(e2 =~= m.skip(l1 + 1));
    assert(digits_value(d1) == digits_value(d2));
    assert(digits_value(e1) == digits_value(e2));
}

/// The place of the next block: its section and block numbers.
pub open spec fn place(c: Counters) -> (nat, nat) {
    (c.section, c.block)
}

/// Place `p` comes before place `q`: an earlier section, or an earlier block
/// of the same section.
pub open spec fn before(p: (nat, nat), q: (nat, nat)) -> bool {
    p.0 < q.0 || (p.0 == q.0 && p.1 < q.1)
}

/// Place `p` is `q` or comes before it.
pub open spec fn not_after(p: (nat, nat), q: (nat, nat)) -> bool {
    p == q || before(p, q)
}

/// The blocks are named after the places `ps`, which increase from one block
/// to the next, none before `lo` and each before `hi`.
pub open spec fn named_by(bs: Seq<BlockView>, ps: Seq<(nat, nat)>, lo: (nat, nat), hi: (nat, nat)) -> bool {
    &&& ps.len() == bs.len()
    &&& forall|i: int|
        0 <= i < bs.len() ==> #[trigger] bs[i].name == block_name(ps[i].0, ps[i].1) && not_after(
            lo,
            ps[i],
        ) && before(ps[i], hi)
    &&& forall|i: int, j: int| 0 <= i < j < bs.len() ==> before(#[trigger] ps[i], #[trigger] ps[j])
}

/// The blocks are named after increasing places, none before `lo` and each
/// before `hi`.
pub open spec fn named_in_order(bs: Seq<BlockView>, lo: (nat, nat), hi: (nat, nat)) -> bool {
    exists|ps: Seq<(nat, nat)>| named_by(bs, ps, lo, hi)
}

/// A wider range of places holds the same blocks.
proof fn lemma_named_widen(bs: Seq<BlockView>, lo: (nat, nat), hi: (nat, nat), lo2: (nat, nat), hi2: (nat, nat))
    requires
        named_in_order(bs, lo, hi),
        not_after(lo2, lo),
        not_after(hi, hi2),
    ensures
        named_in_order(bs, lo2, hi2),
{
    let ps = choose|ps: Seq<(nat, nat)>| named_by(bs, ps, lo, hi);
    assert forall|i: int| 0 <= i < bs.len() implies #[trigger] bs[i].name == block_name(ps[i].0, ps[i].1)
        && not_after(lo2, ps[i]) && before(ps[i], hi2) by {
        assert(bs[i].name == block_name(ps[i].0, ps[i].1));
    }
    assert(named_by(bs, ps, lo2, hi2));
}

/// Blocks before `mid` followed by blocks from `mid` on are in order.
proof fn lemma_named_concat(a: Seq<BlockView>, b: Seq<BlockView>, lo: (nat, nat), mid: (nat, nat), hi: (nat, nat))
    requires
        named_in_order(a, lo, mid),
        named_in_order(b, mid, hi),
        not_after(lo, mid),
        not_after(mid, hi),
    ensures
        named_in_order(a + b, lo, hi),
{
    let pa = choose|ps: Seq<(nat, nat)>| named_by(a, ps, lo, mid);
    let pb = choose|ps: Seq<(nat, nat)>| named_by(b, ps, mid, hi);
    let ps = pa + pb;
    let bs = a + b;
    let la = a.len() as int;
    assert forall|i: int| 0 <= i < bs.len() implies #[trigger] bs[i].name == block_name(ps[i].0, ps[i].1)
        && not_after(lo, ps[i]) && before(ps[i], hi) by {
        if i < la {
            assert(bs[i] == a[i] && ps[i] == pa[i]);
            assert(a[i].name == block_name(pa[i].0, pa[i].1));
        } else {
            assert(bs[i] == b[i - la] && ps[i] == pb[i - la]);
            assert(b[i - la].name == block_name(pb[i - la].0, pb[i - la].1));
        }
    }
    assert forall|i: int, j: int| 0 <= i < j < bs.len() implies before(#[trigger] ps[i], #[trigger] ps[j]) by {
        if j < la {
            assert(ps[i] == pa[i] && ps[j] == pa[j]);
            assert(before(pa[i], pa[j]));
        } else if i >= la {
            assert(ps[i] == pb[i - la] && ps[j] == pb[j - la]);
            assert(before(pb[i - la], pb[j - la]));
        } else {
            assert(ps[i] == pa[i] && ps[j] == pb[j - la]);
            assert(a[i].name == block_name(pa[i].0, pa[i].1));
            assert(b[j - la].name == block_name(pb[j - la].0, pb[j - la].1));
        }
    }
    assert(named_by(bs, ps, lo, hi));
}

/// No blocks are in order in any range.
proof fn lemma_named_empty(lo: (nat, nat), hi: (nat, nat))
    ensures
        named_in_order(Seq::<BlockView>::empty(), lo, hi),
{
    assert(named_by(Seq::<BlockView>::empty(), Seq::<(nat, nat)>::empty(), lo, hi));
}

/// Compiling a syntax tree into blocks moves the place of the next block
/// forward, names the blocks it yields after increasing places from the place
/// it started at up to the place it ended at, and, where a root replaced the
/// compiler's blocks, names those in the same way.
pub proof fn lemma_block_names_in_order(c: Counters, t: Tree)
    ensures
        cb(c, t) matches Some((bs, c2)) ==> not_after(place(c), place(c2)) && named_in_order(
            bs,
            place(c),
            place(c2),
        ) && (c2.blocks == c.blocks || named_in_order(c2.blocks, place(c), place(c2))),
    decreases t,
{
    if let Some((bs, c2)) = cb(c, t) {
        match t {
            Tree::Branch(k, ch) => match k {
                Kind::Block | Kind::Fragment => {
                    let ps = seq![place(c)];
                    assert(bs[0].name == block_name(c.section, c.block));
                    assert(named_by(bs, ps, place(c), place(c2)));
                },
                Kind::Root => {
                    lemma_block_names_in_order_all(c, ch);
                    lemma_named_empty(place(c), place(c2));
                },
                Kind::Program | Kind::Body => {
                    lemma_block_names_in_order_all(c, ch);
                },
                Kind::Section => {
                    lemma_block_names_in_order_all(c, ch);
                    let c1 = cbs(c, ch).unwrap().1;
                    lemma_named_widen(bs, place(c), place(c1), place(c), place(c2));
                    if c2.blocks != c.blocks {
                        lemma_named_widen(c2.blocks, place(c), place(c1), place(c), place(c2));
                    }
                },
                _ => {
                    lemma_named_empty(place(c), place(c2));
                },
            },
            _ => {
                lemma_named_empty(place(c), place(c2));
            },
        }
    }
}

/// Compiling a sequence of syntax trees into blocks: the blocks, and any
/// blocks a root stored, are named after increasing places between where it
/// started and where it ended.
pub proof fn lemma_block_names_in_order_all(c: Counters, s: Seq<Tree>)
    ensures
        cbs(c, s) matches Some((bs, c2)) ==> not_after(place(c), place(c2)) && named_in_order(
            bs,
            place(c),
            place(c2),
        ) && (c2.blocks == c.blocks || named_in_order(c2.blocks, place(c), place(c2))),
    decreases s,
{
    if let Some((bs, c2)) = cbs(c, s) {
        if s.len() == 0 {
            lemma_named_empty(place(c), place(c2));
        } else {
            lemma_block_names_in_order_all(c, s.drop_last());
            let (a, c1) = cbs(c, s.drop_last()).unwrap();
            lemma_block_names_in_order(c1, s.last());
            let (b, c3) = cb(c1, s.last()).unwrap();
            assert(c3 == c2 && a + b == bs);
            lemma_named_concat(a, b, place(c), place(c1), place(c2));
            if c2.blocks != c1.blocks {
                lemma_named_widen(c2.blocks, place(c1), place(c2), place(c), place(c2));
            } else if c1.blocks != c.blocks {
                lemma_named_widen(c1.blocks, place(c), place(c1), place(c), place(c2));
            }
        }
    }
}

/// Blocks named after increasing places have pairwise different names.
pub proof fn lemma_named_distinct(bs: Seq<BlockView>, lo: (nat, nat), hi: (nat, nat))
    requires
        named_in_order(bs, lo, hi),
    ensures
        forall|i: int, j: int| 0 <= i < j < bs.len() ==> #[trigger] bs[i].name != #[trigger] bs[j].name,
{
    let ps = choose|ps: Seq<(nat, nat)>| named_by(bs, ps, lo, hi);
    assert forall|i: int, j: int| 0 <= i < j < bs.len() implies #[trigger] bs[i].name
        != #[trigger] bs[j].name by {
        assert(before(ps[i], ps[j]));
        if bs[i].name == bs[j].name {
            lemma_block_name_injective(ps[i].0, ps[i].1, ps[j].0, ps[j].1);
        }
    }
}

/// Blocks named before a place and blocks named from that place on have
/// different names.
pub proof fn lemma_named_apart(a: Seq<BlockView>, b: Seq<BlockView>, lo: (nat, nat), mid: (nat, nat), hi: (nat, nat))
    requires
        named_in_order(a, lo, mid),
        named_in_order(b, mid, hi),
    ensures
        forall|i: int, j: int| 0 <= i < a.len() && 0 <= j < b.len() ==> #[trigger] a[i].name
            != #[trigger] b[j].name,
{
    let pa = choose|ps: Seq<(nat, nat)>| named_by(a, ps, lo, mid);
    let pb = choose|ps: Seq<(nat, nat)>| named_by(b, ps, mid, hi);
    assert forall|i: int, j: int| 0 <= i < a.len() && 0 <= j < b.len() implies #[trigger] a[i].name
        != #[trigger] b[j].name by {
        assert(a[i].name == block_name(pa[i].0, pa[i].1));
        assert(b[j].name == block_name(pb[j].0, pb[j].1));
        if a[i].name == b[j].name {
            lemma_block_name_injective(pa[i].0, pa[i].1, pb[j].0, pb[j].1);
        }
    }
}

/// Within one compilation, no two blocks share a name: neither the blocks a
/// tree yields, nor the blocks a root stores.
pub proof fn lemma_block_names_distinct(c: Counters, t: Tree)
    ensures
        cb(c, t) matches Some((bs, c2)) ==> (forall|i: int, j: int|
            0 <= i < j < bs.len() ==> #[trigger] bs[i].name != #[trigger] bs[j].name) && (
        c2.blocks != c.blocks ==> forall|i: int, j: int|
            0 <= i < j < c2.blocks.len() ==> #[trigger] c2.blocks[i].name
                != #[trigger] c2.blocks[j].name),
{
    lemma_block_names_in_order(c, t);
    if let Some((bs, c2)) = cb(c, t) {
        lemma_named_distinct(bs, place(c), place(c2));
        if c2.blocks != c.blocks {
            lemma_named_distinct(c2.blocks, place(c), place(c2));
        }
    }
}

/// A later compilation of a root, from where an earlier one left the
/// section and block numbers, names its blocks apart from the earlier
/// root's blocks.
pub proof fn lemma_later_compilation_names_differ(c: Counters, ch1: Seq<Tree>, d: Counters, ch2: Seq<Tree>)
    requires
        cb(c, Tree::Branch(Kind::Root, ch1)) is Some,
        place(d) == place(cb(c, Tree::Branch(Kind::Root, ch1)).unwrap().1),
    ensures
        cb(d, Tree::Branch(Kind::Root, ch2)) matches Some((_, d2)) ==> forall|i: int, j: int|
            0 <= i < cb(c, Tree::Branch(Kind::Root, ch1)).unwrap().1.blocks.len() && 0 <= j
                < d2.blocks.len() ==> #[trigger] cb(
                c,
                Tree::Branch(Kind::Root, ch1),
            ).unwrap().1.blocks[i].name != #[trigger] d2.blocks[j].name,
{
    let c2 = cb(c, Tree::Branch(Kind::Root, ch1)).unwrap().1;
    lemma_block_names_in_order_all(c, ch1);
    if let Some((_, d2)) = cb(d, Tree::Branch(Kind::Root, ch2)) {
        lemma_block_names_in_order_all(d, ch2);
        lemma_named_apart(c2.blocks, d2.blocks, place(c), place(d), place(d2));
    }
}


// ## What blocks, functions and tables hold

/// A block holds the constraints of all of its children, in order, compiled
/// from fresh registers (one of each kind): exactly what compiling the
/// children as a sequence gives, with the registers that leaves. It is named
/// after the place it was compiled at, and the next block follows it.
pub proof fn lemma_block_holds_its_children(c: Counters, ch: Seq<Tree>)
    ensures
        cb(c, Tree::Branch(Kind::Block, ch)) matches Some((bs, c2)) ==> bs.len() == 1 && ccs(
            Regs { input: 1, memory: 1, output: 1 },
            ch,
        ) == Some((bs[0].constraints, c2.regs)) && bs[0].name == block_name(c.section, c.block)
            && c2.section == c.section && c2.block == c.block + 1,
{
}

/// The constraints of a block over `a` then `b` are those of a block over `a`
/// followed by those of `b`, compiled from the registers `a` left.
pub proof fn lemma_block_of_concatenation(c: Counters, a: Seq<Tree>, b: Seq<Tree>)
    ensures
        cb(c, Tree::Branch(Kind::Block, a + b)) matches Some((bs, _)) ==> cb(
            c,
            Tree::Branch(Kind::Block, a),
        ) matches Some((ba, ca)) && ccs(ca.regs, b) matches Some((cs, _))
            && bs[0].constraints == ba[0].constraints + cs,
{
    let fresh = Regs { input: 1, memory: 1, output: 1 };
    lemma_ccs_append(fresh, a, b);
    if let Some((bs, _)) = cb(c, Tree::Branch(Kind::Block, a + b)) {
        let (ca_cs, ra) = ccs(fresh, a).unwrap();
        lemma_ccs_monotone(ra, b);
        lemma_ccs_monotone(fresh, a);
    }
}

/// The counters from which a function's arguments are compiled: the
/// function's own register is taken first.
pub open spec fn arguments_start(r: Regs) -> Regs {
    Regs { memory: r.memory + 1, ..r }
}

/// A function reads its last argument where that argument's value lands:
/// where the last argument is a constant or a function that yields
/// constraints, the function's own constraint comes last, writes the
/// function's register, applies the operation its name names, and takes as
/// its second parameter the memory register that was next free when the last
/// argument was compiled (after all the arguments before it).
pub proof fn lemma_function_reads_last_argument(r: Regs, name: Seq<char>, ch: Seq<Tree>)
    requires
        ch.len() >= 1,
        cc(r, Tree::Function(name, ch)) is Some,
        (ch.last() is Constant) || (ch.last() is Function),
        ccs(arguments_start(r), ch).unwrap().0.len() >= 2,
        cc(ccs(arguments_start(r), ch.drop_last()).unwrap().1, ch.last()).unwrap().0.len() > 0,
    ensures
        cc(r, Tree::Function(name, ch)).unwrap().0.len() > 0,
        cc(r, Tree::Function(name, ch)).unwrap().0.last() == (Constraint::Function {
            operation: operation_of(name),
            parameters: (
                (r.memory + 1) as u64,
                ccs(arguments_start(r), ch.drop_last()).unwrap().1.memory as u64,
            ),
            memory: r.memory as u64,
        }),
{
    let r0 = Regs { memory: r.memory + 1, ..r };
    if let Some((cs, _)) = cc(r, Tree::Function(name, ch)) {
        if let Some((a, r1)) = ccs(r0, ch.drop_last()) {
            if let Some((b, r2)) = cc(r1, ch.last()) {
                if b.len() > 0 && (ch.last() is Constant || ch.last() is Function) {
                    let (res, _) = ccs(r0, ch).unwrap();
                    assert(res == a + b);
                    assert(res.last() == b.last());
                    assert(res.len() >= 1);
                    match ch.last() {
                        Tree::Constant(v) => {
                            assert(b.last() == Constraint::Constant { value: v as i64, memory: r1.memory as u64 });
                        },
                        Tree::Function(n2, ch2) => {
                            let (res2, _) = ccs(Regs { memory: r1.memory + 1, ..r1 }, ch2).unwrap();
                            assert(res2.len() >= 2);
                            assert(b.last() is Function);
                        },
                        _ => {},
                    }
                }
            }
        }
    }
}

/// A table definition ends by creating its table with one row and as many
/// columns as memory registers its children took; the table is the one its
/// first child names.
pub proof fn lemma_new_table_shape(r: Regs, ch: Seq<Tree>)
    requires
        cc(r, Tree::Branch(Kind::TableDefine, ch)) is Some,
    ensures
        cc(r, Tree::Branch(Kind::TableDefine, ch)).unwrap().0.len() > 0,
        (cc(r, Tree::Branch(Kind::TableDefine, ch)).unwrap().0.last() matches Constraint::NewTable {
            id,
            rows,
            columns,
        } && rows == 1 && columns == (cc(r, Tree::Branch(Kind::TableDefine, ch)).unwrap().1.memory
            - r.memory) as u64 && (ch.len() > 0 && ch[0] is Table ==> id == ch[0]->Table_1)),
{
    if let Some((cs, r3)) = cc(r, Tree::Branch(Kind::TableDefine, ch)) {
        let (res, r2) = ccs(r, ch).unwrap();
        lemma_ccs_monotone(r, ch);
        if ch.len() > 0 {
            if let Tree::Table(_, t) = ch[0] {
                let a = ch.take(1);
                let b = ch.skip(1);
                assert(a + b =~= ch);
                lemma_ccs_append(r, a, b);
                assert(a.drop_last() =~= Seq::<Tree>::empty());
                assert(a.last() == ch[0]);
                let (ra, r1) = ccs(r, a).unwrap();
                assert(a.len() == 1);
                assert(ccs(r, a.drop_last()) == Some((Seq::<Constraint>::empty(), r)));
                assert(cc(r, a.last()) == Some((seq![Constraint::Data { table: t, column: 1 }], r)));
                assert(Seq::<Constraint>::empty() + seq![Constraint::Data { table: t, column: 1 }]
                    =~= seq![Constraint::Data { table: t, column: 1 }]);
                assert(ra == seq![Constraint::Data { table: t, column: 1 }]);
                let (rb, _) = ccs(r1, b).unwrap();
                assert(res == ra + rb);
                assert(res[0] == ra[0]);
            }
        }
    }
}

} // verus!
