//! The compiler: from parse trees to syntax trees, and from syntax trees to
//! blocks of constraints.

use vstd::prelude::*;
use vstd::string::*;
use crate::lexer::Token;
use crate::parser;
use crate::syntax::{Kind, Node, Tree, tree, trees};
use crate::constraint::{Block, BlockView, Comparator, Constraint, Function, block_views};
use crate::syntax_build::{
    Built, build, build_all, shape_of, single, none, take_front_parse, take_front, lemma_build_all_step,
    lemma_build_all_prefix, lemma_trees_add,
};
use crate::text::{decimal_string, push_char, push_decimal};
use crate::hasher::{Hasher, lemma_hash_ascii};
use crate::compile::{
    Regs, DataState, cc, ccs, compiles, compiles_all, regs_fit, data_fold, first, rest,
    target_of, source_of, mask_chain, watch, assign_columns, name_columns, assign_table,
    append_rows, select, result_register, operand, comparator_of, operation_of, bracket_masks,
    index_columns, lemma_cc_monotone, lemma_ccs_monotone, lemma_ccs_prefix, lemma_ccs_step,
    lemma_data_fold_prefix, lemma_watch_prefix, lemma_watch_monotone, lemma_select_monotone,
    lemma_assign_table_monotone, lemma_select_prefix, lemma_assign_table_prefix,
    lemma_bracket_masks_prefix, lemma_index_columns_prefix, lemma_name_columns_prefix, Counters,
    block_name, new_block, cb, cbs, lemma_cbs_prefix, lemma_cbs_step, lemma_block_name,
};

verus! {

/// The compiler's state.
#[derive(Debug)]
pub struct Compiler {
    pub blocks: Vec<Block>,
    pub constraints: Vec<Constraint>,
    pub depth: usize,
    pub input_registers: usize,
    pub memory_registers: usize,
    pub output_registers: usize,
    pub parse_tree: parser::Node,
    pub syntax_tree: Node,
    pub node_stack: Vec<Node>,
    pub section: usize,
    pub block: usize,
}

/// `b` is `a` but for its register counters.
pub open spec fn same_but_regs(a: Compiler, b: Compiler) -> bool {
    &&& b.blocks == a.blocks
    &&& b.constraints == a.constraints
    &&& b.depth == a.depth
    &&& b.parse_tree == a.parse_tree
    &&& b.syntax_tree == a.syntax_tree
    &&& b.node_stack == a.node_stack
    &&& b.section == a.section
    &&& b.block == a.block
}

/// `b` is `a` but for its depth and syntax tree.
pub open spec fn same_but_tree(a: Compiler, b: Compiler) -> bool {
    &&& b.blocks == a.blocks
    &&& b.constraints == a.constraints
    &&& b.input_registers == a.input_registers
    &&& b.memory_registers == a.memory_registers
    &&& b.output_registers == a.output_registers
    &&& b.parse_tree == a.parse_tree
    &&& b.node_stack == a.node_stack
    &&& b.section == a.section
    &&& b.block == a.block
}

/// `b` is `a` but for its blocks, counters and registers.
pub open spec fn same_but_counters(a: Compiler, b: Compiler) -> bool {
    &&& b.constraints == a.constraints
    &&& b.depth == a.depth
    &&& b.parse_tree == a.parse_tree
    &&& b.syntax_tree == a.syntax_tree
    &&& b.node_stack == a.node_stack
}

/// The syntax tree after building: the root last met, if any.
pub open spec fn tree_after(t: Tree, root: Option<Seq<Tree>>) -> Tree {
    match root {
        Some(children) => Tree::Branch(Kind::Root, children),
        None => t,
    }
}

/// The register that holds the value a constraint computes.
fn result_register_of(c: &Constraint) -> (r: u64)
    ensures
        r == result_register(*c),
{
    match c {
        Constraint::Function { memory, .. } => *memory,
        Constraint::Constant { memory, .. } => *memory,
        Constraint::CopyInput { memory, .. } => *memory,
        _ => 0,
    }
}

/// The register that holds an operand of a filter.
fn operand_of(cs: &Vec<Constraint>) -> (r: u64)
    requires
        operand(cs@) is Some,
    ensures
        r == operand(cs@).unwrap(),
{
    match &cs[0] {
        Constraint::Scan { .. } => match &cs[1] {
            Constraint::CopyInput { memory, .. } => *memory,
            _ => 0,
        },
        c => result_register_of(c),
    }
}

/// The constraints in reverse order.
fn reversed(v: Vec<Constraint>) -> (r: Vec<Constraint>)
    ensures
        r@ == v@.reverse(),
{
    let mut v = v;
    let ghost orig = v@;
    let mut r: Vec<Constraint> = Vec::new();
    while v.len() > 0
        invariant
            v@ == orig.take(v@.len() as int),
            r@ == orig.reverse().take(r@.len() as int),
            v@.len() + r@.len() == orig.len(),
        decreases v.len(),
    {
        let ghost k = v@.len();
        let c = v.pop().unwrap();
        r.push(c);
        assert(r@ =~= orig.reverse().take(r@.len() as int));
        assert(v@ =~= orig.take(v@.len() as int));
    }
    assert(r@ =~= orig.reverse());
    r
}

/// Removes the first constraint, if any.
fn take_first(v: &mut Vec<Constraint>) -> (c: Option<Constraint>)
    ensures
        c == first(old(v)@),
        final(v)@ == rest(old(v)@),
{
    if v.len() > 0 {
        let c = v.remove(0);
        assert(final(v)@ =~= rest(old(v)@));
        Some(c)
    } else {
        None
    }
}

/// The operation that a function's name names.
fn operation_named(name: &String) -> (f: Function)
    ensures
        f == operation_of(name@),
{
    proof {
        reveal_strlit("+");
        reveal_strlit("-");
        reveal_strlit("*");
        reveal_strlit("/");
    }
    let s = name.as_str();
    if s.unicode_len() == 1 {
        let c = s.get_char(0);
        if c == '+' {
            assert(name@ =~= "+"@);
            Function::Add
        } else if c == '-' {
            assert(name@ =~= "-"@);
            Function::Subtract
        } else if c == '*' {
            assert(name@ =~= "*"@);
            Function::Multiply
        } else if c == '/' {
            assert(name@ =~= "/"@);
            Function::Divide
        } else {
            Function::Add
        }
    } else {
        Function::Add
    }
}

impl Compiler {
    /// The register counters.
    pub open spec fn regs(&self) -> Regs {
        Regs {
            input: self.input_registers as nat,
            memory: self.memory_registers as nat,
            output: self.output_registers as nat,
        }
    }

    /// A compiler with no blocks, at the first block of the first section,
    /// with each register counter at one.
    pub fn new() -> (c: Compiler)
        ensures
            c.blocks@ == Seq::<Block>::empty(),
            c.constraints@ == Seq::<Constraint>::empty(),
            c.node_stack@ == Seq::<Node>::empty(),
            c.depth == 0,
            c.section == 1,
            c.block == 1,
            c.input_registers == 1,
            c.memory_registers == 1,
            c.output_registers == 1,
            c.parse_tree@ == parser::ParseTree::Branch(parser::Rule::Root, seq![]),
            c.syntax_tree@ == Tree::Branch(Kind::Root, seq![]),
    {
        let c = Compiler {
            blocks: Vec::new(),
            constraints: Vec::new(),
            node_stack: Vec::new(),
            depth: 0,
            section: 1,
            block: 1,
            input_registers: 1,
            memory_registers: 1,
            output_registers: 1,
            parse_tree: parser::Node::Root { children: Vec::new() },
            syntax_tree: Node::Root { children: Vec::new() },
        };
        assert(parser::models(Seq::<parser::Node>::empty()) =~= seq![]);
        assert(trees(Seq::<Node>::empty()) =~= seq![]);
        c
    }

    /// Compiles each node in turn, each from the registers the one before
    /// left, and concatenates their constraints.
    pub fn compile_constraints(&mut self, nodes: &Vec<Node>) -> (res: Vec<Constraint>)
        requires
            compiles_all(old(self).regs(), trees(nodes@)),
        ensures
            ccs(old(self).regs(), trees(nodes@)) == Some((res@, final(self).regs())),
            same_but_regs(*old(self), *final(self)),
        decreases nodes, 0nat,
    {
        let ghost r0 = self.regs();
        let ghost s = trees(nodes@);
        let mut compiled: Vec<Constraint> = Vec::new();
        let mut i: usize = 0;
        assert(s.take(0) =~= seq![]);
        while i < nodes.len()
            invariant
                i <= nodes.len(),
                s == trees(nodes@),
                compiles_all(r0, s),
                ccs(r0, s.take(i as int)) == Some((compiled@, self.regs())),
                same_but_regs(*old(self), *self),
            decreases nodes.len() - i,
        {
            proof {
                lemma_ccs_step(r0, s, i as int);
                lemma_ccs_prefix(r0, s, i + 1);
                assert(s[i as int] == nodes@[i as int]@);
            }
            let mut part = self.compile_constraint(&nodes[i]);
            compiled.append(&mut part);
            i = i + 1;
        }
        assert(s.take(nodes.len() as int) =~= s);
        compiled
    }

    /// Compiles one syntax node into constraints, taking registers from the
    /// compiler's counters.
    pub fn compile_constraint(&mut self, node: &Node) -> (res: Vec<Constraint>)
        requires
            compiles(old(self).regs(), node@),
        ensures
            cc(old(self).regs(), node@) == Some((res@, final(self).regs())),
            same_but_regs(*old(self), *final(self)),
        decreases node, 2nat,
    {
        match node {
            Node::Constraint { children } => self.compile_constraints(children),
            Node::Statement { children } => self.compile_constraints(children),
            Node::Expression { children } => self.compile_constraints(children),
            Node::MathExpression { children } => self.compile_math(children),
            Node::SetData { children } => self.compile_set_data(children),
            Node::DataWatch { children } => self.compile_watch(children),
            Node::RowDefine { children } => self.compile_row(children),
            Node::Column { children } => self.compile_column(children),
            Node::Binding { children } => self.compile_binding(children),
            Node::Data { children } => self.compile_data(children),
            Node::ColumnDefine { children } => self.compile_column_define(children),
            Node::TableDefine { children } => self.compile_table_define(children),
            Node::AddRow { children } => self.compile_add_row(children),
            Node::FilterExpression { children } => self.compile_filter(children),
            Node::Function { name, children } => self.compile_function(name, children),
            Node::SelectExpression { children } => self.compile_select(children, true),
            Node::SelectData { children } => self.compile_select(children, false),
            Node::Identifier { name: _, id } => {
                let mut constraints: Vec<Constraint> = Vec::new();
                constraints.push(Constraint::Data { table: 0, column: *id });
                constraints
            },
            Node::Table { name: _, id } => {
                let mut constraints: Vec<Constraint> = Vec::new();
                constraints.push(Constraint::Data { table: *id, column: 1 });
                constraints
            },
            Node::Constant { value } => {
                let mut constraints: Vec<Constraint> = Vec::new();
                constraints.push(
                    Constraint::Constant {
                        value: *value as i64,
                        memory: self.memory_registers as u64,
                    },
                );
                self.memory_registers = self.memory_registers + 1;
                constraints
            },
            _ => {
                let constraints: Vec<Constraint> = Vec::new();
                assert(constraints@ =~= seq![]);
                constraints
            },
        }
    }

    /// A math expression: a reference to the memory register its value lands
    /// in, then its constraints.
    fn compile_math(&mut self, children: &Vec<Node>) -> (res: Vec<Constraint>)
        requires
            compiles(old(self).regs(), Tree::Branch(Kind::MathExpression, trees(children@))),
        ensures
            cc(old(self).regs(), Tree::Branch(Kind::MathExpression, trees(children@))) == Some(
                (res@, final(self).regs()),
            ),
            same_but_regs(*old(self), *final(self)),
        decreases children, 1nat,
    {
        let m = self.memory_registers as u64;
        let mut result = self.compile_constraints(children);
        let mut constraints: Vec<Constraint> = Vec::new();
        constraints.push(Constraint::Data { table: 0, column: m });
        constraints.append(&mut result);
        constraints
    }

    /// An assignment: the masks of the target's index, the insert into the
    /// target, and the constraints of the value.
    fn compile_set_data(&mut self, children: &Vec<Node>) -> (res: Vec<Constraint>)
        requires
            compiles(old(self).regs(), Tree::Branch(Kind::SetData, trees(children@))),
        ensures
            cc(old(self).regs(), Tree::Branch(Kind::SetData, trees(children@))) == Some(
                (res@, final(self).regs()),
            ),
            same_but_regs(*old(self), *final(self)),
        decreases children, 1nat,
    {
        let ghost r0 = self.regs();
        let ghost ch = trees(children@);
        proof {
            let r1 = cc(r0, ch[0]).unwrap().1;
            lemma_cc_monotone(r1, ch[1]);
            assert(ch[0] == children@[0]@);
            assert(ch[1] == children@[1]@);
        }
        let mut lhs = self.compile_constraint(&children[0]);
        let mut rhs = self.compile_constraint(&children[1]);
        let ghost lhs0 = lhs@;
        let ghost rhs0 = rhs@;
        let table = take_first(&mut lhs);
        let output = take_first(&mut rhs);
        let mut table_id: u64 = 0;
        let mut column_id: u64 = 1;
        match table {
            Some(Constraint::Data { table: t, column: c }) => {
                table_id = t;
                column_id = c;
            },
            _ => {},
        }
        let mut source: u64 = 0;
        match output {
            Some(Constraint::Data { table: t, column: c }) => {
                if t == 0 {
                    source = c;
                }
            },
            _ => {},
        }
        assert(source == source_of(rhs0));
        assert((table_id, column_id) == target_of(lhs0));
        let (mut constraints, out) = chain_masks(&lhs, source);
        constraints.push(Constraint::Insert { memory: out, table: table_id, column: column_id });
        self.output_registers = self.output_registers + 1;
        constraints.append(&mut rhs);
        constraints
    }

    /// A change watch: a scan for changes of each column its children select.
    fn compile_watch(&mut self, children: &Vec<Node>) -> (res: Vec<Constraint>)
        requires
            compiles(old(self).regs(), Tree::Branch(Kind::DataWatch, trees(children@))),
        ensures
            cc(old(self).regs(), Tree::Branch(Kind::DataWatch, trees(children@))) == Some(
                (res@, final(self).regs()),
            ),
            same_but_regs(*old(self), *final(self)),
        decreases children, 1nat,
    {
        proof {
            let (res, r2) = ccs(old(self).regs(), trees(children@)).unwrap();
            lemma_watch_monotone(res, r2.input);
        }
        let result = self.compile_constraints(children);
        let (scans, input) = watch_scans(&result, self.input_registers);
        self.input_registers = input;
        scans
    }

    /// A row: its inserts go to the column its last identifier names.
    fn compile_row(&mut self, children: &Vec<Node>) -> (res: Vec<Constraint>)
        requires
            compiles(old(self).regs(), Tree::Branch(Kind::RowDefine, trees(children@))),
        ensures
            cc(old(self).regs(), Tree::Branch(Kind::RowDefine, trees(children@))) == Some(
                (res@, final(self).regs()),
            ),
            same_but_regs(*old(self), *final(self)),
        decreases children, 1nat,
    {
        let result = self.compile_constraints(children);
        assign_columns_of(&result)
    }

    /// A column: each column it selects names the last memory register.
    fn compile_column(&mut self, children: &Vec<Node>) -> (res: Vec<Constraint>)
        requires
            compiles(old(self).regs(), Tree::Branch(Kind::Column, trees(children@))),
        ensures
            cc(old(self).regs(), Tree::Branch(Kind::Column, trees(children@))) == Some(
                (res@, final(self).regs()),
            ),
            same_but_regs(*old(self), *final(self)),
        decreases children, 1nat,
    {
        let result = self.compile_constraints(children);
        name_columns_of(&result, self.memory_registers)
    }

    /// A binding: an insert of the current memory register, then its constraints.
    fn compile_binding(&mut self, children: &Vec<Node>) -> (res: Vec<Constraint>)
        requires
            compiles(old(self).regs(), Tree::Branch(Kind::Binding, trees(children@))),
        ensures
            cc(old(self).regs(), Tree::Branch(Kind::Binding, trees(children@))) == Some(
                (res@, final(self).regs()),
            ),
            same_but_regs(*old(self), *final(self)),
        decreases children, 1nat,
    {
        let ghost r0 = self.regs();
        proof {
            lemma_ccs_monotone(Regs { output: r0.output + 1, ..r0 }, trees(children@));
        }
        let mut constraints: Vec<Constraint> = Vec::new();
        constraints.push(
            Constraint::Insert { memory: self.memory_registers as u64, table: 0, column: 0 },
        );
        self.output_registers = self.output_registers + 1;
        let mut result = self.compile_constraints(children);
        constraints.append(&mut result);
        constraints
    }

    /// A data reference: the constraints of its children, then the columns
    /// it selects, in reverse order.
    fn compile_data(&mut self, children: &Vec<Node>) -> (res: Vec<Constraint>)
        requires
            compiles(old(self).regs(), Tree::Branch(Kind::Data, trees(children@))),
        ensures
            cc(old(self).regs(), Tree::Branch(Kind::Data, trees(children@))) == Some(
                (res@, final(self).regs()),
            ),
            same_but_regs(*old(self), *final(self)),
        decreases children, 1nat,
    {
        let ghost r0 = self.regs();
        let ghost ch = trees(children@);
        let ghost st0 = DataState { constraints: seq![], data: seq![], table: 0, regs: r0 };
        let ghost fin = data_fold(st0, ch, ch.len()).unwrap();
        let mut table: u64 = 0;
        let mut data: Vec<Constraint> = Vec::new();
        let mut constraints: Vec<Constraint> = Vec::new();
        let mut i: usize = 0;
        while i < children.len()
            invariant
                i <= children.len(),
                ch == trees(children@),
                data_fold(st0, ch, ch.len()) == Some(fin),
                regs_fit(fin.regs),
                data_fold(st0, ch, i as nat) == Some(
                    DataState {
                        constraints: constraints@,
                        data: data@,
                        table,
                        regs: self.regs(),
                    },
                ),
                same_but_regs(*old(self), *self),
            decreases children.len() - i,
        {
            proof {
                lemma_data_fold_prefix(st0, ch, (i + 1) as nat, ch.len());
                assert(ch[i as int] == children@[i as int]@);
            }
            match &children[i] {
                Node::Table { name: _, id } => {
                    table = *id;
                },
                Node::DotIndex { rows: _, columns } => {
                    let (d, m) = index_columns_of(data, columns, table, self.memory_registers);
                    data = d;
                    self.memory_registers = m;
                },
                _ => {
                    let mut part = self.compile_constraints(children);
                    constraints.append(&mut part);
                },
            }
            i = i + 1;
        }
        if data.len() == 0 {
            data.push(Constraint::Data { table, column: 1 });
        }
        let mut selected = reversed(data);
        constraints.append(&mut selected);
        constraints
    }

    /// A column definition: its first column becomes the name of the memory
    /// register the column starts at.
    fn compile_column_define(&mut self, children: &Vec<Node>) -> (res: Vec<Constraint>)
        requires
            compiles(old(self).regs(), Tree::Branch(Kind::ColumnDefine, trees(children@))),
        ensures
            cc(old(self).regs(), Tree::Branch(Kind::ColumnDefine, trees(children@))) == Some(
                (res@, final(self).regs()),
            ),
            same_but_regs(*old(self), *final(self)),
        decreases children, 1nat,
    {
        let m = self.memory_registers as u64;
        let mut result = self.compile_constraints(children);
        let identifier = take_first(&mut result);
        let mut constraints: Vec<Constraint> = Vec::new();
        match identifier {
            Some(Constraint::Data { table: _, column }) => {
                constraints.push(Constraint::Identifier { id: column, memory: m });
            },
            _ => {},
        }
        constraints.append(&mut result);
        constraints
    }

    /// A table definition: its inserts go to the table its first constraint
    /// names, and the table is created with as many columns as memory
    /// registers the definition took.
    fn compile_table_define(&mut self, children: &Vec<Node>) -> (res: Vec<Constraint>)
        requires
            compiles(old(self).regs(), Tree::Branch(Kind::TableDefine, trees(children@))),
        ensures
            cc(old(self).regs(), Tree::Branch(Kind::TableDefine, trees(children@))) == Some(
                (res@, final(self).regs()),
            ),
            same_but_regs(*old(self), *final(self)),
        decreases children, 1nat,
    {
        let ghost r0 = self.regs();
        proof {
            lemma_ccs_monotone(r0, trees(children@));
            let (res, r2) = ccs(r0, trees(children@)).unwrap();
            lemma_assign_table_monotone(rest(res), crate::compile::table_of(res), r2.output);
        }
        let m = self.memory_registers as u64;
        let mut result = self.compile_constraints(children);
        let table = take_first(&mut result);
        let mut table_id: u64 = 0;
        match table {
            Some(Constraint::Data { table: t, column: _ }) => {
                table_id = t;
            },
            _ => {},
        }
        let (mut constraints, output) = assign_table_of(&result, table_id, self.output_registers);
        self.output_registers = output;
        let columns = self.memory_registers as u64 - m;
        constraints.push(Constraint::NewTable { id: table_id, rows: 1, columns });
        constraints
    }

    /// A new row: its inserts become appends to the table its first
    /// constraint names.
    fn compile_add_row(&mut self, children: &Vec<Node>) -> (res: Vec<Constraint>)
        requires
            compiles(old(self).regs(), Tree::Branch(Kind::AddRow, trees(children@))),
        ensures
            cc(old(self).regs(), Tree::Branch(Kind::AddRow, trees(children@))) == Some(
                (res@, final(self).regs()),
            ),
            same_but_regs(*old(self), *final(self)),
        decreases children, 1nat,
    {
        let mut result = self.compile_constraints(children);
        let table = take_first(&mut result);
        let mut table_id: u64 = 0;
        match table {
            Some(Constraint::Data { table: t, column: _ }) => {
                table_id = t;
            },
            _ => {},
        }
        append_rows_of(&result, table_id)
    }

    /// A filter: the comparison of the registers of its two operands into a
    /// fresh memory register, then the constraints of the operands.
    fn compile_filter(&mut self, children: &Vec<Node>) -> (res: Vec<Constraint>)
        requires
            compiles(old(self).regs(), Tree::Branch(Kind::FilterExpression, trees(children@))),
        ensures
            cc(old(self).regs(), Tree::Branch(Kind::FilterExpression, trees(children@))) == Some(
                (res@, final(self).regs()),
            ),
            same_but_regs(*old(self), *final(self)),
        decreases children, 1nat,
    {
        let ghost r0 = self.regs();
        let ghost ch = trees(children@);
        let ghost ra = Regs { memory: r0.memory + 1, ..r0 };
        proof {
            lemma_cc_monotone(ra, ch[0]);
            let r1 = cc(ra, ch[0]).unwrap().1;
            lemma_cc_monotone(r1, ch[2]);
            assert(ch[0] == children@[0]@);
            assert(ch[1] == children@[1]@);
            assert(ch[2] == children@[2]@);
        }
        let m = self.memory_registers as u64;
        self.memory_registers = self.memory_registers + 1;
        let comparator = comparator_named(&children[1]);
        let mut lhs = self.compile_constraint(&children[0]);
        let a = operand_of(&lhs);
        let mut rhs = self.compile_constraint(&children[2]);
        let b = operand_of(&rhs);
        let mut constraints: Vec<Constraint> = Vec::new();
        constraints.push(Constraint::Filter { comparator, lhs: a, rhs: b, memory: m });
        constraints.append(&mut lhs);
        constraints.append(&mut rhs);
        constraints
    }

    /// A function: the constraints of its arguments, then the operation on
    /// the fresh register after its output register and the register of its
    /// last argument; nothing where it has fewer than two constraints.
    fn compile_function(&mut self, name: &String, children: &Vec<Node>) -> (res: Vec<Constraint>)
        requires
            compiles(old(self).regs(), Tree::Function(name@, trees(children@))),
        ensures
            cc(old(self).regs(), Tree::Function(name@, trees(children@))) == Some(
                (res@, final(self).regs()),
            ),
            same_but_regs(*old(self), *final(self)),
        decreases children, 1nat,
    {
        let ghost r0 = self.regs();
        proof {
            lemma_ccs_monotone(Regs { memory: r0.memory + 1, ..r0 }, trees(children@));
        }
        let operation = operation_named(name);
        let o1 = self.memory_registers as u64;
        self.memory_registers = self.memory_registers + 1;
        let p1 = self.memory_registers as u64;
        let mut result = self.compile_constraints(children);
        let mut constraints: Vec<Constraint> = Vec::new();
        if result.len() >= 2 {
            let p2 = result_register_of(&result[result.len() - 1]);
            constraints.append(&mut result);
            constraints.push(
                Constraint::Function { operation, parameters: (p1, p2), memory: o1 },
            );
        }
        assert(constraints@.len() == 0 ==> constraints@ =~= seq![]);
        constraints
    }

    /// A selection: each column its children select is scanned into an input
    /// register and copied into a memory register; a select expression first
    /// refers to the memory register it started at.
    fn compile_select(&mut self, children: &Vec<Node>, lead: bool) -> (res: Vec<Constraint>)
        requires
            compiles(
                old(self).regs(),
                Tree::Branch(
                    if lead {
                        Kind::SelectExpression
                    } else {
                        Kind::SelectData
                    },
                    trees(children@),
                ),
            ),
        ensures
            cc(
                old(self).regs(),
                Tree::Branch(
                    if lead {
                        Kind::SelectExpression
                    } else {
                        Kind::SelectData
                    },
                    trees(children@),
                ),
            ) == Some((res@, final(self).regs())),
            same_but_regs(*old(self), *final(self)),
        decreases children, 1nat,
    {
        proof {
            let (res, r2) = ccs(old(self).regs(), trees(children@)).unwrap();
            lemma_select_monotone(res, r2, Some(old(self).memory_registers as u64));
            lemma_select_monotone(res, r2, None);
        }
        let m = self.memory_registers as u64;
        let result = self.compile_constraints(children);
        let target = if lead {
            Some(m)
        } else {
            None
        };
        let (out, input, memory) = select_of(
            &result,
            self.input_registers,
            self.memory_registers,
            self.output_registers,
            target,
        );
        self.input_registers = input;
        self.memory_registers = memory;
        out
    }

    /// The counters that compiling blocks reads and moves.
    pub open spec fn counters(&self) -> Counters {
        Counters {
            section: self.section as nat,
            block: self.block as nat,
            regs: self.regs(),
            blocks: block_views(self.blocks@),
        }
    }

    /// Compiles a syntax tree into blocks: each block or fragment becomes a
    /// block named after its section and block numbers; a root's blocks
    /// become the compiler's blocks.
    pub fn compile_blocks(&mut self, node: Node) -> (res: Vec<Block>)
        requires
            cb(old(self).counters(), node@) is Some,
        ensures
            cb(old(self).counters(), node@) == Some((block_views(res@), final(self).counters())),
            same_but_counters(*old(self), *final(self)),
        decreases node@,
    {
        let ghost c0 = self.counters();
        let mut blocks: Vec<Block> = Vec::new();
        assert(block_views(blocks@) =~= seq![]);
        match node {
            Node::Block { children } => {
                let block = self.new_block(&children);
                blocks.push(block);
            },
            Node::Fragment { children } => {
                let block = self.new_block(&children);
                blocks.push(block);
            },
            Node::Root { children } => {
                let result = self.compile_children(children);
                self.blocks = result;
            },
            Node::Program { children } => {
                let mut result = self.compile_children(children);
                blocks.append(&mut result);
            },
            Node::Body { children } => {
                let mut result = self.compile_children(children);
                blocks.append(&mut result);
            },
            Node::Section { children } => {
                let mut result = self.compile_children(children);
                blocks.append(&mut result);
                self.section = self.section + 1;
                self.block = 1;
            },
            _ => {},
        }
        assert(block_views(blocks@) =~= cb(c0, node@).unwrap().0);
        blocks
    }

    /// A new block holding the constraints of `children`, compiled from
    /// fresh registers.
    fn new_block(&mut self, children: &Vec<Node>) -> (b: Block)
        requires
            new_block(old(self).counters(), trees(children@)) is Some,
        ensures
            new_block(old(self).counters(), trees(children@)) == Some((b@, final(self).counters())),
            same_but_counters(*old(self), *final(self)),
    {
        proof {
            lemma_block_name(self.section as nat, self.block as nat);
        }
        let mut name = decimal_string(self.section as u64);
        push_char(&mut name, ',');
        push_decimal(&mut name, self.block as u64);
        assert(name@ =~= block_name(self.section as nat, self.block as nat));
        proof {
            lemma_hash_ascii(name@);
        }
        let id = Hasher::hash_string(name.clone()) as usize;
        self.block = self.block + 1;
        self.input_registers = 1;
        self.memory_registers = 1;
        self.output_registers = 1;
        let constraints = self.compile_constraints(children);
        Block { id, name, constraints }
    }

    /// Compiles each syntax tree into blocks in turn, and concatenates them.
    pub fn compile_children(&mut self, nodes: Vec<Node>) -> (res: Vec<Block>)
        requires
            cbs(old(self).counters(), trees(nodes@)) is Some,
        ensures
            cbs(old(self).counters(), trees(nodes@)) == Some(
                (block_views(res@), final(self).counters()),
            ),
            same_but_counters(*old(self), *final(self)),
        decreases trees(nodes@),
    {
        let ghost s = trees(nodes@);
        let ghost c0 = self.counters();
        let n0 = nodes.len();
        let ghost n = n0 as nat;
        let mut pending = nodes;
        let mut compiled: Vec<Block> = Vec::new();
        let mut i: usize = 0;
        assert(s.take(0) =~= seq![]);
        assert(s.subrange(0, n as int) =~= s);
        assert(block_views(compiled@) =~= seq![]);
        while pending.len() > 0
            invariant
                i + pending@.len() == n,
                n <= usize::MAX,
                s.len() == n,
                s == trees(nodes@),
                trees(pending@) == s.subrange(i as int, n as int),
                cbs(c0, s) is Some,
                cbs(c0, s.take(i as int)) == Some((block_views(compiled@), self.counters())),
                same_but_counters(*old(self), *self),
            decreases pending.len(),
        {
            proof {
                lemma_cbs_step(c0, s, i as int);
                lemma_cbs_prefix(c0, s, i + 1);
            }
            let node = take_front(&mut pending);
            assert(trees(pending@) =~= s.subrange(i + 1, n as int));
            assert(node@ == s[i as int]);
            assert(decreases_to!(s => node@));
            let ghost before = compiled@;
            let mut part = self.compile_blocks(node);
            let ghost p = part@;
            compiled.append(&mut part);
            assert(block_views(compiled@) =~= block_views(before) + block_views(p));
            i = i + 1;
        }
        assert(s.take(n as int) =~= s);
        compiled
    }

    /// Compiles a parse tree: keeps a copy of it, builds its syntax tree,
    /// and compiles the syntax tree into the compiler's blocks, which it
    /// returns.
    pub fn compile_parse_tree(&mut self, parse_tree: parser::Node) -> (res: &Vec<Block>)
        requires
            build(parse_tree@) is Some,
            old(self).depth + build(parse_tree@).unwrap().calls <= usize::MAX,
            cb(
                old(self).counters(),
                tree_after(old(self).syntax_tree@, build(parse_tree@).unwrap().root),
            ) is Some,
        ensures
            final(self).parse_tree@ == parse_tree@,
            final(self).depth == old(self).depth + build(parse_tree@).unwrap().calls,
            final(self).syntax_tree@ == tree_after(
                old(self).syntax_tree@,
                build(parse_tree@).unwrap().root,
            ),
            cb(
                old(self).counters(),
                tree_after(old(self).syntax_tree@, build(parse_tree@).unwrap().root),
            ).unwrap().1 == final(self).counters(),
            res@ == final(self).blocks@,
            final(self).constraints == old(self).constraints,
            final(self).node_stack == old(self).node_stack,
    {
        self.parse_tree = parse_tree.duplicate();
        self.build_syntax_tree(parse_tree);
        let ast = self.syntax_tree.duplicate();
        self.compile_blocks(ast);
        &self.blocks
    }

    /// Builds the syntax nodes of a parse tree. Each parse node visited adds
    /// one to `depth`; a root replaces the syntax tree.
    pub fn build_syntax_tree(&mut self, node: parser::Node) -> (res: Vec<Node>)
        requires
            build(node@) is Some,
            old(self).depth + build(node@).unwrap().calls <= usize::MAX,
        ensures
            trees(res@) == build(node@).unwrap().nodes,
            final(self).depth == old(self).depth + build(node@).unwrap().calls,
            final(self).syntax_tree@ == tree_after(old(self).syntax_tree@, build(node@).unwrap().root),
            same_but_tree(*old(self), *final(self)),
        decreases node@,
    {
        self.depth = self.depth + 1;
        match node.into_parts() {
            parser::Parts::Leaf(token, byte) => single(Node::Token { token, byte }),
            parser::Parts::Null => none(),
            parser::Parts::Branch(rule, children) => {
                if rule == parser::Rule::Whitespace || rule == parser::Rule::Newline {
                    return none();
                }
                let result = self.compile_nodes(children);
                match rule {
                    parser::Rule::Root => {
                        self.syntax_tree = Node::Root { children: result };
                        none()
                    },
                    _ => shape_of(rule, result),
                }
            },
        }
    }

    /// Builds the syntax nodes of each parse tree in turn, and concatenates them.
    pub fn compile_nodes(&mut self, nodes: Vec<parser::Node>) -> (res: Vec<Node>)
        requires
            build_all(parser::models(nodes@)) is Some,
            old(self).depth + build_all(parser::models(nodes@)).unwrap().calls <= usize::MAX,
        ensures
            trees(res@) == build_all(parser::models(nodes@)).unwrap().nodes,
            final(self).depth == old(self).depth + build_all(parser::models(nodes@)).unwrap().calls,
            final(self).syntax_tree@ == tree_after(
                old(self).syntax_tree@,
                build_all(parser::models(nodes@)).unwrap().root,
            ),
            same_but_tree(*old(self), *final(self)),
        decreases parser::models(nodes@),
    {
        let ghost s = parser::models(nodes@);
        let n0 = nodes.len();
        let ghost n = n0 as nat;
        let ghost d0 = self.depth as nat;
        let ghost t0 = self.syntax_tree@;
        let mut pending = nodes;
        let mut compiled: Vec<Node> = Vec::new();
        let mut i: usize = 0;
        assert(s.take(0) =~= seq![]);
        assert(s.subrange(0, n as int) =~= s);
        assert(trees(compiled@) =~= seq![]);
        while pending.len() > 0
            invariant
                i + pending@.len() == n,
                n <= usize::MAX,
                s.len() == n,
                parser::models(pending@) == s.subrange(i as int, n as int),
                s == parser::models(nodes@),
                build_all(s) is Some,
                d0 + build_all(s).unwrap().calls <= usize::MAX,
                build_all(s.take(i as int)) matches Some(b) && trees(compiled@) == b.nodes
                    && self.depth == d0 + b.calls && self.syntax_tree@ == tree_after(t0, b.root),
                same_but_tree(*old(self), *self),
            decreases pending.len(),
        {
            proof {
                lemma_build_all_step(s, i as int);
                lemma_build_all_prefix(s, i + 1);
            }
            let node = take_front_parse(&mut pending);
            assert(parser::models(pending@) =~= s.subrange(i + 1, n as int));
            assert(node@ == s[i as int]);
            assert(decreases_to!(s => node@));
            let mut part = self.build_syntax_tree(node);
            proof {
                lemma_trees_add(compiled@, part@);
            }
            compiled.append(&mut part);
            i = i + 1;
        }
        assert(s.take(n as int) =~= s);
        compiled
    }
}

/// The memory register a constraint copies its input into, if it copies one.
#[allow(dead_code)]
fn get_destination_register(constraint: &Constraint) -> (r: Option<usize>)
    ensures
        r == (match *constraint {
            Constraint::CopyInput { memory, .. } => Some(memory as usize),
            _ => None,
        }),
{
    match constraint {
        Constraint::CopyInput { input: _, memory } => Some(*memory as usize),
        _ => None,
    }
}

/// The comparator that a filter's middle node names.
fn comparator_named(node: &Node) -> (c: Comparator)
    ensures
        c == comparator_of(node@),
{
    match node {
        Node::Token { token: Token::GreaterThan, byte: _ } => Comparator::GreaterThan,
        Node::Token { token: Token::LessThan, byte: _ } => Comparator::LessThan,
        _ => Comparator::Equal,
    }
}

/// Chains the index masks of an assignment, starting from register `source`.
fn chain_masks(cs: &Vec<Constraint>, source: u64) -> (r: (Vec<Constraint>, u64))
    ensures
        (r.0@, r.1) == mask_chain(cs@, source),
{
    let mut out: Vec<Constraint> = Vec::new();
    let mut src = source;
    let mut i: usize = 0;
    assert(cs@.take(0) =~= seq![]);
    while i < cs.len()
        invariant
            i <= cs.len(),
            mask_chain(cs@.take(i as int), source) == (out@, src),
        decreases cs.len() - i,
    {
        assert(cs@.take(i + 1).drop_last() =~= cs@.take(i as int));
        match cs[i] {
            Constraint::IndexMask { source: _, truth, memory } => {
                out.push(Constraint::IndexMask { source: src, truth, memory });
                src = memory;
            },
            _ => {},
        }
        i = i + 1;
    }
    assert(cs@.take(cs.len() as int) =~= cs@);
    (out, src)
}

/// A change scan for each column reference, through the next input registers.
fn watch_scans(cs: &Vec<Constraint>, input: usize) -> (r: (Vec<Constraint>, usize))
    requires
        watch(cs@, input as nat).1 <= usize::MAX,
    ensures
        (r.0@, r.1 as nat) == watch(cs@, input as nat),
{
    let mut out: Vec<Constraint> = Vec::new();
    let mut next = input;
    let mut i: usize = 0;
    assert(cs@.take(0) =~= seq![]);
    while i < cs.len()
        invariant
            i <= cs.len(),
            watch(cs@, input as nat).1 <= usize::MAX,
            watch(cs@.take(i as int), input as nat) == (out@, next as nat),
        decreases cs.len() - i,
    {
        assert(cs@.take(i + 1).drop_last() =~= cs@.take(i as int));
        proof {
            lemma_watch_prefix(cs@, input as nat, i + 1);
        }
        match cs[i] {
            Constraint::Data { table, column } => {
                out.push(Constraint::ChangeScan { table, column, input: next as u64 });
                next = next + 1;
            },
            _ => {},
        }
        i = i + 1;
    }
    assert(cs@.take(cs.len() as int) =~= cs@);
    (out, next)
}

/// Sets the column of each insert of a row to the last identifier before it.
fn assign_columns_of(cs: &Vec<Constraint>) -> (r: Vec<Constraint>)
    ensures
        r@ == assign_columns(cs@).0,
{
    let mut out: Vec<Constraint> = Vec::new();
    let mut column_ix: u64 = 1;
    let mut i: usize = 0;
    assert(cs@.take(0) =~= seq![]);
    while i < cs.len()
        invariant
            i <= cs.len(),
            assign_columns(cs@.take(i as int)) == (out@, column_ix),
        decreases cs.len() - i,
    {
        assert(cs@.take(i + 1).drop_last() =~= cs@.take(i as int));
        let c = cs[i];
        match c {
            Constraint::Identifier { id, memory: _ } => {
                column_ix = id;
                out.push(c);
            },
            Constraint::Insert { memory, table, column: _ } => {
                out.push(Constraint::Insert { memory, table, column: column_ix });
            },
            _ => out.push(c),
        }
        i = i + 1;
    }
    assert(cs@.take(cs.len() as int) =~= cs@);
    out
}

/// Names the last memory register with each column reference.
fn name_columns_of(cs: &Vec<Constraint>, memory: usize) -> (r: Vec<Constraint>)
    requires
        name_columns(cs@, memory as nat) is Some,
    ensures
        r@ == name_columns(cs@, memory as nat).unwrap(),
{
    let mut out: Vec<Constraint> = Vec::new();
    let mut i: usize = 0;
    assert(cs@.take(0) =~= seq![]);
    proof {
        lemma_name_columns_prefix(cs@, memory as nat, 0);
    }
    while i < cs.len()
        invariant
            i <= cs.len(),
            name_columns(cs@, memory as nat) is Some,
            name_columns(cs@.take(i as int), memory as nat) == Some(out@),
        decreases cs.len() - i,
    {
        assert(cs@.take(i + 1).drop_last() =~= cs@.take(i as int));
        proof {
            lemma_name_columns_prefix(cs@, memory as nat, i + 1);
        }
        let c = cs[i];
        match c {
            Constraint::Data { table: _, column } => {
                out.push(Constraint::Identifier { id: column, memory: memory as u64 - 1 });
            },
            _ => out.push(c),
        }
        i = i + 1;
    }
    assert(cs@.take(cs.len() as int) =~= cs@);
    out
}

/// Sends the inserts of a table definition to the table `id`, and inserts
/// each memory column into its first column.
fn assign_table_of(cs: &Vec<Constraint>, id: u64, output: usize) -> (r: (Vec<Constraint>, usize))
    requires
        assign_table(cs@, id, output as nat).1 <= usize::MAX,
    ensures
        (r.0@, r.1 as nat) == assign_table(cs@, id, output as nat),
{
    let mut out: Vec<Constraint> = Vec::new();
    let mut next = output;
    let mut i: usize = 0;
    assert(cs@.take(0) =~= seq![]);
    while i < cs.len()
        invariant
            i <= cs.len(),
            assign_table(cs@, id, output as nat).1 <= usize::MAX,
            assign_table(cs@.take(i as int), id, output as nat) == (out@, next as nat),
        decreases cs.len() - i,
    {
        assert(cs@.take(i + 1).drop_last() =~= cs@.take(i as int));
        proof {
            lemma_assign_table_prefix(cs@, id, output as nat, i + 1);
        }
        let c = cs[i];
        match c {
            Constraint::Insert { memory, table: _, column } => {
                out.push(Constraint::Insert { memory, table: id, column });
            },
            Constraint::Data { table, column } => {
                if table == 0 {
                    out.push(Constraint::Insert { memory: column, table: id, column: 1 });
                    next = next + 1;
                } else {
                    out.push(c);
                }
            },
            _ => out.push(c),
        }
        i = i + 1;
    }
    assert(cs@.take(cs.len() as int) =~= cs@);
    (out, next)
}

/// Turns the inserts of a new row into appends to the table `id`.
fn append_rows_of(cs: &Vec<Constraint>, id: u64) -> (r: Vec<Constraint>)
    ensures
        r@ == append_rows(cs@, id),
{
    let mut out: Vec<Constraint> = Vec::new();
    let mut i: usize = 0;
    assert(cs@.take(0) =~= seq![]);
    while i < cs.len()
        invariant
            i <= cs.len(),
            append_rows(cs@.take(i as int), id) == out@,
        decreases cs.len() - i,
    {
        assert(cs@.take(i + 1).drop_last() =~= cs@.take(i as int));
        let c = cs[i];
        match c {
            Constraint::Insert { memory, table: _, column } => {
                out.push(Constraint::Append { memory, table: id, column });
            },
            _ => out.push(c),
        }
        i = i + 1;
    }
    assert(cs@.take(cs.len() as int) =~= cs@);
    out
}

/// Scans each column reference into the next input register and copies it
/// into the next memory register.
fn select_of(cs: &Vec<Constraint>, input: usize, memory: usize, output: usize, target: Option<u64>) -> (r: (
    Vec<Constraint>,
    usize,
    usize,
))
    requires
        regs_fit(
            select(
                cs@,
                Regs { input: input as nat, memory: memory as nat, output: output as nat },
                target,
            ).1,
        ),
    ensures
        (r.0@, Regs { input: r.1 as nat, memory: r.2 as nat, output: output as nat }) == select(
            cs@,
            Regs { input: input as nat, memory: memory as nat, output: output as nat },
            target,
        ),
{
    let ghost r0 = Regs { input: input as nat, memory: memory as nat, output: output as nat };
    let mut out: Vec<Constraint> = Vec::new();
    let mut inp = input;
    let mut mem = memory;
    let mut i: usize = 0;
    assert(cs@.take(0) =~= seq![]);
    while i < cs.len()
        invariant
            i <= cs.len(),
            regs_fit(select(cs@, r0, target).1),
            select(cs@.take(i as int), r0, target) == (
                out@,
                Regs { input: inp as nat, memory: mem as nat, output: output as nat },
            ),
        decreases cs.len() - i,
    {
        assert(cs@.take(i + 1).drop_last() =~= cs@.take(i as int));
        proof {
            lemma_select_prefix(cs@, r0, target, i + 1);
        }
        let c = cs[i];
        match c {
            Constraint::Data { table, column } => {
                let ghost before = out@;
                match target {
                    Some(m) => out.push(Constraint::Data { table: 0, column: m }),
                    None => {},
                }
                out.push(Constraint::Scan { table, column, input: inp as u64 });
                out.push(Constraint::CopyInput { input: inp as u64, memory: mem as u64 });
                inp = inp + 1;
                mem = mem + 1;
                assert(out@ =~= before + (match target {
                    Some(m) => seq![Constraint::Data { table: 0, column: m }],
                    None => seq![],
                }) + seq![
                    Constraint::Scan { table, column, input: (inp - 1) as u64 },
                    Constraint::CopyInput { input: (inp - 1) as u64, memory: (mem - 1) as u64 },
                ]);
            },
            _ => out.push(c),
        }
        i = i + 1;
    }
    assert(cs@.take(cs.len() as int) =~= cs@);
    (out, inp, mem)
}

/// Adds the masks of a bracket index: one per identifier, each into the
/// next memory register.
fn bracket_masks_of(data: Vec<Constraint>, cols: &Vec<Node>, memory: usize) -> (r: (Vec<Constraint>, usize))
    requires
        bracket_masks(data@, trees(cols@), memory as nat).1 <= usize::MAX,
    ensures
        (r.0@, r.1 as nat) == bracket_masks(data@, trees(cols@), memory as nat),
{
    let ghost d0 = data@;
    let ghost s = trees(cols@);
    let mut data = data;
    let mut mem = memory;
    let mut i: usize = 0;
    assert(s.take(0) =~= seq![]);
    while i < cols.len()
        invariant
            i <= cols.len(),
            s == trees(cols@),
            bracket_masks(d0, s, memory as nat).1 <= usize::MAX,
            bracket_masks(d0, s.take(i as int), memory as nat) == (data@, mem as nat),
        decreases cols.len() - i,
    {
        assert(s.take(i + 1).drop_last() =~= s.take(i as int));
        assert(s[i as int] == cols@[i as int]@);
        proof {
            lemma_bracket_masks_prefix(d0, s, memory as nat, i + 1);
        }
        match &cols[i] {
            Node::Identifier { name: _, id } => {
                data.push(Constraint::IndexMask { source: 0, truth: *id, memory: mem as u64 });
                mem = mem + 1;
            },
            _ => {},
        }
        i = i + 1;
    }
    assert(s.take(cols.len() as int) =~= s);
    (data, mem)
}

/// Adds the columns of a dot index: a reference to a column of `table` for
/// each identifier, and the masks of each bracket index.
fn index_columns_of(data: Vec<Constraint>, cols: &Vec<Node>, table: u64, memory: usize) -> (r: (
    Vec<Constraint>,
    usize,
))
    requires
        index_columns(data@, trees(cols@), table, memory as nat).1 <= usize::MAX,
    ensures
        (r.0@, r.1 as nat) == index_columns(data@, trees(cols@), table, memory as nat),
{
    let ghost d0 = data@;
    let ghost s = trees(cols@);
    let mut data = data;
    let mut mem = memory;
    let mut i: usize = 0;
    assert(s.take(0) =~= seq![]);
    while i < cols.len()
        invariant
            i <= cols.len(),
            s == trees(cols@),
            index_columns(d0, s, table, memory as nat).1 <= usize::MAX,
            index_columns(d0, s.take(i as int), table, memory as nat) == (data@, mem as nat),
        decreases cols.len() - i,
    {
        assert(s.take(i + 1).drop_last() =~= s.take(i as int));
        assert(s[i as int] == cols@[i as int]@);
        proof {
            lemma_index_columns_prefix(d0, s, table, memory as nat, i + 1);
        }
        match &cols[i] {
            Node::Identifier { name: _, id } => {
                data.push(Constraint::Data { table, column: *id });
            },
            Node::BracketIndex { rows: _, columns } => {
                let (d, m) = bracket_masks_of(data, columns, mem);
                data = d;
                mem = m;
            },
            _ => {},
        }
        i = i + 1;
    }
    assert(s.take(cols.len() as int) =~= s);
    (data, mem)
}

} // verus!
