use mech_syntax::compiler::Compiler;
use mech_syntax::constraint::{Comparator, Constraint, Function};
use mech_syntax::lexer::Token;
use mech_syntax::syntax::Node;

fn ident(name: &str, id: u64) -> Node {
    Node::Identifier { name: String::from(name), id }
}

fn table(name: &str, id: u64) -> Node {
    Node::Table { name: String::from(name), id }
}

fn constant(value: u64) -> Node {
    Node::Constant { value }
}

fn regs(c: &Compiler) -> (usize, usize, usize) {
    (c.input_registers, c.memory_registers, c.output_registers)
}

#[test]
fn new_compiler_starts_at_first_block_with_one_register_each() {
    let c = Compiler::new();
    assert!(c.blocks.is_empty());
    assert!(c.constraints.is_empty());
    assert!(c.node_stack.is_empty());
    assert_eq!(c.depth, 0);
    assert_eq!(c.section, 1);
    assert_eq!(c.block, 1);
    assert_eq!(regs(&c), (1, 1, 1));
}

#[test]
fn identifier_reads_a_memory_column() {
    let mut c = Compiler::new();
    let r = c.compile_constraint(&ident("x", 5));
    assert_eq!(r, vec![Constraint::Data { table: 0, column: 5 }]);
    assert_eq!(regs(&c), (1, 1, 1));
}

#[test]
fn table_reads_its_first_column() {
    let mut c = Compiler::new();
    let r = c.compile_constraint(&table("t", 9));
    assert_eq!(r, vec![Constraint::Data { table: 9, column: 1 }]);
}

#[test]
fn constant_takes_a_memory_register() {
    let mut c = Compiler::new();
    let r = c.compile_constraint(&constant(3));
    assert_eq!(r, vec![Constraint::Constant { value: 3, memory: 1 }]);
    assert_eq!(regs(&c), (1, 2, 1));
    let r = c.compile_constraint(&constant(4));
    assert_eq!(r, vec![Constraint::Constant { value: 4, memory: 2 }]);
}

#[test]
fn other_leaves_compile_to_nothing() {
    let mut c = Compiler::new();
    assert!(c.compile_constraint(&Node::Null).is_empty());
    assert!(c.compile_constraint(&Node::String { text: String::from("s") }).is_empty());
    assert!(c.compile_constraint(&Node::Token { token: Token::Plus, byte: 43 }).is_empty());
    assert_eq!(regs(&c), (1, 1, 1));
}

#[test]
fn wrappers_concatenate_their_children() {
    let mut c = Compiler::new();
    let n = Node::Statement {
        children: vec![Node::Expression { children: vec![ident("x", 5), constant(2)] }],
    };
    let r = c.compile_constraint(&n);
    assert_eq!(
        r,
        vec![Constraint::Data { table: 0, column: 5 }, Constraint::Constant { value: 2, memory: 1 }]
    );
}

#[test]
fn math_expression_refers_to_its_result_register_first() {
    let mut c = Compiler::new();
    let r = c.compile_constraint(&Node::MathExpression { children: vec![constant(3)] });
    assert_eq!(
        r,
        vec![Constraint::Data { table: 0, column: 1 }, Constraint::Constant { value: 3, memory: 1 }]
    );
    assert_eq!(regs(&c), (1, 2, 1));
}

#[test]
fn function_applies_its_operation_to_two_registers() {
    let mut c = Compiler::new();
    let n = Node::Function { name: String::from("+"), children: vec![constant(1), constant(2)] };
    let r = c.compile_constraint(&n);
    assert_eq!(
        r,
        vec![
            Constraint::Constant { value: 1, memory: 2 },
            Constraint::Constant { value: 2, memory: 3 },
            Constraint::Function { operation: Function::Add, parameters: (2, 3), memory: 1 },
        ]
    );
    assert_eq!(regs(&c), (1, 4, 1));
}

#[test]
fn function_names_select_operations() {
    let names = [("-", Function::Subtract), ("*", Function::Multiply), ("/", Function::Divide), ("^", Function::Add)];
    for (name, op) in names {
        let mut c = Compiler::new();
        let n = Node::Function { name: String::from(name), children: vec![constant(1), constant(2)] };
        let r = c.compile_constraint(&n);
        assert_eq!(r[2], Constraint::Function { operation: op, parameters: (2, 3), memory: 1 });
    }
}

#[test]
fn function_with_one_operand_compiles_to_nothing_but_takes_its_register() {
    let mut c = Compiler::new();
    let n = Node::Function { name: String::from("+"), children: vec![constant(1)] };
    let r = c.compile_constraint(&n);
    assert!(r.is_empty());
    assert_eq!(regs(&c), (1, 3, 1));
}

#[test]
fn filter_compares_its_operands() {
    let mut c = Compiler::new();
    let n = Node::FilterExpression {
        children: vec![constant(1), Node::Token { token: Token::GreaterThan, byte: 62 }, constant(2)],
    };
    let r = c.compile_constraint(&n);
    assert_eq!(
        r,
        vec![
            Constraint::Filter { comparator: Comparator::GreaterThan, lhs: 2, rhs: 3, memory: 1 },
            Constraint::Constant { value: 1, memory: 2 },
            Constraint::Constant { value: 2, memory: 3 },
        ]
    );
}

#[test]
fn filter_comparators() {
    let cases = [(Token::LessThan, 60u8, Comparator::LessThan), (Token::Equal, 61u8, Comparator::Equal)];
    for (token, byte, cmp) in cases {
        let mut c = Compiler::new();
        let n = Node::FilterExpression {
            children: vec![constant(1), Node::Token { token, byte }, constant(2)],
        };
        let r = c.compile_constraint(&n);
        assert_eq!(r[0], Constraint::Filter { comparator: cmp, lhs: 2, rhs: 3, memory: 1 });
    }
}

#[test]
fn filter_on_selected_data_reads_the_copied_register() {
    let mut c = Compiler::new();
    let n = Node::FilterExpression {
        children: vec![
            Node::SelectData { children: vec![ident("x", 5)] },
            Node::Token { token: Token::LessThan, byte: 60 },
            constant(7),
        ],
    };
    let r = c.compile_constraint(&n);
    assert_eq!(
        r,
        vec![
            Constraint::Filter { comparator: Comparator::LessThan, lhs: 2, rhs: 3, memory: 1 },
            Constraint::Scan { table: 0, column: 5, input: 1 },
            Constraint::CopyInput { input: 1, memory: 2 },
            Constraint::Constant { value: 7, memory: 3 },
        ]
    );
}

#[test]
fn select_data_scans_and_copies() {
    let mut c = Compiler::new();
    let r = c.compile_constraint(&Node::SelectData { children: vec![ident("x", 5), table("t", 9)] });
    assert_eq!(
        r,
        vec![
            Constraint::Scan { table: 0, column: 5, input: 1 },
            Constraint::CopyInput { input: 1, memory: 1 },
            Constraint::Scan { table: 9, column: 1, input: 2 },
            Constraint::CopyInput { input: 2, memory: 2 },
        ]
    );
    assert_eq!(regs(&c), (3, 3, 1));
}

#[test]
fn select_expression_leads_each_scan_with_its_first_register() {
    let mut c = Compiler::new();
    let r = c.compile_constraint(&Node::SelectExpression { children: vec![ident("x", 5)] });
    assert_eq!(
        r,
        vec![
            Constraint::Data { table: 0, column: 1 },
            Constraint::Scan { table: 0, column: 5, input: 1 },
            Constraint::CopyInput { input: 1, memory: 1 },
        ]
    );
}

#[test]
fn data_with_dot_index_reads_the_named_column() {
    let mut c = Compiler::new();
    let n = Node::Data {
        children: vec![table("t", 9), Node::DotIndex { rows: vec![], columns: vec![ident("c", 4)] }],
    };
    assert_eq!(c.compile_constraint(&n), vec![Constraint::Data { table: 9, column: 4 }]);
}

#[test]
fn data_without_index_reads_the_first_column() {
    let mut c = Compiler::new();
    let n = Node::Data { children: vec![table("t", 9)] };
    assert_eq!(c.compile_constraint(&n), vec![Constraint::Data { table: 9, column: 1 }]);
}

#[test]
fn data_with_bracket_index_masks_in_reverse_order() {
    let mut c = Compiler::new();
    let n = Node::Data {
        children: vec![
            table("t", 9),
            Node::DotIndex {
                rows: vec![],
                columns: vec![
                    ident("c", 4),
                    Node::BracketIndex { rows: vec![], columns: vec![ident("m", 6)] },
                ],
            },
        ],
    };
    assert_eq!(
        c.compile_constraint(&n),
        vec![
            Constraint::IndexMask { source: 0, truth: 6, memory: 1 },
            Constraint::Data { table: 9, column: 4 },
        ]
    );
    assert_eq!(regs(&c), (1, 2, 1));
}

#[test]
fn data_with_other_children_compiles_them_all() {
    let mut c = Compiler::new();
    let n = Node::Data { children: vec![ident("x", 5)] };
    assert_eq!(
        c.compile_constraint(&n),
        vec![Constraint::Data { table: 0, column: 5 }, Constraint::Data { table: 0, column: 1 }]
    );
}

#[test]
fn set_data_inserts_the_result_into_the_table() {
    let mut c = Compiler::new();
    let n = Node::SetData {
        children: vec![
            Node::Data { children: vec![table("t", 9)] },
            Node::MathExpression { children: vec![constant(3)] },
        ],
    };
    assert_eq!(
        c.compile_constraint(&n),
        vec![
            Constraint::Insert { memory: 1, table: 9, column: 1 },
            Constraint::Constant { value: 3, memory: 1 },
        ]
    );
    assert_eq!(regs(&c), (1, 2, 2));
}

#[test]
fn set_data_through_an_index_chains_the_masks() {
    let mut c = Compiler::new();
    let lhs = Node::Data {
        children: vec![
            table("t", 9),
            Node::DotIndex {
                rows: vec![],
                columns: vec![
                    Node::BracketIndex { rows: vec![], columns: vec![ident("m", 6)] },
                    ident("c", 4),
                ],
            },
        ],
    };
    let n = Node::SetData {
        children: vec![lhs, Node::MathExpression { children: vec![constant(3)] }],
    };
    assert_eq!(
        c.compile_constraint(&n),
        vec![
            Constraint::IndexMask { source: 2, truth: 6, memory: 1 },
            Constraint::Insert { memory: 1, table: 9, column: 4 },
            Constraint::Constant { value: 3, memory: 2 },
        ]
    );
}

#[test]
fn set_data_whose_target_is_not_data_writes_to_memory() {
    let mut c = Compiler::new();
    let lhs = Node::Data {
        children: vec![
            table("t", 9),
            Node::DotIndex {
                rows: vec![],
                columns: vec![
                    ident("c", 4),
                    Node::BracketIndex { rows: vec![], columns: vec![ident("m", 6)] },
                ],
            },
        ],
    };
    let n = Node::SetData {
        children: vec![lhs, Node::MathExpression { children: vec![constant(3)] }],
    };
    assert_eq!(
        c.compile_constraint(&n),
        vec![
            Constraint::Insert { memory: 2, table: 0, column: 1 },
            Constraint::Constant { value: 3, memory: 2 },
        ]
    );
}

#[test]
fn data_watch_scans_for_changes() {
    let mut c = Compiler::new();
    let n = Node::DataWatch { children: vec![ident("x", 5), table("t", 9), constant(1)] };
    assert_eq!(
        c.compile_constraint(&n),
        vec![
            Constraint::ChangeScan { table: 0, column: 5, input: 1 },
            Constraint::ChangeScan { table: 9, column: 1, input: 2 },
        ]
    );
    assert_eq!(regs(&c), (3, 2, 1));
}

#[test]
fn binding_inserts_the_next_memory_register() {
    let mut c = Compiler::new();
    let n = Node::Binding { children: vec![constant(7)] };
    assert_eq!(
        c.compile_constraint(&n),
        vec![
            Constraint::Insert { memory: 1, table: 0, column: 0 },
            Constraint::Constant { value: 7, memory: 1 },
        ]
    );
    assert_eq!(regs(&c), (1, 2, 2));
}

#[test]
fn column_names_the_last_memory_register() {
    let mut c = Compiler::new();
    let n = Node::Column { children: vec![ident("x", 5), constant(7)] };
    assert_eq!(
        c.compile_constraint(&n),
        vec![Constraint::Identifier { id: 5, memory: 1 }, Constraint::Constant { value: 7, memory: 1 }]
    );
}

#[test]
fn row_define_assigns_columns_to_inserts() {
    let mut c = Compiler::new();
    let n = Node::RowDefine {
        children: vec![
            Node::Column { children: vec![ident("x", 5)] },
            Node::Binding { children: vec![constant(7)] },
        ],
    };
    assert_eq!(
        c.compile_constraint(&n),
        vec![
            Constraint::Identifier { id: 5, memory: 0 },
            Constraint::Insert { memory: 1, table: 0, column: 5 },
            Constraint::Constant { value: 7, memory: 1 },
        ]
    );
}

#[test]
fn column_define_names_its_register() {
    let mut c = Compiler::new();
    let n = Node::ColumnDefine { children: vec![ident("x", 5), constant(7)] };
    assert_eq!(
        c.compile_constraint(&n),
        vec![Constraint::Identifier { id: 5, memory: 1 }, Constraint::Constant { value: 7, memory: 1 }]
    );
}

#[test]
fn table_define_creates_the_table() {
    let mut c = Compiler::new();
    let n = Node::TableDefine { children: vec![table("t", 9), constant(7)] };
    assert_eq!(
        c.compile_constraint(&n),
        vec![
            Constraint::Constant { value: 7, memory: 1 },
            Constraint::NewTable { id: 9, rows: 1, columns: 1 },
        ]
    );
}

#[test]
fn table_define_inserts_memory_columns() {
    let mut c = Compiler::new();
    let n = Node::TableDefine {
        children: vec![table("t", 9), ident("x", 5), Node::Binding { children: vec![constant(2)] }],
    };
    assert_eq!(
        c.compile_constraint(&n),
        vec![
            Constraint::Insert { memory: 5, table: 9, column: 1 },
            Constraint::Insert { memory: 1, table: 9, column: 0 },
            Constraint::Constant { value: 2, memory: 1 },
            Constraint::NewTable { id: 9, rows: 1, columns: 1 },
        ]
    );
    assert_eq!(regs(&c), (1, 2, 3));
}

#[test]
fn add_row_appends_to_the_table() {
    let mut c = Compiler::new();
    let n = Node::AddRow {
        children: vec![table("t", 9), Node::Binding { children: vec![constant(7)] }],
    };
    assert_eq!(
        c.compile_constraint(&n),
        vec![
            Constraint::Append { memory: 1, table: 9, column: 0 },
            Constraint::Constant { value: 7, memory: 1 },
        ]
    );
}

#[test]
fn compile_constraints_concatenates_in_order() {
    let mut c = Compiler::new();
    let r = c.compile_constraints(&vec![constant(1), ident("x", 5), constant(2)]);
    assert_eq!(
        r,
        vec![
            Constraint::Constant { value: 1, memory: 1 },
            Constraint::Data { table: 0, column: 5 },
            Constraint::Constant { value: 2, memory: 2 },
        ]
    );
    assert_eq!(regs(&c), (1, 3, 1));
}
