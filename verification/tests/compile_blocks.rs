use mech_syntax::compiler::Compiler;
use mech_syntax::constraint::Constraint;
use mech_syntax::lexer::Token;
use mech_syntax::parser;
use mech_syntax::syntax::Node;

fn ident(name: &str, id: u64) -> Node {
    Node::Identifier { name: String::from(name), id }
}

#[test]
fn block_is_named_after_section_and_block() {
    let mut c = Compiler::new();
    let blocks = c.compile_blocks(Node::Block { children: vec![ident("x", 5)] });
    assert_eq!(blocks.len(), 1);
    assert_eq!(blocks[0].name, "1,1");
    assert_eq!(blocks[0].id, 3222577);
    assert_eq!(blocks[0].constraints, vec![Constraint::Data { table: 0, column: 5 }]);
    assert_eq!(c.block, 2);
    assert_eq!(c.section, 1);
}

#[test]
fn block_starts_from_fresh_registers() {
    let mut c = Compiler::new();
    c.memory_registers = 10;
    c.input_registers = 4;
    c.output_registers = 7;
    let blocks = c.compile_blocks(Node::Fragment { children: vec![Node::Constant { value: 3 }] });
    assert_eq!(blocks[0].constraints, vec![Constraint::Constant { value: 3, memory: 1 }]);
    assert_eq!(c.memory_registers, 2);
    assert_eq!(c.input_registers, 1);
    assert_eq!(c.output_registers, 1);
}

#[test]
fn root_sets_the_compilers_blocks() {
    let mut c = Compiler::new();
    let r = c.compile_blocks(Node::Root {
        children: vec![Node::Block { children: vec![ident("x", 5)] }, Node::Block { children: vec![] }],
    });
    assert!(r.is_empty());
    assert_eq!(c.blocks.len(), 2);
    assert_eq!(c.blocks[0].name, "1,1");
    assert_eq!(c.blocks[1].name, "1,2");
    assert_eq!(c.blocks[1].id, 3288113);
    assert!(c.blocks[1].constraints.is_empty());
}

#[test]
fn sections_restart_block_numbers() {
    let mut c = Compiler::new();
    let r = c.compile_blocks(Node::Program {
        children: vec![
            Node::Section {
                children: vec![Node::Block { children: vec![] }, Node::Block { children: vec![] }],
            },
            Node::Section { children: vec![Node::Fragment { children: vec![] }] },
        ],
    });
    let names: Vec<String> = r.iter().map(|b| b.name.clone()).collect();
    assert_eq!(names, vec!["1,1", "1,2", "2,1"]);
    assert_eq!(r[2].id, 3222578);
    assert_eq!(c.section, 3);
    assert_eq!(c.block, 1);
}

#[test]
fn body_and_program_pass_their_blocks_through() {
    let mut c = Compiler::new();
    let r = c.compile_blocks(Node::Body {
        children: vec![Node::Program { children: vec![Node::Block { children: vec![] }] }],
    });
    assert_eq!(r.len(), 1);
    assert_eq!(r[0].name, "1,1");
}

#[test]
fn other_nodes_give_no_blocks() {
    let mut c = Compiler::new();
    assert!(c.compile_blocks(Node::Head { children: vec![Node::Block { children: vec![] }] }).is_empty());
    assert!(c.compile_blocks(ident("x", 5)).is_empty());
    assert!(c.compile_blocks(Node::Null).is_empty());
    assert_eq!(c.block, 1);
}

#[test]
fn compile_children_concatenates_blocks() {
    let mut c = Compiler::new();
    let r = c.compile_children(vec![
        Node::Block { children: vec![ident("x", 5)] },
        Node::Null,
        Node::Block { children: vec![Node::Constant { value: 1 }] },
    ]);
    assert_eq!(r.len(), 2);
    assert_eq!(r[0].name, "1,1");
    assert_eq!(r[1].name, "1,2");
    assert_eq!(r[1].constraints, vec![Constraint::Constant { value: 1, memory: 1 }]);
}

#[test]
fn compile_parse_tree_builds_and_compiles() {
    let mut c = Compiler::new();
    let tree = parser::Node::Root {
        children: vec![parser::Node::Fragment {
            children: vec![parser::Node::Statement {
                children: vec![parser::Node::Identifier {
                    children: vec![parser::Node::Token { token: Token::Alpha, byte: b'x' }],
                }],
            }],
        }],
    };
    let expected_parse = format!("{:?}", tree);
    let n = c.compile_parse_tree(tree).len();
    assert_eq!(n, 1);
    assert_eq!(c.blocks[0].name, "1,1");
    assert_eq!(c.blocks[0].constraints, vec![Constraint::Data { table: 0, column: 120 }]);
    assert_eq!(c.depth, 5);
    assert_eq!(format!("{:?}", c.parse_tree), expected_parse);
    let expected_tree = Node::Root {
        children: vec![Node::Fragment {
            children: vec![Node::Statement { children: vec![ident("x", 120)] }],
        }],
    };
    assert_eq!(format!("{:?}", c.syntax_tree), format!("{:?}", expected_tree));
}
