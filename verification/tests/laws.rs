use mech_syntax::compiler::Compiler;
use mech_syntax::encodings::{byte_to_char, byte_to_digit};
use mech_syntax::lexer::Token;
use mech_syntax::parser;
use mech_syntax::syntax::Node;
use mech_syntax::text::decimal_string;

fn sample_nodes() -> Vec<Node> {
    vec![
        Node::Constant { value: 3 },
        Node::SelectData { children: vec![Node::Identifier { name: String::from("x"), id: 5 }] },
        Node::Binding { children: vec![Node::Constant { value: 7 }] },
        Node::DataWatch { children: vec![Node::Table { name: String::from("t"), id: 9 }] },
        Node::Function {
            name: String::from("*"),
            children: vec![Node::Constant { value: 1 }, Node::Constant { value: 2 }],
        },
    ]
}

#[test]
fn registers_never_decrease() {
    let mut c = Compiler::new();
    for n in sample_nodes() {
        let before = (c.input_registers, c.memory_registers, c.output_registers);
        c.compile_constraint(&n);
        assert!(c.input_registers >= before.0);
        assert!(c.memory_registers >= before.1);
        assert!(c.output_registers >= before.2);
    }
}

#[test]
fn compiling_a_concatenation_is_compiling_each_part() {
    let all = sample_nodes();
    let mut whole = Compiler::new();
    let together = whole.compile_constraints(&all);
    let mut parts = Compiler::new();
    let (a, b) = all.split_at(2);
    let mut first = parts.compile_constraints(&a.iter().map(|n| n.duplicate()).collect());
    let mut second = parts.compile_constraints(&b.iter().map(|n| n.duplicate()).collect());
    first.append(&mut second);
    assert_eq!(together, first);
    assert_eq!(whole.memory_registers, parts.memory_registers);
    assert_eq!(whole.input_registers, parts.input_registers);
    assert_eq!(whole.output_registers, parts.output_registers);
}

#[test]
fn blocks_do_not_depend_on_earlier_registers() {
    let mut a = Compiler::new();
    let mut b = Compiler::new();
    b.memory_registers = 40;
    b.input_registers = 30;
    b.output_registers = 20;
    let ba = a.compile_blocks(Node::Block { children: sample_nodes() });
    let bb = b.compile_blocks(Node::Block { children: sample_nodes() });
    assert_eq!(ba[0].constraints, bb[0].constraints);
    assert_eq!(ba[0].name, bb[0].name);
    assert_eq!(a.memory_registers, b.memory_registers);
}

#[test]
fn a_section_moves_to_the_first_block_of_the_next() {
    let mut c = Compiler::new();
    c.compile_blocks(Node::Section { children: Vec::new() });
    assert_eq!((c.section, c.block), (2, 1));
    c.compile_blocks(Node::Section {
        children: vec![Node::Block { children: vec![] }, Node::Block { children: vec![] }],
    });
    assert_eq!((c.section, c.block), (3, 1));
}

#[test]
fn building_counts_every_parse_node() {
    let tree = parser::Node::Root {
        children: vec![
            parser::Node::Block {
                children: vec![
                    parser::Node::Number { children: vec![parser::Node::Token { token: Token::Digit, byte: b'1' }] },
                    parser::Node::Null,
                ],
            },
            parser::Node::Token { token: Token::Space, byte: b' ' },
        ],
    };
    let mut c = Compiler::new();
    c.build_syntax_tree(tree);
    assert_eq!(c.depth, 6);
}

#[test]
fn a_number_reads_back_its_numeral() {
    for v in [0u64, 5, 10, 907, 123456789, u64::MAX] {
        let digits: Vec<parser::Node> = decimal_string(v)
            .bytes()
            .map(|b| parser::Node::Token { token: Token::Digit, byte: b })
            .collect();
        let mut c = Compiler::new();
        let r = c.build_syntax_tree(parser::Node::Number { children: digits });
        assert_eq!(format!("{:?}", r), format!("{:?}", vec![Node::Constant { value: v }]));
    }
}

#[test]
fn math_expressions_keep_no_tokens() {
    let mut c = Compiler::new();
    let r = c.build_syntax_tree(parser::Node::MathExpression {
        children: vec![
            parser::Node::Token { token: Token::Space, byte: b' ' },
            parser::Node::Token { token: Token::Plus, byte: b'+' },
        ],
    });
    match &r[0] {
        Node::MathExpression { children } => assert!(children.is_empty()),
        _ => panic!("a math expression"),
    }
}

#[test]
fn digit_bytes_decode_to_their_digit_characters() {
    for b in 0u8..=255 {
        if let Some(d) = byte_to_digit(b) {
            assert!(d < 10);
            assert_eq!(byte_to_char(b), char::from_digit(d as u32, 10));
        }
    }
}

#[test]
fn block_names_never_repeat_within_a_compilation() {
    let mut c = Compiler::new();
    let tree = Node::Root {
        children: vec![
            Node::Section { children: vec![Node::Block { children: vec![] }, Node::Fragment { children: vec![] }] },
            Node::Block { children: vec![] },
            Node::Section { children: vec![Node::Block { children: vec![] }] },
        ],
    };
    c.compile_blocks(tree);
    let names: Vec<String> = c.blocks.iter().map(|b| b.name.clone()).collect();
    assert_eq!(names, vec!["1,1", "1,2", "2,1", "2,2"]);
    for i in 0..names.len() {
        for j in i + 1..names.len() {
            assert_ne!(names[i], names[j]);
        }
    }
}

#[test]
fn a_later_compilation_names_its_blocks_apart() {
    let mut c = Compiler::new();
    c.compile_blocks(Node::Root { children: vec![Node::Block { children: vec![] }, Node::Block { children: vec![] }] });
    let first: Vec<String> = c.blocks.iter().map(|b| b.name.clone()).collect();
    c.compile_blocks(Node::Root { children: vec![Node::Block { children: vec![] }] });
    let second: Vec<String> = c.blocks.iter().map(|b| b.name.clone()).collect();
    assert_eq!(first, vec!["1,1", "1,2"]);
    assert_eq!(second, vec!["1,3"]);
}

#[test]
fn compiling_children_of_a_concatenation_is_compiling_each_part() {
    let part_a = vec![Node::Block { children: vec![Node::Constant { value: 1 }] }, Node::Null];
    let part_b = vec![Node::Section { children: vec![Node::Block { children: vec![] }] }, Node::Block { children: vec![] }];
    let mut whole = Compiler::new();
    let mut all = part_a.clone();
    all.extend(part_b.clone());
    let together = whole.compile_children(all);
    let mut parts = Compiler::new();
    let mut first = parts.compile_children(part_a);
    let mut second = parts.compile_children(part_b);
    first.append(&mut second);
    let names = |v: &Vec<mech_syntax::constraint::Block>| v.iter().map(|b| b.name.clone()).collect::<Vec<_>>();
    assert_eq!(names(&together), names(&first));
    assert_eq!((whole.section, whole.block), (parts.section, parts.block));
    let mut empty = Compiler::new();
    assert!(empty.compile_children(vec![]).is_empty());
    assert_eq!((empty.section, empty.block), (1, 1));
}

#[test]
fn building_a_concatenation_is_building_each_part() {
    let digit = |b: u8| parser::Node::Number { children: vec![parser::Node::Token { token: Token::Digit, byte: b }] };
    let mut whole = Compiler::new();
    let together = whole.compile_nodes(vec![digit(b'1'), digit(b'2'), digit(b'3')]);
    let mut parts = Compiler::new();
    let mut first = parts.compile_nodes(vec![digit(b'1')]);
    let mut second = parts.compile_nodes(vec![digit(b'2'), digit(b'3')]);
    first.append(&mut second);
    assert_eq!(together, first);
    assert_eq!(whole.depth, parts.depth);
    assert!(Compiler::new().compile_nodes(vec![]).is_empty());
}

#[test]
fn wrapper_nodes_compile_as_their_children() {
    let children = sample_nodes();
    let mut a = Compiler::new();
    let wrapped = a.compile_constraint(&Node::Statement { children: children.clone() });
    let mut b = Compiler::new();
    let plain = b.compile_constraints(&children);
    assert_eq!(wrapped, plain);
    assert_eq!(a.memory_registers, b.memory_registers);
}

#[test]
fn fragments_compile_as_blocks() {
    let mut a = Compiler::new();
    let mut b = Compiler::new();
    let fa = a.compile_blocks(Node::Fragment { children: sample_nodes() });
    let fb = b.compile_blocks(Node::Block { children: sample_nodes() });
    assert_eq!(fa[0].name, fb[0].name);
    assert_eq!(fa[0].id, fb[0].id);
    assert_eq!(fa[0].constraints, fb[0].constraints);
}

#[test]
fn grouping_rules_pass_their_nodes_on() {
    let digit = |b: u8| parser::Node::Number { children: vec![parser::Node::Token { token: Token::Digit, byte: b }] };
    let mut a = Compiler::new();
    let r = a.build_syntax_tree(parser::Node::StatementOrExpression { children: vec![digit(b'4')] });
    assert_eq!(r, vec![Node::Constant { value: 4 }]);
    let r = a.build_syntax_tree(parser::Node::DataWatch { children: vec![digit(b'5')] });
    assert_eq!(r, vec![Node::DataWatch { children: vec![Node::Constant { value: 5 }] }]);
}
