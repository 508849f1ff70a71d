use mech_syntax::compiler::Compiler;
use mech_syntax::lexer::Token;
use mech_syntax::parser::{self, Parts, Rule};
use mech_syntax::syntax::{Kind, Node};
use mech_syntax::syntax_build::shape_of;

fn tok(token: Token, byte: u8) -> parser::Node {
    parser::Node::Token { token, byte }
}

fn digits(s: &str) -> Vec<parser::Node> {
    s.bytes().map(|b| tok(Token::Digit, b)).collect()
}

fn letters(s: &str) -> Vec<parser::Node> {
    s.bytes().map(|b| tok(Token::Alpha, b)).collect()
}

fn show(v: &Vec<Node>) -> String {
    format!("{:?}", v)
}

#[test]
fn token_leaf_becomes_a_token_node() {
    let mut c = Compiler::new();
    let r = c.build_syntax_tree(tok(Token::Plus, 43));
    assert_eq!(show(&r), show(&vec![Node::Token { token: Token::Plus, byte: 43 }]));
    assert_eq!(c.depth, 1);
}

#[test]
fn number_reads_its_digits() {
    let mut c = Compiler::new();
    let r = c.build_syntax_tree(parser::Node::Number { children: digits("42") });
    assert_eq!(show(&r), show(&vec![Node::Constant { value: 42 }]));
    assert_eq!(c.depth, 3);
    let r = c.build_syntax_tree(parser::Node::Number { children: digits("7") });
    assert_eq!(show(&r), show(&vec![Node::Constant { value: 7 }]));
}

#[test]
fn word_spells_its_letters() {
    let mut c = Compiler::new();
    let r = c.build_syntax_tree(parser::Node::Word { children: letters("hi") });
    assert_eq!(show(&r), show(&vec![Node::String { text: String::from("hi") }]));
}

#[test]
fn identifier_is_named_and_hashed() {
    let mut c = Compiler::new();
    let r = c.build_syntax_tree(parser::Node::Identifier { children: letters("foo") });
    assert_eq!(show(&r), show(&vec![Node::Identifier { name: String::from("foo"), id: 7303014 }]));
}

#[test]
fn table_takes_its_identifier() {
    let mut c = Compiler::new();
    let r = c.build_syntax_tree(parser::Node::Table {
        children: vec![tok(Token::HashTag, b'#'), parser::Node::Identifier { children: letters("t") }],
    });
    assert_eq!(show(&r), show(&vec![Node::Table { name: String::from("t"), id: 116 }]));
}

#[test]
fn infix_names_its_operator() {
    let mut c = Compiler::new();
    let r = c.build_syntax_tree(parser::Node::Infix { children: vec![tok(Token::Plus, b'+')] });
    assert_eq!(show(&r), show(&vec![Node::Function { name: String::from("+"), children: vec![] }]));
}

#[test]
fn levels_fold_operators_left_to_right() {
    let mut c = Compiler::new();
    let infix = |op: u8, n: &str| parser::Node::L1Infix {
        children: vec![
            tok(Token::Space, b' '),
            tok(Token::Plus, op),
            tok(Token::Space, b' '),
            parser::Node::Number { children: digits(n) },
        ],
    };
    let r = c.build_syntax_tree(parser::Node::L1 {
        children: vec![parser::Node::Number { children: digits("1") }, infix(b'+', "2"), infix(b'-', "3")],
    });
    let inner = Node::Function {
        name: String::from("+"),
        children: vec![Node::Constant { value: 1 }, Node::Constant { value: 2 }],
    };
    let expected = Node::Function { name: String::from("-"), children: vec![inner, Node::Constant { value: 3 }] };
    assert_eq!(show(&r), show(&vec![expected]));
}

#[test]
fn text_joins_words_and_spaces() {
    let mut c = Compiler::new();
    let r = c.build_syntax_tree(parser::Node::Paragraph {
        children: vec![parser::Node::Text {
            children: vec![
                parser::Node::Word { children: letters("hi") },
                tok(Token::Space, b' '),
                parser::Node::Word { children: letters("there") },
            ],
        }],
    });
    assert_eq!(show(&r), show(&vec![Node::Paragraph { text: String::from("hi there") }]));
}

#[test]
fn title_takes_its_third_child() {
    let mut c = Compiler::new();
    let r = c.build_syntax_tree(parser::Node::Title {
        children: vec![
            tok(Token::HashTag, b'#'),
            tok(Token::Space, b' '),
            parser::Node::Text { children: vec![parser::Node::Word { children: letters("T") }] },
        ],
    });
    assert_eq!(show(&r), show(&vec![Node::Title { text: String::from("T") }]));
}

#[test]
fn title_without_text_is_null() {
    let mut c = Compiler::new();
    let r = c.build_syntax_tree(parser::Node::Title {
        children: vec![tok(Token::HashTag, b'#'), tok(Token::Space, b' '), tok(Token::Space, b' ')],
    });
    assert_eq!(show(&r), show(&vec![Node::Null]));
}

#[test]
fn math_expression_drops_tokens_and_filter_drops_spaces() {
    let mut c = Compiler::new();
    let r = c.build_syntax_tree(parser::Node::MathExpression {
        children: vec![tok(Token::Space, b' '), parser::Node::Number { children: digits("5") }, tok(Token::Plus, b'+')],
    });
    assert_eq!(show(&r), show(&vec![Node::MathExpression { children: vec![Node::Constant { value: 5 }] }]));
    let r = c.build_syntax_tree(parser::Node::FilterExpression {
        children: vec![tok(Token::Space, b' '), tok(Token::GreaterThan, b'>'), tok(Token::Space, b' ')],
    });
    assert_eq!(
        show(&r),
        show(&vec![Node::FilterExpression { children: vec![Node::Token { token: Token::GreaterThan, byte: b'>' }] }])
    );
}

#[test]
fn dot_index_keeps_its_columns() {
    let mut c = Compiler::new();
    let r = c.build_syntax_tree(parser::Node::Index {
        children: vec![parser::Node::DotIndex {
            children: vec![tok(Token::Period, b'.'), parser::Node::Identifier { children: letters("x") }],
        }],
    });
    let expected = Node::DotIndex {
        rows: vec![],
        columns: vec![Node::Identifier { name: String::from("x"), id: 120 }],
    };
    assert_eq!(show(&r), show(&vec![expected]));
}

#[test]
fn pass_through_rules_hand_on_their_children() {
    let mut c = Compiler::new();
    let r = c.build_syntax_tree(parser::Node::IdentifierOrNumber {
        children: vec![parser::Node::Number { children: digits("1") }, parser::Node::Number { children: digits("2") }],
    });
    assert_eq!(show(&r), show(&vec![Node::Constant { value: 1 }, Node::Constant { value: 2 }]));
    let r = c.build_syntax_tree(parser::Node::Whitespace { children: vec![tok(Token::Space, b' ')] });
    assert!(r.is_empty());
    let r = c.build_syntax_tree(parser::Node::Null);
    assert!(r.is_empty());
}

#[test]
fn root_replaces_the_syntax_tree() {
    let mut c = Compiler::new();
    let r = c.build_syntax_tree(parser::Node::Root {
        children: vec![parser::Node::Block { children: vec![parser::Node::Number { children: digits("3") }] }],
    });
    assert!(r.is_empty());
    let expected = Node::Root { children: vec![Node::Block { children: vec![Node::Constant { value: 3 }] }] };
    assert_eq!(format!("{:?}", c.syntax_tree), format!("{:?}", expected));
    assert_eq!(c.depth, 4);
}

#[test]
fn compile_nodes_concatenates() {
    let mut c = Compiler::new();
    let r = c.compile_nodes(vec![parser::Node::Number { children: digits("12") }, tok(Token::Space, b' ')]);
    assert_eq!(
        show(&r),
        show(&vec![Node::Constant { value: 12 }, Node::Token { token: Token::Space, byte: b' ' }])
    );
    assert_eq!(c.depth, 4);
}

#[test]
fn shape_of_wraps_and_filters() {
    let r = shape_of(Rule::Binding, vec![Node::Token { token: Token::Colon, byte: b':' }, Node::Constant { value: 1 }]);
    assert_eq!(show(&r), show(&vec![Node::Binding { children: vec![Node::Constant { value: 1 }] }]));
    let r = shape_of(Rule::Index, vec![Node::Null]);
    assert_eq!(show(&r), show(&vec![Node::Null]));
}

#[test]
fn parse_nodes_come_apart_and_together() {
    let n = parser::Node::from_parts(Rule::Number, digits("9"));
    assert_eq!(format!("{:?}", n), format!("{:?}", parser::Node::Number { children: digits("9") }));
    match n.into_parts() {
        Parts::Branch(rule, children) => {
            assert_eq!(rule, Rule::Number);
            assert_eq!(children.len(), 1);
        },
        _ => panic!("a number is a branch"),
    }
    match tok(Token::Digit, b'9').into_parts() {
        Parts::Leaf(t, b) => {
            assert_eq!(t, Token::Digit);
            assert_eq!(b, b'9');
        },
        _ => panic!("a token is a leaf"),
    }
    assert!(matches!(parser::Node::Null.into_parts(), Parts::Null));
}

#[test]
fn duplicates_are_equal_copies() {
    let p = parser::Node::Root { children: vec![parser::Node::Number { children: digits("12") }] };
    assert_eq!(format!("{:?}", p.duplicate()), format!("{:?}", p));
    let s = Node::branch(Kind::Block, vec![Node::Constant { value: 1 }, Node::Null]);
    assert_eq!(format!("{:?}", s), format!("{:?}", Node::Block { children: vec![Node::Constant { value: 1 }, Node::Null] }));
    assert_eq!(format!("{:?}", s.duplicate()), format!("{:?}", s));
}

#[test]
fn whitespace_and_newline_leave_their_children_alone() {
    let mut c = Compiler::new();
    let r = c.build_syntax_tree(parser::Node::Whitespace { children: vec![tok(Token::Space, b' ')] });
    assert!(r.is_empty());
    assert_eq!(c.depth, 1);
    let mut c = Compiler::new();
    let r = c.build_syntax_tree(parser::Node::Newline {
        children: vec![parser::Node::Number { children: vec![tok(Token::Digit, 95)] }],
    });
    assert!(r.is_empty());
    assert_eq!(c.depth, 1);
    let mut c = Compiler::new();
    c.build_syntax_tree(parser::Node::Whitespace {
        children: vec![parser::Node::Root { children: vec![parser::Node::Number { children: digits("3") }] }],
    });
    assert_eq!(format!("{:?}", c.syntax_tree), format!("{:?}", Node::Root { children: vec![] }));
}
