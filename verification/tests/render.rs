use mech_syntax::lexer::Token;
use mech_syntax::render::{fits_at_level, format_tree, spacer_string};
use mech_syntax::syntax::Node;

fn ident(name: &str, id: u64) -> Node {
    Node::Identifier { name: String::from(name), id }
}

#[test]
fn spacer_draws_bars_then_a_branch() {
    assert_eq!(spacer_string(0), "├");
    assert_eq!(spacer_string(1), "├");
    assert_eq!(spacer_string(2), "│├");
    assert_eq!(spacer_string(4), "│││├");
}

#[test]
fn tree_lines_are_indented_by_level() {
    let n = Node::Root { children: vec![Node::Block { children: vec![Node::Constant { value: 42 }] }] };
    assert_eq!(format_tree(&n, 0), "├Root\n├Block\n│├42\n");
    assert_eq!(format_tree(&n, 2), "│├Root\n││├Block\n│││├42\n");
}

#[test]
fn leaves_render_their_contents() {
    assert_eq!(format_tree(&ident("x", 120), 0), "├x(120)\n");
    assert_eq!(format_tree(&Node::Table { name: String::from("t"), id: 116 }, 0), "├#t(116)\n");
    assert_eq!(format_tree(&Node::Define { name: String::from("d"), id: 100 }, 0), "├Define #d(100)\n");
    assert_eq!(format_tree(&Node::String { text: String::from("hi") }, 0), "├String(\"hi\")\n");
    assert_eq!(format_tree(&Node::Title { text: String::from("T") }, 0), "├Title(\"T\")\n");
    assert_eq!(format_tree(&Node::Paragraph { text: String::from("p q") }, 0), "├Paragraph(\"p q\")\n");
    assert_eq!(format_tree(&Node::Token { token: Token::Plus, byte: 43 }, 0), "├Token(Plus)\n");
    assert_eq!(format_tree(&Node::Null, 0), "├Null\n");
}

#[test]
fn quoted_text_is_escaped() {
    assert_eq!(format_tree(&Node::String { text: String::from("a\"b") }, 0), "├String(\"a\\\"b\")\n");
}

#[test]
fn functions_render_their_name_and_children() {
    let n = Node::Function { name: String::from("+"), children: vec![Node::Constant { value: 1 }] };
    assert_eq!(format_tree(&n, 0), "├Function(\"+\")\n├1\n");
}

#[test]
fn indexes_render_their_lists_inline() {
    let n = Node::DotIndex { rows: vec![], columns: vec![ident("x", 120), ident("y", 121)] };
    assert_eq!(format_tree(&n, 0), "├DotIndex[rows: [], columns: [├x(120)\n, ├y(121)\n]]\n");
    let b = Node::BracketIndex { rows: vec![Node::Null], columns: vec![] };
    assert_eq!(format_tree(&b, 3), "││├BracketIndex[rows: [├Null\n], columns: []]\n");
}

#[test]
fn fits_at_level_checks_the_depth() {
    let leaf = Node::Null;
    let parent = Node::Root { children: vec![Node::Null] };
    let empty = Node::Root { children: vec![] };
    assert!(fits_at_level(&leaf, usize::MAX));
    assert!(fits_at_level(&empty, usize::MAX));
    assert!(!fits_at_level(&parent, usize::MAX));
    assert!(fits_at_level(&parent, usize::MAX - 1));
    assert!(fits_at_level(&parent, 0));
}

#[test]
fn token_names_match_their_debug_form() {
    for t in [Token::Plus, Token::Digit, Token::HashTag, Token::EndOfStream, Token::Space] {
        assert_eq!(t.name(), format!("{:?}", t));
    }
}
