//! Rendering syntax trees as indented text, one node per line.

use vstd::prelude::*;
use vstd::string::*;
use crate::lexer::token_name;
use crate::syntax::{Kind, Node, Tree, trees};
use crate::text::{debug_string, debug_text, decimal, push_char, push_decimal, push_text};

verus! {

/// `n` copies of `c`.
pub open spec fn repeat(c: char, n: nat) -> Seq<char> {
    Seq::new(n, |_i: int| c)
}

/// The indentation of a line at `width`: a vertical bar for each level above
/// the first, then a branch mark.
pub open spec fn spacer_text(width: nat) -> Seq<char> {
    repeat('│', if width > 0 { (width - 1) as nat } else { 0 }).push('├')
}

/// The line of a node that holds only its children: its kind.
pub open spec fn kind_line(k: Kind) -> Seq<char> {
    match k {
        Kind::Root => "Root\n"@,
        Kind::Fragment => "Fragment\n"@,
        Kind::Program => "Program\n"@,
        Kind::Head => "Head\n"@,
        Kind::Body => "Body\n"@,
        Kind::Section => "Section\n"@,
        Kind::Block => "Block\n"@,
        Kind::Statement => "Statement\n"@,
        Kind::Expression => "Expression\n"@,
        Kind::MathExpression => "MathExpression\n"@,
        Kind::FilterExpression => "FilterExpression\n"@,
        Kind::SelectExpression => "SelectExpression\n"@,
        Kind::Data => "Data\n"@,
        Kind::DataWatch => "DataWatch\n"@,
        Kind::SelectData => "SelectData\n"@,
        Kind::SetData => "SetData\n"@,
        Kind::RowDefine => "RowDefine\n"@,
        Kind::Column => "Column\n"@,
        Kind::Binding => "Binding\n"@,
        Kind::ColumnDefine => "ColumnDefine\n"@,
        Kind::TableDefine => "TableDefine\n"@,
        Kind::AddRow => "AddRow\n"@,
        Kind::Constraint => "Constraint\n"@,
    }
}

/// A node and everything below it, with the node at `level` and each child
/// one level deeper.
pub open spec fn tree_text(t: Tree, level: nat) -> Seq<char>
    decreases t, 2nat,
{
    spacer_text(level) + head_text(t) + match t {
        Tree::Branch(_, ch) => lines_text(ch, level + 1),
        Tree::Function(_, ch) => lines_text(ch, level + 1),
        _ => seq![],
    }
}

/// What a node's line says after its indentation. The rows and columns of
/// an index are rendered in the line itself, as lists of trees at level zero.
pub open spec fn head_text(t: Tree) -> Seq<char>
    decreases t, 1nat,
{
    match t {
        Tree::Branch(k, _) => kind_line(k),
        Tree::Function(name, _) => "Function("@ + debug_text(name) + ")\n"@,
        Tree::DotIndex(rows, columns) => "DotIndex[rows: "@ + list_text(rows) + ", columns: "@
            + list_text(columns) + "]\n"@,
        Tree::BracketIndex(rows, columns) => "BracketIndex[rows: "@ + list_text(rows)
            + ", columns: "@ + list_text(columns) + "]\n"@,
        Tree::Identifier(name, id) => name + "("@ + decimal(id as nat) + ")\n"@,
        Tree::String(text) => "String("@ + debug_text(text) + ")\n"@,
        Tree::Title(text) => "Title("@ + debug_text(text) + ")\n"@,
        Tree::Constant(value) => decimal(value as nat) + "\n"@,
        Tree::Paragraph(text) => "Paragraph("@ + debug_text(text) + ")\n"@,
        Tree::Table(name, id) => "#"@ + name + "("@ + decimal(id as nat) + ")\n"@,
        Tree::Define(name, id) => "Define #"@ + name + "("@ + decimal(id as nat) + ")\n"@,
        Tree::Token(token, _) => "Token("@ + token_name(token) + ")\n"@,
        Tree::Null => "Null\n"@,
    }
}

/// Trees one after the other, each at `level`.
pub open spec fn lines_text(s: Seq<Tree>, level: nat) -> Seq<char>
    decreases s, 0nat,
{
    if s.len() == 0 {
        seq![]
    } else {
        lines_text(s.drop_last(), level) + tree_text(s.last(), level)
    }
}

/// Trees at level zero, separated by a comma and a blank.
pub open spec fn items_text(s: Seq<Tree>) -> Seq<char>
    decreases s, 0nat,
{
    if s.len() == 0 {
        seq![]
    } else if s.len() == 1 {
        tree_text(s[0], 0)
    } else {
        items_text(s.drop_last()) + ", "@ + tree_text(s.last(), 0)
    }
}

/// A list of trees between square brackets.
pub open spec fn list_text(s: Seq<Tree>) -> Seq<char>
    decreases s, 1nat,
{
    "["@ + items_text(s) + "]"@
}

/// Every node of the tree that has children is at a level below
/// `usize::MAX`, so that its children's level is a `usize`.
pub open spec fn fits_at(t: Tree, level: nat) -> bool
    decreases t, 1nat,
{
    match t {
        Tree::Branch(_, ch) => ch.len() == 0 || (level + 1 <= usize::MAX && all_fit(ch, level + 1)),
        Tree::Function(_, ch) => ch.len() == 0 || (level + 1 <= usize::MAX && all_fit(
            ch,
            level + 1,
        )),
        Tree::DotIndex(rows, columns) => all_fit(rows, 0) && all_fit(columns, 0),
        Tree::BracketIndex(rows, columns) => all_fit(rows, 0) && all_fit(columns, 0),
        _ => true,
    }
}

/// Every tree of the sequence fits at `level`.
pub open spec fn all_fit(s: Seq<Tree>, level: nat) -> bool
    decreases s, 0nat,
{
    if s.len() == 0 {
        true
    } else {
        all_fit(s.drop_last(), level) && fits_at(s.last(), level)
    }
}

/// Where every tree of a sequence fits, so does every tree of each prefix,
/// and each of its trees.
proof fn lemma_all_fit_prefix(s: Seq<Tree>, level: nat, i: int)
    requires
        0 <= i <= s.len(),
        all_fit(s, level),
    ensures
        all_fit(s.take(i), level),
        i < s.len() ==> fits_at(s[i], level),
    decreases s.len(),
{
    if i < s.len() {
        if i < s.len() - 1 {
            lemma_all_fit_prefix(s.drop_last(), level, i);
            assert(s.drop_last().take(i) =~= s.take(i));
            assert(s.drop_last()[i] == s[i]);
        } else {
            assert(s.drop_last() =~= s.take(i));
        }
    } else {
        assert(s.take(i) =~= s);
    }
}

/// Appends the indentation of a line at `width`.
fn push_spacer(out: &mut String, width: usize)
    ensures
        final(out)@ == old(out)@ + spacer_text(width as nat),
{
    let limit: usize = if width > 0 {
        width - 1
    } else {
        width
    };
    let mut i: usize = 0;
    let ghost start = out@;
    while i < limit
        invariant
            i <= limit,
            out@ == start + repeat('│', i as nat),
        decreases limit - i,
    {
        push_char(out, '│');
        i = i + 1;
        assert(out@ =~= start + repeat('│', i as nat));
    }
    push_char(out, '├');
    assert(out@ =~= start + spacer_text(width as nat));
}

/// The indentation of a line at `width`: a vertical bar for each level
/// above the first, then a branch mark.
pub fn spacer_string(width: usize) -> (s: String)
    ensures
        s@ == spacer_text(width as nat),
{
    let mut s = String::new();
    push_spacer(&mut s, width);
    assert(s@ =~= spacer_text(width as nat));
    s
}

/// Appends the line of a node that holds only its children.
fn push_kind_line(out: &mut String, k: Kind)
    ensures
        final(out)@ == old(out)@ + kind_line(k),
{
    match k {
        Kind::Root => push_text(out, "Root\n"),
        Kind::Fragment => push_text(out, "Fragment\n"),
        Kind::Program => push_text(out, "Program\n"),
        Kind::Head => push_text(out, "Head\n"),
        Kind::Body => push_text(out, "Body\n"),
        Kind::Section => push_text(out, "Section\n"),
        Kind::Block => push_text(out, "Block\n"),
        Kind::Statement => push_text(out, "Statement\n"),
        Kind::Expression => push_text(out, "Expression\n"),
        Kind::MathExpression => push_text(out, "MathExpression\n"),
        Kind::FilterExpression => push_text(out, "FilterExpression\n"),
        Kind::SelectExpression => push_text(out, "SelectExpression\n"),
        Kind::Data => push_text(out, "Data\n"),
        Kind::DataWatch => push_text(out, "DataWatch\n"),
        Kind::SelectData => push_text(out, "SelectData\n"),
        Kind::SetData => push_text(out, "SetData\n"),
        Kind::RowDefine => push_text(out, "RowDefine\n"),
        Kind::Column => push_text(out, "Column\n"),
        Kind::Binding => push_text(out, "Binding\n"),
        Kind::ColumnDefine => push_text(out, "ColumnDefine\n"),
        Kind::TableDefine => push_text(out, "TableDefine\n"),
        Kind::AddRow => push_text(out, "AddRow\n"),
        Kind::Constraint => push_text(out, "Constraint\n"),
    }
}

/// Appends a node and everything below it, the node at `level`.
fn push_tree(out: &mut String, node: &Node, level: usize)
    requires
        fits_at(node@, level as nat),
    ensures
        final(out)@ == old(out)@ + tree_text(node@, level as nat),
    decreases node, 2nat,
{
    let ghost start = out@;
    push_spacer(out, level);
    push_head(out, node);
    match node {
        Node::Root { children } | Node::Fragment { children } | Node::Program { children }
        | Node::Head { children } | Node::Body { children } | Node::Section { children }
        | Node::Block { children } | Node::Statement { children } | Node::Expression { children }
        | Node::MathExpression { children } | Node::FilterExpression { children }
        | Node::SelectExpression { children } | Node::Data { children } | Node::DataWatch {
            children,
        } | Node::SelectData { children } | Node::SetData { children } | Node::RowDefine {
            children,
        } | Node::Column { children } | Node::Binding { children } | Node::ColumnDefine {
            children,
        } | Node::TableDefine { children } | Node::AddRow { children } | Node::Constraint {
            children,
        } | Node::Function { name: _, children } => {
            if children.len() > 0 {
                push_lines(out, children, level + 1);
            } else {
                assert(trees(children@) =~= seq![]);
            }
        },
        _ => {},
    }
    assert(out@ =~= start + tree_text(node@, level as nat));
}

/// Appends trees one after the other, each at `level`.
fn push_lines(out: &mut String, nodes: &Vec<Node>, level: usize)
    requires
        all_fit(trees(nodes@), level as nat),
    ensures
        final(out)@ == old(out)@ + lines_text(trees(nodes@), level as nat),
    decreases nodes, 0nat,
{
    let ghost s = trees(nodes@);
    let ghost start = out@;
    let mut i: usize = 0;
    assert(s.take(0) =~= seq![]);
    while i < nodes.len()
        invariant
            i <= nodes.len(),
            s == trees(nodes@),
            all_fit(s, level as nat),
            out@ == start + lines_text(s.take(i as int), level as nat),
        decreases nodes.len() - i,
    {
        proof {
            lemma_all_fit_prefix(s, level as nat, i as int);
            assert(s.take(i + 1).drop_last() =~= s.take(i as int));
            assert(s.take(i + 1).last() == s[i as int]);
            assert(s[i as int] == nodes@[i as int]@);
        }
        push_tree(out, &nodes[i], level);
        i = i + 1;
    }
    assert(s.take(nodes.len() as int) =~= s);
}

/// Appends trees at level zero, separated by a comma and a blank.
fn push_items(out: &mut String, nodes: &Vec<Node>)
    requires
        all_fit(trees(nodes@), 0),
    ensures
        final(out)@ == old(out)@ + items_text(trees(nodes@)),
    decreases nodes, 0nat,
{
    let ghost s = trees(nodes@);
    let ghost start = out@;
    let mut i: usize = 0;
    assert(s.take(0) =~= seq![]);
    while i < nodes.len()
        invariant
            i <= nodes.len(),
            s == trees(nodes@),
            all_fit(s, 0),
            out@ == start + items_text(s.take(i as int)),
        decreases nodes.len() - i,
    {
        proof {
            lemma_all_fit_prefix(s, 0, i as int);
            assert(s.take(i + 1).drop_last() =~= s.take(i as int));
            assert(s.take(i + 1).last() == s[i as int]);
            assert(s[i as int] == nodes@[i as int]@);
            if i == 0 {
                assert(s.take(1)[0] == s[0]);
            }
        }
        if i > 0 {
            push_text(out, ", ");
        }
        push_tree(out, &nodes[i], 0);
        i = i + 1;
    }
    assert(s.take(nodes.len() as int) =~= s);
}

/// Appends a list of trees between square brackets.
fn push_list(out: &mut String, nodes: &Vec<Node>)
    requires
        all_fit(trees(nodes@), 0),
    ensures
        final(out)@ == old(out)@ + list_text(trees(nodes@)),
    decreases nodes, 1nat,
{
    let ghost start = out@;
    push_text(out, "[");
    push_items(out, nodes);
    push_text(out, "]");
    assert(out@ =~= start + list_text(trees(nodes@)));
}

/// Appends what a node's line says after its indentation.
fn push_head(out: &mut String, node: &Node)
    requires
        node@ is DotIndex || node@ is BracketIndex ==> fits_at(node@, 0),
    ensures
        final(out)@ == old(out)@ + head_text(node@),
    decreases node, 1nat,
{
    let ghost start = out@;
    match node {
        Node::Function { name, children: _ } => {
            push_text(out, "Function(");
            let d = debug_string(name);
            push_text(out, d.as_str());
            push_text(out, ")\n");
        },
        Node::DotIndex { rows, columns } => {
            push_text(out, "DotIndex[rows: ");
            push_list(out, rows);
            push_text(out, ", columns: ");
            push_list(out, columns);
            push_text(out, "]\n");
        },
        Node::BracketIndex { rows, columns } => {
            push_text(out, "BracketIndex[rows: ");
            push_list(out, rows);
            push_text(out, ", columns: ");
            push_list(out, columns);
            push_text(out, "]\n");
        },
        Node::Identifier { name, id } => {
            push_text(out, name.as_str());
            push_text(out, "(");
            push_decimal(out, *id);
            push_text(out, ")\n");
        },
        Node::String { text } => {
            push_text(out, "String(");
            let d = debug_string(text);
            push_text(out, d.as_str());
            push_text(out, ")\n");
        },
        Node::Title { text } => {
            push_text(out, "Title(");
            let d = debug_string(text);
            push_text(out, d.as_str());
            push_text(out, ")\n");
        },
        Node::Constant { value } => {
            push_decimal(out, *value);
            push_text(out, "\n");
        },
        Node::Paragraph { text } => {
            push_text(out, "Paragraph(");
            let d = debug_string(text);
            push_text(out, d.as_str());
            push_text(out, ")\n");
        },
        Node::Table { name, id } => {
            push_text(out, "#");
            push_text(out, name.as_str());
            push_text(out, "(");
            push_decimal(out, *id);
            push_text(out, ")\n");
        },
        Node::Define { name, id } => {
            push_text(out, "Define #");
            push_text(out, name.as_str());
            push_text(out, "(");
            push_decimal(out, *id);
            push_text(out, ")\n");
        },
        Node::Token { token, byte: _ } => {
            push_text(out, "Token(");
            let t = token.name();
            push_text(out, t.as_str());
            push_text(out, ")\n");
        },
        Node::Null => push_text(out, "Null\n"),
        Node::Root { .. } => push_kind_line(out, Kind::Root),
        Node::Fragment { .. } => push_kind_line(out, Kind::Fragment),
        Node::Program { .. } => push_kind_line(out, Kind::Program),
        Node::Head { .. } => push_kind_line(out, Kind::Head),
        Node::Body { .. } => push_kind_line(out, Kind::Body),
        Node::Section { .. } => push_kind_line(out, Kind::Section),
        Node::Block { .. } => push_kind_line(out, Kind::Block),
        Node::Statement { .. } => push_kind_line(out, Kind::Statement),
        Node::Expression { .. } => push_kind_line(out, Kind::Expression),
        Node::MathExpression { .. } => push_kind_line(out, Kind::MathExpression),
        Node::FilterExpression { .. } => push_kind_line(out, Kind::FilterExpression),
        Node::SelectExpression { .. } => push_kind_line(out, Kind::SelectExpression),
        Node::Data { .. } => push_kind_line(out, Kind::Data),
        Node::DataWatch { .. } => push_kind_line(out, Kind::DataWatch),
        Node::SelectData { .. } => push_kind_line(out, Kind::SelectData),
        Node::SetData { .. } => push_kind_line(out, Kind::SetData),
        Node::RowDefine { .. } => push_kind_line(out, Kind::RowDefine),
        Node::Column { .. } => push_kind_line(out, Kind::Column),
        Node::Binding { .. } => push_kind_line(out, Kind::Binding),
        Node::ColumnDefine { .. } => push_kind_line(out, Kind::ColumnDefine),
        Node::TableDefine { .. } => push_kind_line(out, Kind::TableDefine),
        Node::AddRow { .. } => push_kind_line(out, Kind::AddRow),
        Node::Constraint { .. } => push_kind_line(out, Kind::Constraint),
    }
    assert(out@ =~= start + head_text(node@));
}

/// A node and everything below it as indented text: the node's line at
/// `level`, then each child's, one level deeper.
pub fn format_tree(node: &Node, level: usize) -> (s: String)
    requires
        fits_at(node@, level as nat),
    ensures
        s@ == tree_text(node@, level as nat),
{
    let mut s = String::new();
    push_tree(&mut s, node, level);
    assert(s@ =~= tree_text(node@, level as nat));
    s
}

/// Whether every node of the tree that has children sits at a level below
/// `usize::MAX`, so that the tree can be rendered from `level`.
pub fn fits_at_level(node: &Node, level: usize) -> (b: bool)
    ensures
        b == fits_at(node@, level as nat),
    decreases node, 1nat,
{
    match node {
        Node::DotIndex { rows, columns } | Node::BracketIndex { rows, columns } => {
            all_fit_at(rows, 0) && all_fit_at(columns, 0)
        },
        Node::Root { children } | Node::Fragment { children } | Node::Program { children }
        | Node::Head { children } | Node::Body { children } | Node::Section { children }
        | Node::Block { children } | Node::Statement { children } | Node::Expression { children }
        | Node::MathExpression { children } | Node::FilterExpression { children }
        | Node::SelectExpression { children } | Node::Data { children } | Node::DataWatch {
            children,
        } | Node::SelectData { children } | Node::SetData { children } | Node::RowDefine {
            children,
        } | Node::Column { children } | Node::Binding { children } | Node::ColumnDefine {
            children,
        } | Node::TableDefine { children } | Node::AddRow { children } | Node::Constraint {
            children,
        } | Node::Function { name: _, children } => {
            if children.len() == 0 {
                true
            } else if level == usize::MAX {
                false
            } else {
                all_fit_at(children, level + 1)
            }
        },
        _ => true,
    }
}

/// Whether every tree of the vector fits at `level`.
fn all_fit_at(nodes: &Vec<Node>, level: usize) -> (b: bool)
    ensures
        b == all_fit(trees(nodes@), level as nat),
    decreases nodes, 0nat,
{
    let ghost s = trees(nodes@);
    let mut i: usize = 0;
    assert(s.take(0) =~= seq![]);
    while i < nodes.len()
        invariant
            i <= nodes.len(),
            s == trees(nodes@),
            all_fit(s.take(i as int), level as nat),
        decreases nodes.len() - i,
    {
        assert(s.take(i + 1).drop_last() =~= s.take(i as int));
        assert(s.take(i + 1).last() == s[i as int]);
        assert(s[i as int] == nodes@[i as int]@);
        if !fits_at_level(&nodes[i], level) {
            proof {
                lemma_all_fit_not(s, level as nat, i as int);
            }
            return false;
        }
        i = i + 1;
    }
    assert(s.take(nodes.len() as int) =~= s);
    true
}

/// Where a tree of a sequence does not fit, the sequence does not.
proof fn lemma_all_fit_not(s: Seq<Tree>, level: nat, i: int)
    requires
        0 <= i < s.len(),
        !fits_at(s[i], level),
    ensures
        !all_fit(s, level),
{
    if all_fit(s, level) {
        lemma_all_fit_prefix(s, level, i);
    }
}

/// A child is rendered one level deeper than its parent, whatever the
/// parent: a function's argument as much as the child of any other node.
/// Rendering a node over one child is rendering the node alone, then the
/// child one level down.
pub proof fn lemma_child_one_level_deeper(name: Seq<char>, k: Kind, x: Tree, level: nat)
    ensures
        tree_text(Tree::Function(name, seq![x]), level) == tree_text(
            Tree::Function(name, seq![]),
            level,
        ) + tree_text(x, level + 1),
        tree_text(Tree::Branch(k, seq![x]), level) == tree_text(Tree::Branch(k, seq![]), level)
            + tree_text(x, level + 1),
{
    let one = seq![x];
    assert(one.drop_last() =~= Seq::<Tree>::empty());
    assert(one.last() == x);
    assert(lines_text(Seq::<Tree>::empty(), level + 1) == Seq::<char>::empty());
    assert(lines_text(one, level + 1) == lines_text(Seq::<Tree>::empty(), level + 1) + tree_text(
        x,
        level + 1,
    ));
    assert(Seq::<char>::empty() + tree_text(x, level + 1) =~= tree_text(x, level + 1));
    let sp = spacer_text(level);
    let hf = head_text(Tree::Function(name, one));
    assert(hf == head_text(Tree::Function(name, seq![])));
    assert(sp + hf + seq![] =~= sp + hf);
    assert(sp + hf + tree_text(x, level + 1) == (sp + hf) + tree_text(x, level + 1));
    let hb = kind_line(k);
    assert(sp + hb + seq![] =~= sp + hb);
}

/// Each level deeper adds one bar in front of a line's branch mark, from the
/// second level on.
pub proof fn lemma_deeper_line_adds_a_bar(level: nat)
    requires
        level >= 1,
    ensures
        spacer_text(level + 1) == seq!['│'] + spacer_text(level),
{
    assert(spacer_text(level + 1) =~= seq!['│'] + spacer_text(level));
}

} // verus!
