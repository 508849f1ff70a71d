//! Syntax trees: what the compiler builds from a parse tree and compiles into blocks.

use vstd::prelude::*;
use crate::lexer::Token;

verus! {

/// A node of a syntax tree.
#[derive(Debug, PartialEq)]
pub enum Node {
    Root { children: Vec<Node> },
    Fragment { children: Vec<Node> },
    Program { children: Vec<Node> },
    Head { children: Vec<Node> },
    Body { children: Vec<Node> },
    Section { children: Vec<Node> },
    Block { children: Vec<Node> },
    Statement { children: Vec<Node> },
    Expression { children: Vec<Node> },
    MathExpression { children: Vec<Node> },
    FilterExpression { children: Vec<Node> },
    SelectExpression { children: Vec<Node> },
    Data { children: Vec<Node> },
    DataWatch { children: Vec<Node> },
    SelectData { children: Vec<Node> },
    SetData { children: Vec<Node> },
    RowDefine { children: Vec<Node> },
    Column { children: Vec<Node> },
    Binding { children: Vec<Node> },
    Function { name: String, children: Vec<Node> },
    Define { name: String, id: u64 },
    DotIndex { rows: Vec<Node>, columns: Vec<Node> },
    BracketIndex { rows: Vec<Node>, columns: Vec<Node> },
    ColumnDefine { children: Vec<Node> },
    TableDefine { children: Vec<Node> },
    AddRow { children: Vec<Node> },
    Constraint { children: Vec<Node> },
    Title { text: String },
    Identifier { name: String, id: u64 },
    Table { name: String, id: u64 },
    Paragraph { text: String },
    Constant { value: u64 },
    String { text: String },
    Token { token: Token, byte: u8 },
    Null,
}

/// The kinds of syntax node that hold nothing but their children.
#[derive(Clone, Copy, Debug, PartialEq, Eq, Structural)]
pub enum Kind {
    Root,
    Fragment,
    Program,
    Head,
    Body,
    Section,
    Block,
    Statement,
    Expression,
    MathExpression,
    FilterExpression,
    SelectExpression,
    Data,
    DataWatch,
    SelectData,
    SetData,
    RowDefine,
    Column,
    Binding,
    ColumnDefine,
    TableDefine,
    AddRow,
    Constraint,
}

/// The mathematical model of a syntax tree.
pub enum Tree {
    Branch(Kind, Seq<Tree>),
    Function(Seq<char>, Seq<Tree>),
    Define(Seq<char>, u64),
    DotIndex(Seq<Tree>, Seq<Tree>),
    BracketIndex(Seq<Tree>, Seq<Tree>),
    Title(Seq<char>),
    Identifier(Seq<char>, u64),
    Table(Seq<char>, u64),
    Paragraph(Seq<char>),
    Constant(u64),
    String(Seq<char>),
    Token(Token, u8),
    Null,
}

/// The model of each node of a sequence.
pub open spec fn trees(s: Seq<Node>) -> Seq<Tree>
    decreases s,
{
    Seq::new(s.len(), |i: int| if 0 <= i < s.len() { tree(s[i]) } else { Tree::Null })
}

/// The model of a syntax node.
pub open spec fn tree(n: Node) -> Tree
    decreases n,
{
    match n {
        Node::Root { children } => Tree::Branch(Kind::Root, trees(children@)),
        Node::Fragment { children } => Tree::Branch(Kind::Fragment, trees(children@)),
        Node::Program { children } => Tree::Branch(Kind::Program, trees(children@)),
        Node::Head { children } => Tree::Branch(Kind::Head, trees(children@)),
        Node::Body { children } => Tree::Branch(Kind::Body, trees(children@)),
        Node::Section { children } => Tree::Branch(Kind::Section, trees(children@)),
        Node::Block { children } => Tree::Branch(Kind::Block, trees(children@)),
        Node::Statement { children } => Tree::Branch(Kind::Statement, trees(children@)),
        Node::Expression { children } => Tree::Branch(Kind::Expression, trees(children@)),
        Node::MathExpression { children } => Tree::Branch(Kind::MathExpression, trees(children@)),
        Node::FilterExpression { children } => Tree::Branch(Kind::FilterExpression, trees(children@)),
        Node::SelectExpression { children } => Tree::Branch(Kind::SelectExpression, trees(children@)),
        Node::Data { children } => Tree::Branch(Kind::Data, trees(children@)),
        Node::DataWatch { children } => Tree::Branch(Kind::DataWatch, trees(children@)),
        Node::SelectData { children } => Tree::Branch(Kind::SelectData, trees(children@)),
        Node::SetData { children } => Tree::Branch(Kind::SetData, trees(children@)),
        Node::RowDefine { children } => Tree::Branch(Kind::RowDefine, trees(children@)),
        Node::Column { children } => Tree::Branch(Kind::Column, trees(children@)),
        Node::Binding { children } => Tree::Branch(Kind::Binding, trees(children@)),
        Node::ColumnDefine { children } => Tree::Branch(Kind::ColumnDefine, trees(children@)),
        Node::TableDefine { children } => Tree::Branch(Kind::TableDefine, trees(children@)),
        Node::AddRow { children } => Tree::Branch(Kind::AddRow, trees(children@)),
        Node::Constraint { children } => Tree::Branch(Kind::Constraint, trees(children@)),
        Node::Function { name, children } => Tree::Function(name@, trees(children@)),
        Node::Define { name, id } => Tree::Define(name@, id),
        Node::DotIndex { rows, columns } => Tree::DotIndex(trees(rows@), trees(columns@)),
        Node::BracketIndex { rows, columns } => Tree::BracketIndex(trees(rows@), trees(columns@)),
        Node::Title { text } => Tree::Title(text@),
        Node::Identifier { name, id } => Tree::Identifier(name@, id),
        Node::Table { name, id } => Tree::Table(name@, id),
        Node::Paragraph { text } => Tree::Paragraph(text@),
        Node::Constant { value } => Tree::Constant(value),
        Node::String { text } => Tree::String(text@),
        Node::Token { token, byte } => Tree::Token(token, byte),
        Node::Null => Tree::Null,
    }
}

impl View for Node {
    type V = Tree;

    open spec fn view(&self) -> Tree {
        tree(*self)
    }
}

impl Node {
    /// Builds the node of the given kind over the given children.
    pub fn branch(kind: Kind, children: Vec<Node>) -> (n: Node)
        ensures
            n@ == Tree::Branch(kind, trees(children@)),
    {
        match kind {
            Kind::Root => Node::Root { children },
            Kind::Fragment => Node::Fragment { children },
            Kind::Program => Node::Program { children },
            Kind::Head => Node::Head { children },
            Kind::Body => Node::Body { children },
            Kind::Section => Node::Section { children },
            Kind::Block => Node::Block { children },
            Kind::Statement => Node::Statement { children },
            Kind::Expression => Node::Expression { children },
            Kind::MathExpression => Node::MathExpression { children },
            Kind::FilterExpression => Node::FilterExpression { children },
            Kind::SelectExpression => Node::SelectExpression { children },
            Kind::Data => Node::Data { children },
            Kind::DataWatch => Node::DataWatch { children },
            Kind::SelectData => Node::SelectData { children },
            Kind::SetData => Node::SetData { children },
            Kind::RowDefine => Node::RowDefine { children },
            Kind::Column => Node::Column { children },
            Kind::Binding => Node::Binding { children },
            Kind::ColumnDefine => Node::ColumnDefine { children },
            Kind::TableDefine => Node::TableDefine { children },
            Kind::AddRow => Node::AddRow { children },
            Kind::Constraint => Node::Constraint { children },
        }
    }
}

impl Node {
    /// A copy of the node and everything below it.
    pub fn duplicate(&self) -> (n: Node)
        ensures
            n@ == self@,
        decreases self, 1nat,
    {
        match self {
            Node::Root { children } => Node::Root { children: duplicate_all(children) },
            Node::Fragment { children } => Node::Fragment { children: duplicate_all(children) },
            Node::Program { children } => Node::Program { children: duplicate_all(children) },
            Node::Head { children } => Node::Head { children: duplicate_all(children) },
            Node::Body { children } => Node::Body { children: duplicate_all(children) },
            Node::Section { children } => Node::Section { children: duplicate_all(children) },
            Node::Block { children } => Node::Block { children: duplicate_all(children) },
            Node::Statement { children } => Node::Statement { children: duplicate_all(children) },
            Node::Expression { children } => Node::Expression { children: duplicate_all(children) },
            Node::MathExpression { children } => Node::MathExpression { children: duplicate_all(children) },
            Node::FilterExpression { children } => Node::FilterExpression { children: duplicate_all(children) },
            Node::SelectExpression { children } => Node::SelectExpression { children: duplicate_all(children) },
            Node::Data { children } => Node::Data { children: duplicate_all(children) },
            Node::DataWatch { children } => Node::DataWatch { children: duplicate_all(children) },
            Node::SelectData { children } => Node::SelectData { children: duplicate_all(children) },
            Node::SetData { children } => Node::SetData { children: duplicate_all(children) },
            Node::RowDefine { children } => Node::RowDefine { children: duplicate_all(children) },
            Node::Column { children } => Node::Column { children: duplicate_all(children) },
            Node::Binding { children } => Node::Binding { children: duplicate_all(children) },
            Node::ColumnDefine { children } => Node::ColumnDefine { children: duplicate_all(children) },
            Node::TableDefine { children } => Node::TableDefine { children: duplicate_all(children) },
            Node::AddRow { children } => Node::AddRow { children: duplicate_all(children) },
            Node::Constraint { children } => Node::Constraint { children: duplicate_all(children) },
            Node::Function { name, children } => Node::Function {
                name: name.clone(),
                children: duplicate_all(children),
            },
            Node::Define { name, id } => Node::Define { name: name.clone(), id: *id },
            Node::DotIndex { rows, columns } => Node::DotIndex {
                rows: duplicate_all(rows),
                columns: duplicate_all(columns),
            },
            Node::BracketIndex { rows, columns } => Node::BracketIndex {
                rows: duplicate_all(rows),
                columns: duplicate_all(columns),
            },
            Node::Title { text } => Node::Title { text: text.clone() },
            Node::Identifier { name, id } => Node::Identifier { name: name.clone(), id: *id },
            Node::Table { name, id } => Node::Table { name: name.clone(), id: *id },
            Node::Paragraph { text } => Node::Paragraph { text: text.clone() },
            Node::Constant { value } => Node::Constant { value: *value },
            Node::String { text } => Node::String { text: text.clone() },
            Node::Token { token, byte } => Node::Token { token: *token, byte: *byte },
            Node::Null => Node::Null,
        }
    }
}

/// A copy of each node of a vector.
pub fn duplicate_all(nodes: &Vec<Node>) -> (copies: Vec<Node>)
    ensures
        trees(copies@) == trees(nodes@),
    decreases nodes, 0nat,
{
    let mut copies: Vec<Node> = Vec::new();
    let mut i: usize = 0;
    while i < nodes.len()
        invariant
            i <= nodes.len(),
            copies@.len() == i,
            forall|j: int| 0 <= j < i ==> #[trigger] copies@[j]@ == nodes@[j]@,
        decreases nodes.len() - i,
    {
        let c = nodes[i].duplicate();
        copies.push(c);
        i = i + 1;
    }
    assert forall|j: int| 0 <= j < nodes@.len() implies trees(copies@)[j] == trees(nodes@)[j] by {
        assert(copies@[j]@ == nodes@[j]@);
    }
    assert(trees(copies@) =~= trees(nodes@));
    copies
}

impl Clone for Node {
    /// A copy of the node and everything below it.
    fn clone(&self) -> (n: Node)
        ensures
            n@ == self@,
    {
        self.duplicate()
    }
}

} // verus!
