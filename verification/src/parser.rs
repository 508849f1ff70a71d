//! Parse trees: what the parser hands to the compiler.

use vstd::prelude::*;
use crate::lexer::Token;

verus! {

/// The grammar rule that an inner node of a parse tree matched.
#[derive(Clone, Copy, Debug, PartialEq, Eq, Structural)]
pub enum Rule {
    Root,
    Fragment,
    Program,
    Head,
    Body,
    Section,
    Block,
    Data,
    SelectData,
    TableDefineRHS,
    Statement,
    Expression,
    DataWatch,
    RowDefine,
    SetData,
    Column,
    Binding,
    Constraint,
    SelectExpression,
    FilterExpression,
    MathExpression,
    Infix,
    ColumnDefine,
    TableDefine,
    AddRow,
    Index,
    DotIndex,
    BracketIndex,
    Table,
    Number,
    Paragraph,
    Title,
    Subtitle,
    Text,
    Word,
    TableIdentifier,
    Identifier,
    L1,
    L2,
    L3,
    L4,
    L1Infix,
    L2Infix,
    L3Infix,
    Comparator,
    IdentifierOrNumber,
    ProseOrCode,
    StatementOrExpression,
    Constant,
    SetOperator,
    Repeat,
    Alphanumeric,
    IdentifierCharacter,
    Whitespace,
    Newline,
}

/// A node of a parse tree: a rule with the nodes it matched, a token leaf, or nothing.
#[derive(Debug)]
pub enum Node {
    Root { children: Vec<Node> },
    Fragment { children: Vec<Node> },
    Program { children: Vec<Node> },
    Head { children: Vec<Node> },
    Body { children: Vec<Node> },
    Section { children: Vec<Node> },
    Block { children: Vec<Node> },
    Data { children: Vec<Node> },
    SelectData { children: Vec<Node> },
    TableDefineRHS { children: Vec<Node> },
    Statement { children: Vec<Node> },
    Expression { children: Vec<Node> },
    DataWatch { children: Vec<Node> },
    RowDefine { children: Vec<Node> },
    SetData { children: Vec<Node> },
    Column { children: Vec<Node> },
    Binding { children: Vec<Node> },
    Constraint { children: Vec<Node> },
    SelectExpression { children: Vec<Node> },
    FilterExpression { children: Vec<Node> },
    MathExpression { children: Vec<Node> },
    Infix { children: Vec<Node> },
    ColumnDefine { children: Vec<Node> },
    TableDefine { children: Vec<Node> },
    AddRow { children: Vec<Node> },
    Index { children: Vec<Node> },
    DotIndex { children: Vec<Node> },
    BracketIndex { children: Vec<Node> },
    Table { children: Vec<Node> },
    Number { children: Vec<Node> },
    Paragraph { children: Vec<Node> },
    Title { children: Vec<Node> },
    Subtitle { children: Vec<Node> },
    Text { children: Vec<Node> },
    Word { children: Vec<Node> },
    TableIdentifier { children: Vec<Node> },
    Identifier { children: Vec<Node> },
    L1 { children: Vec<Node> },
    L2 { children: Vec<Node> },
    L3 { children: Vec<Node> },
    L4 { children: Vec<Node> },
    L1Infix { children: Vec<Node> },
    L2Infix { children: Vec<Node> },
    L3Infix { children: Vec<Node> },
    Comparator { children: Vec<Node> },
    IdentifierOrNumber { children: Vec<Node> },
    ProseOrCode { children: Vec<Node> },
    StatementOrExpression { children: Vec<Node> },
    Constant { children: Vec<Node> },
    SetOperator { children: Vec<Node> },
    Repeat { children: Vec<Node> },
    Alphanumeric { children: Vec<Node> },
    IdentifierCharacter { children: Vec<Node> },
    Whitespace { children: Vec<Node> },
    Newline { children: Vec<Node> },
    Token { token: Token, byte: u8 },
    Null,
}

/// The mathematical model of a parse tree.
pub enum ParseTree {
    Branch(Rule, Seq<ParseTree>),
    Leaf(Token, u8),
    Null,
}

/// The model of each node of a sequence.
pub open spec fn models(s: Seq<Node>) -> Seq<ParseTree>
    decreases s,
{
    Seq::new(s.len(), |i: int| if 0 <= i < s.len() { model(s[i]) } else { ParseTree::Null })
}

/// The model of a parse tree node.
pub open spec fn model(n: Node) -> ParseTree
    decreases n,
{
    match n {
        Node::Root { children } => ParseTree::Branch(Rule::Root, models(children@)),
        Node::Fragment { children } => ParseTree::Branch(Rule::Fragment, models(children@)),
        Node::Program { children } => ParseTree::Branch(Rule::Program, models(children@)),
        Node::Head { children } => ParseTree::Branch(Rule::Head, models(children@)),
        Node::Body { children } => ParseTree::Branch(Rule::Body, models(children@)),
        Node::Section { children } => ParseTree::Branch(Rule::Section, models(children@)),
        Node::Block { children } => ParseTree::Branch(Rule::Block, models(children@)),
        Node::Data { children } => ParseTree::Branch(Rule::Data, models(children@)),
        Node::SelectData { children } => ParseTree::Branch(Rule::SelectData, models(children@)),
        Node::TableDefineRHS { children } => ParseTree::Branch(Rule::TableDefineRHS, models(children@)),
        Node::Statement { children } => ParseTree::Branch(Rule::Statement, models(children@)),
        Node::Expression { children } => ParseTree::Branch(Rule::Expression, models(children@)),
        Node::DataWatch { children } => ParseTree::Branch(Rule::DataWatch, models(children@)),
        Node::RowDefine { children } => ParseTree::Branch(Rule::RowDefine, models(children@)),
        Node::SetData { children } => ParseTree::Branch(Rule::SetData, models(children@)),
        Node::Column { children } => ParseTree::Branch(Rule::Column, models(children@)),
        Node::Binding { children } => ParseTree::Branch(Rule::Binding, models(children@)),
        Node::Constraint { children } => ParseTree::Branch(Rule::Constraint, models(children@)),
        Node::SelectExpression { children } => ParseTree::Branch(Rule::SelectExpression, models(children@)),
        Node::FilterExpression { children } => ParseTree::Branch(Rule::FilterExpression, models(children@)),
        Node::MathExpression { children } => ParseTree::Branch(Rule::MathExpression, models(children@)),
        Node::Infix { children } => ParseTree::Branch(Rule::Infix, models(children@)),
        Node::ColumnDefine { children } => ParseTree::Branch(Rule::ColumnDefine, models(children@)),
        Node::TableDefine { children } => ParseTree::Branch(Rule::TableDefine, models(children@)),
        Node::AddRow { children } => ParseTree::Branch(Rule::AddRow, models(children@)),
        Node::Index { children } => ParseTree::Branch(Rule::Index, models(children@)),
        Node::DotIndex { children } => ParseTree::Branch(Rule::DotIndex, models(children@)),
        Node::BracketIndex { children } => ParseTree::Branch(Rule::BracketIndex, models(children@)),
        Node::Table { children } => ParseTree::Branch(Rule::Table, models(children@)),
        Node::Number { children } => ParseTree::Branch(Rule::Number, models(children@)),
        Node::Paragraph { children } => ParseTree::Branch(Rule::Paragraph, models(children@)),
        Node::Title { children } => ParseTree::Branch(Rule::Title, models(children@)),
        Node::Subtitle { children } => ParseTree::Branch(Rule::Subtitle, models(children@)),
        Node::Text { children } => ParseTree::Branch(Rule::Text, models(children@)),
        Node::Word { children } => ParseTree::Branch(Rule::Word, models(children@)),
        Node::TableIdentifier { children } => ParseTree::Branch(Rule::TableIdentifier, models(children@)),
        Node::Identifier { children } => ParseTree::Branch(Rule::Identifier, models(children@)),
        Node::L1 { children } => ParseTree::Branch(Rule::L1, models(children@)),
        Node::L2 { children } => ParseTree::Branch(Rule::L2, models(children@)),
        Node::L3 { children } => ParseTree::Branch(Rule::L3, models(children@)),
        Node::L4 { children } => ParseTree::Branch(Rule::L4, models(children@)),
        Node::L1Infix { children } => ParseTree::Branch(Rule::L1Infix, models(children@)),
        Node::L2Infix { children } => ParseTree::Branch(Rule::L2Infix, models(children@)),
        Node::L3Infix { children } => ParseTree::Branch(Rule::L3Infix, models(children@)),
        Node::Comparator { children } => ParseTree::Branch(Rule::Comparator, models(children@)),
        Node::IdentifierOrNumber { children } => ParseTree::Branch(Rule::IdentifierOrNumber, models(children@)),
        Node::ProseOrCode { children } => ParseTree::Branch(Rule::ProseOrCode, models(children@)),
        Node::StatementOrExpression { children } => ParseTree::Branch(Rule::StatementOrExpression, models(children@)),
        Node::Constant { children } => ParseTree::Branch(Rule::Constant, models(children@)),
        Node::SetOperator { children } => ParseTree::Branch(Rule::SetOperator, models(children@)),
        Node::Repeat { children } => ParseTree::Branch(Rule::Repeat, models(children@)),
        Node::Alphanumeric { children } => ParseTree::Branch(Rule::Alphanumeric, models(children@)),
        Node::IdentifierCharacter { children } => ParseTree::Branch(Rule::IdentifierCharacter, models(children@)),
        Node::Whitespace { children } => ParseTree::Branch(Rule::Whitespace, models(children@)),
        Node::Newline { children } => ParseTree::Branch(Rule::Newline, models(children@)),
        Node::Token { token, byte } => ParseTree::Leaf(token, byte),
        Node::Null => ParseTree::Null,
    }
}

impl View for Node {
    type V = ParseTree;

    open spec fn view(&self) -> ParseTree {
        model(*self)
    }
}

/// A parse tree node taken apart.
pub enum Parts {
    Branch(Rule, Vec<Node>),
    Leaf(Token, u8),
    Null,
}

impl Node {
    /// Takes the node apart into its rule and children, or its token.
    pub fn into_parts(self) -> (p: Parts)
        ensures
            match (self@, p) {
                (ParseTree::Branch(r, kids), Parts::Branch(r2, v)) => r == r2 && models(v@) == kids,
                (ParseTree::Leaf(t, b), Parts::Leaf(t2, b2)) => t == t2 && b == b2,
                (ParseTree::Null, Parts::Null) => true,
                _ => false,
            },
    {
        match self {
            Node::Root { children } => Parts::Branch(Rule::Root, children),
            Node::Fragment { children } => Parts::Branch(Rule::Fragment, children),
            Node::Program { children } => Parts::Branch(Rule::Program, children),
            Node::Head { children } => Parts::Branch(Rule::Head, children),
            Node::Body { children } => Parts::Branch(Rule::Body, children),
            Node::Section { children } => Parts::Branch(Rule::Section, children),
            Node::Block { children } => Parts::Branch(Rule::Block, children),
            Node::Data { children } => Parts::Branch(Rule::Data, children),
            Node::SelectData { children } => Parts::Branch(Rule::SelectData, children),
            Node::TableDefineRHS { children } => Parts::Branch(Rule::TableDefineRHS, children),
            Node::Statement { children } => Parts::Branch(Rule::Statement, children),
            Node::Expression { children } => Parts::Branch(Rule::Expression, children),
            Node::DataWatch { children } => Parts::Branch(Rule::DataWatch, children),
            Node::RowDefine { children } => Parts::Branch(Rule::RowDefine, children),
            Node::SetData { children } => Parts::Branch(Rule::SetData, children),
            Node::Column { children } => Parts::Branch(Rule::Column, children),
            Node::Binding { children } => Parts::Branch(Rule::Binding, children),
            Node::Constraint { children } => Parts::Branch(Rule::Constraint, children),
            Node::SelectExpression { children } => Parts::Branch(Rule::SelectExpression, children),
            Node::FilterExpression { children } => Parts::Branch(Rule::FilterExpression, children),
            Node::MathExpression { children } => Parts::Branch(Rule::MathExpression, children),
            Node::Infix { children } => Parts::Branch(Rule::Infix, children),
            Node::ColumnDefine { children } => Parts::Branch(Rule::ColumnDefine, children),
            Node::TableDefine { children } => Parts::Branch(Rule::TableDefine, children),
            Node::AddRow { children } => Parts::Branch(Rule::AddRow, children),
            Node::Index { children } => Parts::Branch(Rule::Index, children),
            Node::DotIndex { children } => Parts::Branch(Rule::DotIndex, children),
            Node::BracketIndex { children } => Parts::Branch(Rule::BracketIndex, children),
            Node::Table { children } => Parts::Branch(Rule::Table, children),
            Node::Number { children } => Parts::Branch(Rule::Number, children),
            Node::Paragraph { children } => Parts::Branch(Rule::Paragraph, children),
            Node::Title { children } => Parts::Branch(Rule::Title, children),
            Node::Subtitle { children } => Parts::Branch(Rule::Subtitle, children),
            Node::Text { children } => Parts::Branch(Rule::Text, children),
            Node::Word { children } => Parts::Branch(Rule::Word, children),
            Node::TableIdentifier { children } => Parts::Branch(Rule::TableIdentifier, children),
            Node::Identifier { children } => Parts::Branch(Rule::Identifier, children),
            Node::L1 { children } => Parts::Branch(Rule::L1, children),
            Node::L2 { children } => Parts::Branch(Rule::L2, children),
            Node::L3 { children } => Parts::Branch(Rule::L3, children),
            Node::L4 { children } => Parts::Branch(Rule::L4, children),
            Node::L1Infix { children } => Parts::Branch(Rule::L1Infix, children),
            Node::L2Infix { children } => Parts::Branch(Rule::L2Infix, children),
            Node::L3Infix { children } => Parts::Branch(Rule::L3Infix, children),
            Node::Comparator { children } => Parts::Branch(Rule::Comparator, children),
            Node::IdentifierOrNumber { children } => Parts::Branch(Rule::IdentifierOrNumber, children),
            Node::ProseOrCode { children } => Parts::Branch(Rule::ProseOrCode, children),
            Node::StatementOrExpression { children } => Parts::Branch(Rule::StatementOrExpression, children),
            Node::Constant { children } => Parts::Branch(Rule::Constant, children),
            Node::SetOperator { children } => Parts::Branch(Rule::SetOperator, children),
            Node::Repeat { children } => Parts::Branch(Rule::Repeat, children),
            Node::Alphanumeric { children } => Parts::Branch(Rule::Alphanumeric, children),
            Node::IdentifierCharacter { children } => Parts::Branch(Rule::IdentifierCharacter, children),
            Node::Whitespace { children } => Parts::Branch(Rule::Whitespace, children),
            Node::Newline { children } => Parts::Branch(Rule::Newline, children),
            Node::Token { token, byte } => Parts::Leaf(token, byte),
            Node::Null => Parts::Null,
        }
    }

    /// Builds a node from a rule and its children.
    pub fn from_parts(rule: Rule, children: Vec<Node>) -> (n: Node)
        ensures
            n@ == ParseTree::Branch(rule, models(children@)),
    {
        match rule {
            Rule::Root => Node::Root { children },
            Rule::Fragment => Node::Fragment { children },
            Rule::Program => Node::Program { children },
            Rule::Head => Node::Head { children },
            Rule::Body => Node::Body { children },
            Rule::Section => Node::Section { children },
            Rule::Block => Node::Block { children },
            Rule::Data => Node::Data { children },
            Rule::SelectData => Node::SelectData { children },
            Rule::TableDefineRHS => Node::TableDefineRHS { children },
            Rule::Statement => Node::Statement { children },
            Rule::Expression => Node::Expression { children },
            Rule::DataWatch => Node::DataWatch { children },
            Rule::RowDefine => Node::RowDefine { children },
            Rule::SetData => Node::SetData { children },
            Rule::Column => Node::Column { children },
            Rule::Binding => Node::Binding { children },
            Rule::Constraint => Node::Constraint { children },
            Rule::SelectExpression => Node::SelectExpression { children },
            Rule::FilterExpression => Node::FilterExpression { children },
            Rule::MathExpression => Node::MathExpression { children },
            Rule::Infix => Node::Infix { children },
            Rule::ColumnDefine => Node::ColumnDefine { children },
            Rule::TableDefine => Node::TableDefine { children },
            Rule::AddRow => Node::AddRow { children },
            Rule::Index => Node::Index { children },
            Rule::DotIndex => Node::DotIndex { children },
            Rule::BracketIndex => Node::BracketIndex { children },
            Rule::Table => Node::Table { children },
            Rule::Number => Node::Number { children },
            Rule::Paragraph => Node::Paragraph { children },
            Rule::Title => Node::Title { children },
            Rule::Subtitle => Node::Subtitle { children },
            Rule::Text => Node::Text { children },
            Rule::Word => Node::Word { children },
            Rule::TableIdentifier => Node::TableIdentifier { children },
            Rule::Identifier => Node::Identifier { children },
            Rule::L1 => Node::L1 { children },
            Rule::L2 => Node::L2 { children },
            Rule::L3 => Node::L3 { children },
            Rule::L4 => Node::L4 { children },
            Rule::L1Infix => Node::L1Infix { children },
            Rule::L2Infix => Node::L2Infix { children },
            Rule::L3Infix => Node::L3Infix { children },
            Rule::Comparator => Node::Comparator { children },
            Rule::IdentifierOrNumber => Node::IdentifierOrNumber { children },
            Rule::ProseOrCode => Node::ProseOrCode { children },
            Rule::StatementOrExpression => Node::StatementOrExpression { children },
            Rule::Constant => Node::Constant { children },
            Rule::SetOperator => Node::SetOperator { children },
            Rule::Repeat => Node::Repeat { children },
            Rule::Alphanumeric => Node::Alphanumeric { children },
            Rule::IdentifierCharacter => Node::IdentifierCharacter { children },
            Rule::Whitespace => Node::Whitespace { children },
            Rule::Newline => Node::Newline { children },
        }
    }

    /// A copy of the node and everything below it.
    pub fn duplicate(&self) -> (n: Node)
        ensures
            n@ == self@,
        decreases self, 1nat,
    {
        match self {
            Node::Root { children } => Node::Root { children: duplicate_all(children) },
            Node::Fragment { children } => Node::Fragment { children: duplicate_all(children) },
            Node::Program { children } => Node::Program { children: duplicate_all(children) },
            Node::Head { children } => Node::Head { children: duplicate_all(children) },
            Node::Body { children } => Node::Body { children: duplicate_all(children) },
            Node::Section { children } => Node::Section { children: duplicate_all(children) },
            Node::Block { children } => Node::Block { children: duplicate_all(children) },
            Node::Data { children } => Node::Data { children: duplicate_all(children) },
            Node::SelectData { children } => Node::SelectData { children: duplicate_all(children) },
            Node::TableDefineRHS { children } => Node::TableDefineRHS { children: duplicate_all(children) },
            Node::Statement { children } => Node::Statement { children: duplicate_all(children) },
            Node::Expression { children } => Node::Expression { children: duplicate_all(children) },
            Node::DataWatch { children } => Node::DataWatch { children: duplicate_all(children) },
            Node::RowDefine { children } => Node::RowDefine { children: duplicate_all(children) },
            Node::SetData { children } => Node::SetData { children: duplicate_all(children) },
            Node::Column { children } => Node::Column { children: duplicate_all(children) },
            Node::Binding { children } => Node::Binding { children: duplicate_all(children) },
            Node::Constraint { children } => Node::Constraint { children: duplicate_all(children) },
            Node::SelectExpression { children } => Node::SelectExpression { children: duplicate_all(children) },
            Node::FilterExpression { children } => Node::FilterExpression { children: duplicate_all(children) },
            Node::MathExpression { children } => Node::MathExpression { children: duplicate_all(children) },
            Node::Infix { children } => Node::Infix { children: duplicate_all(children) },
            Node::ColumnDefine { children } => Node::ColumnDefine { children: duplicate_all(children) },
            Node::TableDefine { children } => Node::TableDefine { children: duplicate_all(children) },
            Node::AddRow { children } => Node::AddRow { children: duplicate_all(children) },
            Node::Index { children } => Node::Index { children: duplicate_all(children) },
            Node::DotIndex { children } => Node::DotIndex { children: duplicate_all(children) },
            Node::BracketIndex { children } => Node::BracketIndex { children: duplicate_all(children) },
            Node::Table { children } => Node::Table { children: duplicate_all(children) },
            Node::Number { children } => Node::Number { children: duplicate_all(children) },
            Node::Paragraph { children } => Node::Paragraph { children: duplicate_all(children) },
            Node::Title { children } => Node::Title { children: duplicate_all(children) },
            Node::Subtitle { children } => Node::Subtitle { children: duplicate_all(children) },
            Node::Text { children } => Node::Text { children: duplicate_all(children) },
            Node::Word { children } => Node::Word { children: duplicate_all(children) },
            Node::TableIdentifier { children } => Node::TableIdentifier { children: duplicate_all(children) },
            Node::Identifier { children } => Node::Identifier { children: duplicate_all(children) },
            Node::L1 { children } => Node::L1 { children: duplicate_all(children) },
            Node::L2 { children } => Node::L2 { children: duplicate_all(children) },
            Node::L3 { children } => Node::L3 { children: duplicate_all(children) },
            Node::L4 { children } => Node::L4 { children: duplicate_all(children) },
            Node::L1Infix { children } => Node::L1Infix { children: duplicate_all(children) },
            Node::L2Infix { children } => Node::L2Infix { children: duplicate_all(children) },
            Node::L3Infix { children } => Node::L3Infix { children: duplicate_all(children) },
            Node::Comparator { children } => Node::Comparator { children: duplicate_all(children) },
            Node::IdentifierOrNumber { children } => Node::IdentifierOrNumber { children: duplicate_all(children) },
            Node::ProseOrCode { children } => Node::ProseOrCode { children: duplicate_all(children) },
            Node::StatementOrExpression { children } => Node::StatementOrExpression { children: duplicate_all(children) },
            Node::Constant { children } => Node::Constant { children: duplicate_all(children) },
            Node::SetOperator { children } => Node::SetOperator { children: duplicate_all(children) },
            Node::Repeat { children } => Node::Repeat { children: duplicate_all(children) },
            Node::Alphanumeric { children } => Node::Alphanumeric { children: duplicate_all(children) },
            Node::IdentifierCharacter { children } => Node::IdentifierCharacter { children: duplicate_all(children) },
            Node::Whitespace { children } => Node::Whitespace { children: duplicate_all(children) },
            Node::Newline { children } => Node::Newline { children: duplicate_all(children) },
            Node::Token { token, byte } => Node::Token { token: *token, byte: *byte },
            Node::Null => Node::Null,
        }
    }
}

/// A copy of each node of a vector.
pub fn duplicate_all(nodes: &Vec<Node>) -> (copies: Vec<Node>)
    ensures
        models(copies@) == models(nodes@),
    decreases nodes, 0nat,
{
    let mut copies: Vec<Node> = Vec::new();
    let mut i: usize = 0;
    while i < nodes.len()
        invariant
            i <= nodes.len(),
            copies@.len() == i,
            forall|j: int| 0 <= j < i ==> #[trigger] copies@[j]@ == nodes@[j]@,
        decreases nodes.len() - i,
    {
        let c = nodes[i].duplicate();
        copies.push(c);
        i = i + 1;
    }
    assert forall|j: int| 0 <= j < nodes@.len() implies models(copies@)[j] == models(nodes@)[j] by {
        assert(copies@[j]@ == nodes@[j]@);
    }
    assert(models(copies@) =~= models(nodes@));
    copies
}

} // verus!
