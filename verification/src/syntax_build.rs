//! What building a syntax tree from a parse tree yields: the model of the
//! compiler's first pass, and its laws.

use vstd::prelude::*;
use crate::lexer::Token;
use crate::parser::{ParseTree, Rule};
use crate::syntax::{Kind, Tree};
use crate::encodings::{byte_char, byte_digit, pow10};
use crate::hasher::{Hasher, hash_chars, lemma_hash_ascii};
use crate::syntax::{Node, trees, tree};
use crate::parser;
use crate::text::{push_char, push_text, decimal, digit_char};
use crate::compile::{exp10, lemma_decimal_len};
use crate::encodings::{byte_to_char, byte_to_digit, magnitude, is_known_byte, lemma_pow10_monotone};
use vstd::string::*;
use vstd::utf8::is_ascii_chars;

verus! {

/// What building a parse tree gives: the syntax nodes, the number of parse
/// nodes visited, and the children of the last root met, if any.
pub struct Built {
    pub nodes: Seq<Tree>,
    pub calls: nat,
    pub root: Option<Seq<Tree>>,
}

/// The nodes that are not tokens, in order.
pub open spec fn drop_tokens(r: Seq<Tree>) -> Seq<Tree>
    decreases r.len(),
{
    if r.len() == 0 {
        seq![]
    } else if r.last() is Token {
        drop_tokens(r.drop_last())
    } else {
        drop_tokens(r.drop_last()).push(r.last())
    }
}

/// The nodes that are not space tokens, in order.
pub open spec fn drop_spaces(r: Seq<Tree>) -> Seq<Tree>
    decreases r.len(),
{
    if r.len() == 0 {
        seq![]
    } else if r.last() matches Tree::Token(Token::Space, _) {
        drop_spaces(r.drop_last())
    } else {
        drop_spaces(r.drop_last()).push(r.last())
    }
}

/// The characters of the tokens, in order; undefined where a token's byte
/// is not one the compiler knows.
pub open spec fn word_of(r: Seq<Tree>) -> Option<Seq<char>>
    decreases r.len(),
{
    if r.len() == 0 {
        Some(seq![])
    } else {
        match word_of(r.drop_last()) {
            None => None,
            Some(w) => match r.last() {
                Tree::Token(_, b) => match byte_char(b) {
                    Some(c) => Some(w.push(c)),
                    None => None,
                },
                _ => Some(w),
            },
        }
    }
}

/// The text of a run of words and spaces: the words, with a blank for each space token.
pub open spec fn text_of(r: Seq<Tree>) -> Seq<char>
    decreases r.len(),
{
    if r.len() == 0 {
        seq![]
    } else {
        let t = text_of(r.drop_last());
        match r.last() {
            Tree::String(s) => t + s,
            Tree::Token(Token::Space, _) => t.push(' '),
            _ => t,
        }
    }
}

/// Reading the digits of a number from the left: each digit token counts at
/// its place from the right among `place` places; gives the places left and
/// the value so far. Undefined where a token is not a digit or a value
/// passes `u64::MAX`.
pub open spec fn number_fold(r: Seq<Tree>, place: nat) -> Option<(nat, nat)>
    decreases r.len(),
{
    if r.len() == 0 {
        Some((place, 0))
    } else {
        match number_fold(r.drop_last(), place) {
            None => None,
            Some((p, v)) => match r.last() {
                Tree::Token(_, b) => match byte_digit(b) {
                    None => None,
                    Some(d) => if pow10(p) > u64::MAX || d * pow10(p) > u64::MAX || v + d
                        * pow10(p) > u64::MAX {
                        None
                    } else {
                        Some(((p - 1) as nat, (v + d * pow10(p)) as nat))
                    },
                },
                _ => Some((p, v)),
            },
        }
    }
}

/// The value of a number's digit tokens, each at its place among all the nodes.
pub open spec fn number_of(r: Seq<Tree>) -> Option<u64> {
    match number_fold(r, r.len()) {
        None => None,
        Some((_, v)) => Some(v as u64),
    }
}

/// Folds a run of operands and operators into one tree: each function node
/// takes the tree so far as its first child, before its own children in
/// reverse order.
pub open spec fn leveled(r: Seq<Tree>) -> Tree
    decreases r.len(),
{
    if r.len() == 0 {
        Tree::Null
    } else {
        let last = leveled(r.drop_last());
        if last is Null {
            r.last()
        } else {
            match r.last() {
                Tree::Function(name, ch) => Tree::Function(name, seq![last] + ch.reverse()),
                _ => Tree::Function(seq![], seq![last]),
            }
        }
    }
}

/// The name an operator node gives a function: the character of its token;
/// nothing for other nodes. Undefined for a token whose byte is unknown.
pub open spec fn operator_name(t: Tree) -> Option<Seq<char>> {
    match t {
        Tree::Token(_, b) => match byte_char(b) {
            Some(c) => Some(seq![c]),
            None => None,
        },
        _ => Some(seq![]),
    }
}

/// The syntax nodes that a parse node of rule `rule` gives, from the syntax
/// nodes `r` of its children. Undefined where the compiler fails: a missing
/// child, an unknown byte, a number or a hash past `u64::MAX`.
pub open spec fn shape(rule: Rule, r: Seq<Tree>) -> Option<Seq<Tree>> {
    match rule {
        Rule::Root => Some(seq![]),
        Rule::Fragment => Some(seq![Tree::Branch(Kind::Fragment, r)]),
        Rule::Program => Some(seq![Tree::Branch(Kind::Program, r)]),
        Rule::Head => Some(seq![Tree::Branch(Kind::Head, r)]),
        Rule::Body => Some(seq![Tree::Branch(Kind::Body, r)]),
        Rule::Section => Some(seq![Tree::Branch(Kind::Section, r)]),
        Rule::Block => Some(seq![Tree::Branch(Kind::Block, r)]),
        Rule::Data => Some(seq![Tree::Branch(Kind::Data, r)]),
        Rule::SelectData => Some(seq![Tree::Branch(Kind::SelectData, r)]),
        Rule::Statement => Some(seq![Tree::Branch(Kind::Statement, r)]),
        Rule::Expression => Some(seq![Tree::Branch(Kind::Expression, r)]),
        Rule::DataWatch => Some(seq![Tree::Branch(Kind::DataWatch, r)]),
        Rule::SelectExpression => Some(seq![Tree::Branch(Kind::SelectExpression, r)]),
        Rule::RowDefine => Some(seq![Tree::Branch(Kind::RowDefine, drop_tokens(r))]),
        Rule::SetData => Some(seq![Tree::Branch(Kind::SetData, drop_tokens(r))]),
        Rule::Column => Some(seq![Tree::Branch(Kind::Column, drop_tokens(r))]),
        Rule::Binding => Some(seq![Tree::Branch(Kind::Binding, drop_tokens(r))]),
        Rule::Constraint => Some(seq![Tree::Branch(Kind::Constraint, drop_tokens(r))]),
        Rule::MathExpression => Some(seq![Tree::Branch(Kind::MathExpression, drop_tokens(r))]),
        Rule::ColumnDefine => Some(seq![Tree::Branch(Kind::ColumnDefine, drop_tokens(r))]),
        Rule::TableDefine => Some(seq![Tree::Branch(Kind::TableDefine, drop_tokens(r))]),
        Rule::AddRow => Some(seq![Tree::Branch(Kind::AddRow, drop_tokens(r))]),
        Rule::FilterExpression => Some(seq![Tree::Branch(Kind::FilterExpression, drop_spaces(r))]),
        Rule::Infix => if r.len() < 1 {
            None
        } else {
            match operator_name(r[0]) {
                None => None,
                Some(name) => Some(seq![Tree::Function(name, seq![])]),
            }
        },
        Rule::DotIndex => Some(seq![Tree::DotIndex(seq![], drop_tokens(r))]),
        Rule::BracketIndex => Some(seq![Tree::BracketIndex(seq![], drop_tokens(r))]),
        Rule::Table => if r.len() < 2 {
            None
        } else {
            match r[1] {
                Tree::Identifier(name, id) => Some(seq![Tree::Table(name, id)]),
                _ => Some(seq![]),
            }
        },
        Rule::Number => match number_of(r) {
            None => None,
            Some(v) => Some(seq![Tree::Constant(v)]),
        },
        Rule::Paragraph => if r.len() < 1 {
            None
        } else {
            Some(
                seq![
                    match r[0] {
                        Tree::String(text) => Tree::Paragraph(text),
                        _ => Tree::Null,
                    },
                ],
            )
        },
        Rule::Title => if r.len() < 3 {
            None
        } else {
            Some(
                seq![
                    match r[2] {
                        Tree::String(text) => Tree::Title(text),
                        _ => Tree::Null,
                    },
                ],
            )
        },
        Rule::Subtitle => if r.len() < 4 {
            None
        } else {
            Some(
                seq![
                    match r[3] {
                        Tree::String(text) => Tree::Title(text),
                        _ => Tree::Null,
                    },
                ],
            )
        },
        Rule::Text => Some(seq![Tree::String(text_of(r))]),
        Rule::Word => match word_of(r) {
            None => None,
            Some(w) => Some(seq![Tree::String(w)]),
        },
        Rule::TableIdentifier | Rule::Identifier => match word_of(r) {
            None => None,
            Some(w) => if hash_chars(w) <= u64::MAX {
                Some(drop_tokens(r).push(Tree::Identifier(w, hash_chars(w) as u64)))
            } else {
                None
            },
        },
        Rule::L1 | Rule::L2 | Rule::L3 | Rule::L4 => Some(seq![leveled(r)]),
        Rule::L1Infix | Rule::L2Infix | Rule::L3Infix => if r.len() < 4 {
            None
        } else {
            match operator_name(r[1]) {
                None => None,
                Some(name) => Some(seq![Tree::Function(name, seq![r[3]])]),
            }
        },
        Rule::TableDefineRHS | Rule::Index | Rule::Comparator | Rule::IdentifierOrNumber
        | Rule::ProseOrCode | Rule::StatementOrExpression | Rule::Constant | Rule::SetOperator
        | Rule::Repeat | Rule::Alphanumeric | Rule::IdentifierCharacter => Some(r),
        Rule::Whitespace | Rule::Newline => Some(seq![]),
    }
}

/// Building a syntax tree from a parse tree.
pub open spec fn build(t: ParseTree) -> Option<Built>
    decreases t,
{
    match t {
        ParseTree::Leaf(token, byte) => Some(
            Built { nodes: seq![Tree::Token(token, byte)], calls: 1, root: None },
        ),
        ParseTree::Null => Some(Built { nodes: seq![], calls: 1, root: None }),
        ParseTree::Branch(rule, ch) => if rule == Rule::Whitespace || rule == Rule::Newline {
            Some(Built { nodes: seq![], calls: 1, root: None })
        } else {
            match build_all(ch) {
                None => None,
                Some(k) => match shape(rule, k.nodes) {
                    None => None,
                    Some(out) => Some(
                        Built {
                            nodes: out,
                            calls: k.calls + 1,
                            root: if rule == Rule::Root {
                                Some(k.nodes)
                            } else {
                                k.root
                            },
                        },
                    ),
                },
            }
        },
    }
}

/// Building each parse tree of a sequence in turn: the syntax nodes are
/// concatenated, the visits added up, and a later root replaces an earlier one.
pub open spec fn build_all(s: Seq<ParseTree>) -> Option<Built>
    decreases s,
{
    if s.len() == 0 {
        Some(Built { nodes: seq![], calls: 0, root: None })
    } else {
        match build_all(s.drop_last()) {
            None => None,
            Some(a) => match build(s.last()) {
                None => None,
                Some(b) => Some(
                    Built {
                        nodes: a.nodes + b.nodes,
                        calls: a.calls + b.calls,
                        root: if b.root is Some {
                            b.root
                        } else {
                            a.root
                        },
                    },
                ),
            },
        }
    }
}


// ## Laws

/// Where a sequence of parse trees builds, so does each prefix, with no more visits.
pub proof fn lemma_build_all_prefix(s: Seq<ParseTree>, i: int)
    requires
        0 <= i <= s.len(),
        build_all(s) is Some,
    ensures
        build_all(s.take(i)) is Some,
        build_all(s.take(i)).unwrap().calls <= build_all(s).unwrap().calls,
    decreases s.len(),
{
    if i == s.len() {
        assert(s.take(i) =~= s);
    } else {
        lemma_build_all_prefix(s.drop_last(), i);
        assert(s.drop_last().take(i) =~= s.take(i));
    }
}

/// Building one more parse tree of a sequence: the step from a prefix to the next.
pub proof fn lemma_build_all_step(s: Seq<ParseTree>, i: int)
    requires
        0 <= i < s.len(),
    ensures
        build_all(s.take(i + 1)) == (match build_all(s.take(i)) {
            None => None,
            Some(a) => match build(s[i]) {
                None => None,
                Some(b) => Some(
                    Built {
                        nodes: a.nodes + b.nodes,
                        calls: a.calls + b.calls,
                        root: if b.root is Some {
                            b.root
                        } else {
                            a.root
                        },
                    },
                ),
            },
        }),
{
    assert(s.take(i + 1).drop_last() =~= s.take(i));
    assert(s.take(i + 1).last() == s[i]);
}

/// The words the compiler builds are ASCII: every byte it knows is an ASCII character.
pub proof fn lemma_word_ascii(r: Seq<Tree>)
    requires
        word_of(r) is Some,
    ensures
        is_ascii_chars(word_of(r).unwrap()),
    decreases r.len(),
{
    if r.len() > 0 {
        lemma_word_ascii(r.drop_last());
        let w = word_of(r.drop_last()).unwrap();
        match r.last() {
            Tree::Token(_, b) => {
                let c = b as char;
                assert(b <= 126);
                assert('\0' <= c <= '\u{7f}');
                assert forall|j: int| 0 <= j < w.push(c).len() implies '\0' <= #[trigger] w.push(
                    c,
                )[j] <= '\u{7f}' by {
                    if j < w.len() {
                        assert(w.push(c)[j] == w[j]);
                    }
                }
            },
            _ => {},
        }
    }
}

/// Where the digits of a number read, so do those of each prefix.
pub proof fn lemma_number_prefix(r: Seq<Tree>, place: nat, i: int)
    requires
        0 <= i <= r.len(),
        number_fold(r, place) is Some,
    ensures
        number_fold(r.take(i), place) is Some,
    decreases r.len(),
{
    if i == r.len() {
        assert(r.take(i) =~= r);
    } else {
        lemma_number_prefix(r.drop_last(), place, i);
        assert(r.drop_last().take(i) =~= r.take(i));
    }
}

/// The number of nodes of a parse tree, not counting what lies below a
/// whitespace or newline node.
pub open spec fn parse_size(t: ParseTree) -> nat
    decreases t,
{
    match t {
        ParseTree::Branch(rule, ch) => if rule == Rule::Whitespace || rule == Rule::Newline {
            1
        } else {
            1 + parse_sizes(ch)
        },
        _ => 1,
    }
}

/// The number of nodes of a sequence of parse trees.
pub open spec fn parse_sizes(s: Seq<ParseTree>) -> nat
    decreases s,
{
    if s.len() == 0 {
        0
    } else {
        parse_sizes(s.drop_last()) + parse_size(s.last())
    }
}

/// Building visits every node of the parse tree exactly once, but for what
/// lies below a whitespace or newline node, which it leaves alone: the depth
/// counter goes up by the number of those nodes.
pub proof fn lemma_build_visits_every_node(t: ParseTree)
    ensures
        build(t) matches Some(b) ==> b.calls == parse_size(t),
    decreases t,
{
    match t {
        ParseTree::Branch(_, ch) => lemma_build_all_visits_every_node(ch),
        _ => {},
    }
}

/// Building a sequence visits every node of each of its trees exactly once.
pub proof fn lemma_build_all_visits_every_node(s: Seq<ParseTree>)
    ensures
        build_all(s) matches Some(b) ==> b.calls == parse_sizes(s),
    decreases s,
{
    if s.len() > 0 {
        lemma_build_all_visits_every_node(s.drop_last());
        lemma_build_visits_every_node(s.last());
    }
}

/// What building two sequences one after the other gives: the nodes
/// concatenated, the visits added up, and the second's root where it met one.
pub open spec fn built_then(a: Built, b: Built) -> Built {
    Built {
        nodes: a.nodes + b.nodes,
        calls: a.calls + b.calls,
        root: if b.root is Some {
            b.root
        } else {
            a.root
        },
    }
}

/// Building two sequences of parse trees one after the other is building
/// their concatenation. No trees give no nodes, no visits and no root.
pub proof fn lemma_build_all_append(a: Seq<ParseTree>, b: Seq<ParseTree>)
    ensures
        build_all(seq![]) == Some(Built { nodes: seq![], calls: 0, root: None }),
        build_all(a + b) == (match build_all(a) {
            None => None,
            Some(ba) => match build_all(b) {
                None => None,
                Some(bb) => Some(built_then(ba, bb)),
            },
        }),
    decreases b.len(),
{
    if b.len() == 0 {
        assert(a + b =~= a);
        if let Some(ba) = build_all(a) {
            assert(ba.nodes + seq![] =~= ba.nodes);
        }
    } else {
        lemma_build_all_append(a, b.drop_last());
        assert((a + b).drop_last() =~= a + b.drop_last());
        assert((a + b).last() == b.last());
        if let Some(ba) = build_all(a) {
            if let Some(bb) = build_all(b.drop_last()) {
                if let Some(bl) = build(b.last()) {
                    assert(ba.nodes + bb.nodes + bl.nodes =~= ba.nodes + (bb.nodes + bl.nodes));
                }
            }
        }
    }
}

/// Whitespace and newline nodes give nothing and are visited without their
/// children.
pub proof fn lemma_space_is_skipped(ch: Seq<ParseTree>)
    ensures
        build(ParseTree::Branch(Rule::Whitespace, ch)) == Some(
            Built { nodes: seq![], calls: 1, root: None },
        ),
        build(ParseTree::Branch(Rule::Newline, ch)) == Some(
            Built { nodes: seq![], calls: 1, root: None },
        ),
{
}

/// Three token leaves at the head of a sequence build to three token nodes.
proof fn lemma_three_tokens_first(ch: Seq<ParseTree>)
    requires
        ch.len() >= 3,
        ch[0] is Leaf,
        ch[1] is Leaf,
        ch[2] is Leaf,
    ensures
        build_all(ch.take(3)) matches Some(k) && k.nodes.len() == 3 && k.nodes[0] is Token
            && k.nodes[1] is Token && k.nodes[2] is Token && k.root is None,
{
    assert(ch.take(0) =~= Seq::<ParseTree>::empty());
    lemma_build_all_step(ch, 0);
    lemma_build_all_step(ch, 1);
    lemma_build_all_step(ch, 2);
}

/// A title reads its text after its hash mark and space: where its first
/// two children are tokens and its third builds to the string `t`, it
/// builds to the title `t`.
pub proof fn lemma_title_reads_its_text(ch: Seq<ParseTree>, t: Seq<char>)
    requires
        ch.len() == 3,
        ch[0] is Leaf,
        ch[1] is Leaf,
        build(ch[2]) matches Some(b) && b.nodes == seq![Tree::String(t)],
    ensures
        build(ParseTree::Branch(Rule::Title, ch)) matches Some(b) && b.nodes == seq![Tree::Title(t)],
{
    assert(ch.take(0) =~= Seq::<ParseTree>::empty());
    lemma_build_all_step(ch, 0);
    lemma_build_all_step(ch, 1);
    lemma_build_all_step(ch, 2);
    assert(ch.take(3) =~= ch);
    let k = build_all(ch).unwrap();
    assert(k.nodes.len() == 3);
    assert(k.nodes[2] == Tree::String(t));
}

/// A subtitle reads its text after its two hash marks and space: where its
/// first three children are tokens and its fourth builds to the string `t`,
/// it builds to the title `t`.
pub proof fn lemma_subtitle_reads_its_text(ch: Seq<ParseTree>, t: Seq<char>)
    requires
        ch.len() == 4,
        ch[0] is Leaf,
        ch[1] is Leaf,
        ch[2] is Leaf,
        build(ch[3]) matches Some(b) && b.nodes == seq![Tree::String(t)],
    ensures
        build(ParseTree::Branch(Rule::Subtitle, ch)) matches Some(b) && b.nodes == seq![
            Tree::Title(t),
        ],
{
    lemma_three_tokens_first(ch);
    lemma_build_all_step(ch, 3);
    assert(ch.take(4) =~= ch);
    let k = build_all(ch).unwrap();
    assert(k.nodes.len() == 4);
    assert(k.nodes[3] == Tree::String(t));
}

/// The rules that only group their children hand the children's syntax
/// nodes on unchanged, one visit more; a data watch becomes a data watch
/// node over them.
pub proof fn lemma_pass_through(rule: Rule, ch: Seq<ParseTree>)
    ensures
        (rule == Rule::Comparator || rule == Rule::IdentifierOrNumber || rule == Rule::ProseOrCode
            || rule == Rule::StatementOrExpression || rule == Rule::Constant || rule
            == Rule::SetOperator || rule == Rule::Repeat || rule == Rule::Alphanumeric || rule
            == Rule::IdentifierCharacter || rule == Rule::Index || rule == Rule::TableDefineRHS)
            ==> build(ParseTree::Branch(rule, ch)) == (match build_all(ch) {
            None => None,
            Some(k) => Some(Built { calls: k.calls + 1, ..k }),
        }),
        build(ParseTree::Branch(Rule::DataWatch, ch)) == (match build_all(ch) {
            None => None,
            Some(k) => Some(
                Built { nodes: seq![Tree::Branch(Kind::DataWatch, k.nodes)], calls: k.calls + 1, ..k },
            ),
        }),
{
}

/// The digit tokens that spell a numeral.
pub open spec fn digit_tokens(w: Seq<char>) -> Seq<Tree> {
    Seq::new(w.len(), |i: int| Tree::Token(Token::Digit, w[i] as u8))
}

/// The value of a string of decimal digits.
pub open spec fn digits_value(w: Seq<char>) -> nat
    decreases w.len(),
{
    if w.len() == 0 {
        0
    } else {
        digits_value(w.drop_last()) * 10 + ((w.last() as u8) - 48) as nat
    }
}

/// Every character is a decimal digit.
pub open spec fn all_digits(w: Seq<char>) -> bool {
    forall|i: int| 0 <= i < w.len() ==> '0' <= #[trigger] w[i] <= '9'
}

/// The character of a digit is that digit's ASCII code.
proof fn lemma_digit_char(d: nat)
    requires
        d < 10,
    ensures
        digit_char(d) as u8 == 48 + d,
        '0' <= digit_char(d) <= '9',
{
    let b = (48 + d) as u8;
    assert(b == 48 + d);
    let c = b as char;
    assert(c as int == b as int);
    assert(c as u8 == b);
}

/// A numeral is made of digits and spells its number.
pub proof fn lemma_decimal_digits(v: nat)
    ensures
        all_digits(decimal(v)),
        digits_value(decimal(v)) == v,
        decimal(v).len() >= 1,
    decreases v,
{
    lemma_digit_char(v % 10);
    if v < 10 {
        assert(decimal(v).drop_last() =~= Seq::<char>::empty());
        assert(decimal(v).last() == digit_char(v));
        assert(v % 10 == v);
        assert(digit_char(v) as u8 == 48 + v);
        assert(digits_value(Seq::<char>::empty()) == 0);
        assert(digits_value(decimal(v)) == v);
    } else {
        lemma_decimal_digits(v / 10);
        let w = decimal(v / 10);
        let c = digit_char(v % 10);
        assert(decimal(v) == w.push(c));
        assert(w.push(c).drop_last() =~= w);
        assert(w.push(c).last() == c);
        assert(digits_value(w.push(c)) == digits_value(w) * 10 + ((c as u8) - 48) as nat);
        assert(digits_value(w.push(c)) == (v / 10) * 10 + v % 10);
        assert forall|i: int| 0 <= i < w.push(c).len() implies '0' <= #[trigger] w.push(c)[i]
            <= '9' by {
            if i < w.len() {
                assert(w.push(c)[i] == w[i]);
            }
        }
    }
}

/// Reading digit tokens with `place` places: the places left and the value
/// read, scaled by the places still to come.
proof fn lemma_number_fold_digits(w: Seq<char>, place: nat)
    requires
        all_digits(w),
        w.len() <= place,
        pow10(place) <= u64::MAX,
        digits_value(w) * pow10((place - w.len() + 1) as nat) <= u64::MAX,
    ensures
        number_fold(digit_tokens(w), place) == Some(
            ((place - w.len()) as nat, digits_value(w) * pow10((place - w.len() + 1) as nat)),
        ),
    decreases w.len(),
{
    if w.len() > 0 {
        let u = w.drop_last();
        let k = (place - w.len()) as nat;
        assert(digit_tokens(w).drop_last() =~= digit_tokens(u));
        assert forall|i: int| 0 <= i < u.len() implies '0' <= #[trigger] u[i] <= '9' by {
            assert(u[i] == w[i]);
        }
        let d = ((w.last() as u8) - 48) as nat;
        assert('0' <= w[w.len() - 1] <= '9');
        assert(d <= 9);
        let x = pow10(k + 1);
        assert(pow10(k + 2) == 10 * x);
        assert(x >= 1) by {
            crate::encodings::lemma_pow10_monotone(0, k + 1);
        }
        assert(digits_value(w) == digits_value(u) * 10 + d);
        assert(digits_value(u) * (10 * x) <= digits_value(w) * x) by (nonlinear_arith)
            requires
                digits_value(w) == digits_value(u) * 10 + d,
                x >= 1,
                d >= 0,
        ;
        lemma_number_fold_digits(u, place);
        assert((place - u.len() + 1) as nat == k + 2);
        assert(digit_tokens(w).last() == Tree::Token(Token::Digit, w.last() as u8));
        assert(byte_digit(w.last() as u8) == Some(d as u64));
        crate::encodings::lemma_pow10_monotone(k + 1, place);
        assert(d * x + digits_value(u) * (10 * x) == digits_value(w) * x) by (nonlinear_arith)
            requires
                digits_value(w) == digits_value(u) * 10 + d,
        ;
        assert(d * x <= digits_value(w) * x) by (nonlinear_arith)
            requires
                digits_value(w) == digits_value(u) * 10 + d,
                x >= 1,
        ;
        let t = digit_tokens(w);
        assert(number_fold(t.drop_last(), place) == Some(((k + 1) as nat, digits_value(u) * pow10(k + 2))));
        assert(digits_value(u) * pow10(k + 2) == digits_value(u) * (10 * x));
        assert(pow10(k + 1) <= u64::MAX);
        assert(d * pow10(k + 1) <= u64::MAX);
        assert(digits_value(u) * pow10(k + 2) + d * pow10(k + 1) == digits_value(w) * x);
        assert(number_fold(t, place) == Some((k, digits_value(w) * x)));
    } else {
        assert(digit_tokens(w) =~= Seq::<Tree>::empty());
        assert(digits_value(w) == 0);
        let y = pow10((place + 1) as nat);
        assert(0 * y == 0) by (nonlinear_arith);
    }
}

/// Reading the digits of a numeral gives back its number: a number node
/// whose children are the digit tokens of the decimal numeral of `v`
/// builds to the constant `v`.
pub proof fn lemma_number_reads_numeral(v: u64)
    ensures
        number_of(digit_tokens(decimal(v as nat))) == Some(v),
{
    let w = decimal(v as nat);
    lemma_decimal_digits(v as nat);
    reveal_with_fuel(exp10, 21);
    assert(exp10(20) == 100000000000000000000);
    lemma_decimal_len(v as nat, 20);
    reveal_with_fuel(pow10, 21);
    assert(pow10(20) == 10000000000000000000);
    crate::encodings::lemma_pow10_monotone(w.len(), 20);
    assert(pow10(1) == 1);
    lemma_number_fold_digits(w, w.len());
    assert(digit_tokens(w).len() == w.len());
}

/// Dropping tokens leaves no token, and leaves a sequence without tokens as it is.
pub proof fn lemma_drop_tokens(r: Seq<Tree>)
    ensures
        forall|i: int| 0 <= i < drop_tokens(r).len() ==> !(#[trigger] drop_tokens(r)[i] is Token),
        (forall|i: int| 0 <= i < r.len() ==> !(#[trigger] r[i] is Token)) ==> drop_tokens(r) == r,
    decreases r.len(),
{
    if r.len() > 0 {
        lemma_drop_tokens(r.drop_last());
        if forall|i: int| 0 <= i < r.len() ==> !(#[trigger] r[i] is Token) {
            assert forall|i: int| 0 <= i < r.drop_last().len() implies !(
            #[trigger] r.drop_last()[i] is Token) by {
                assert(r.drop_last()[i] == r[i]);
            }
            assert(!(r[r.len() - 1] is Token));
            assert(r.drop_last().push(r.last()) =~= r);
        }
        let d = drop_tokens(r.drop_last());
        assert forall|i: int| 0 <= i < drop_tokens(r).len() implies !(
        #[trigger] drop_tokens(r)[i] is Token) by {
            if i < d.len() {
                if !(r.last() is Token) {
                    assert(drop_tokens(r)[i] == d[i]);
                }
            }
        }
    }
}

/// Dropping spaces leaves no space token.
pub proof fn lemma_drop_spaces(r: Seq<Tree>)
    ensures
        forall|i: int|
            0 <= i < drop_spaces(r).len() ==> !(#[trigger] drop_spaces(r)[i] matches Tree::Token(
                Token::Space,
                _,
            )),
    decreases r.len(),
{
    if r.len() > 0 {
        lemma_drop_spaces(r.drop_last());
        let d = drop_spaces(r.drop_last());
        assert forall|i: int| 0 <= i < drop_spaces(r).len() implies !(
        #[trigger] drop_spaces(r)[i] matches Tree::Token(Token::Space, _)) by {
            if i < d.len() {
                if !(r.last() matches Tree::Token(Token::Space, _)) {
                    assert(drop_spaces(r)[i] == d[i]);
                }
            }
        }
    }
}

// ## Building, step by step

/// Takes the first node off a vector.
pub(crate) fn take_front(v: &mut Vec<Node>) -> (n: Node)
    requires
        old(v)@.len() > 0,
    ensures
        n@ == trees(old(v)@)[0],
        trees(final(v)@) == trees(old(v)@).subrange(1, old(v)@.len() as int),
        final(v)@.len() == old(v)@.len() - 1,
{
    let n = v.remove(0);
    assert(trees(v@) =~= trees(old(v)@).subrange(1, old(v)@.len() as int)) by {
        assert forall|j: int| 0 <= j < v@.len() implies trees(v@)[j] == trees(old(v)@).subrange(
            1,
            old(v)@.len() as int,
        )[j] by {
            assert(v@[j] == old(v)@[j + 1]);
        }
    }
    n
}

/// Takes the first node off a vector of parse nodes.
pub(crate) fn take_front_parse(v: &mut Vec<parser::Node>) -> (n: parser::Node)
    requires
        old(v)@.len() > 0,
    ensures
        n@ == parser::models(old(v)@)[0],
        parser::models(final(v)@) == parser::models(old(v)@).subrange(1, old(v)@.len() as int),
        final(v)@.len() == old(v)@.len() - 1,
{
    let n = v.remove(0);
    assert(parser::models(v@) =~= parser::models(old(v)@).subrange(1, old(v)@.len() as int)) by {
        assert forall|j: int| 0 <= j < v@.len() implies parser::models(v@)[j]
            == parser::models(old(v)@).subrange(1, old(v)@.len() as int)[j] by {
            assert(v@[j] == old(v)@[j + 1]);
        }
    }
    n
}

/// A vector of one node.
pub(crate) fn single(n: Node) -> (v: Vec<Node>)
    ensures
        trees(v@) == seq![n@],
{
    let mut v: Vec<Node> = Vec::new();
    v.push(n);
    assert(trees(v@) =~= seq![n@]);
    v
}

/// No nodes.
pub(crate) fn none() -> (v: Vec<Node>)
    ensures
        trees(v@) == Seq::<Tree>::empty(),
{
    let v: Vec<Node> = Vec::new();
    assert(trees(v@) =~= Seq::<Tree>::empty());
    v
}

/// Appending one node to a vector appends its tree to the trees.
proof fn lemma_trees_push(s: Seq<Node>, n: Node)
    ensures
        trees(s.push(n)) == trees(s).push(n@),
{
    assert(trees(s.push(n)) =~= trees(s).push(n@)) by {
        assert forall|j: int| 0 <= j < s.len() + 1 implies trees(s.push(n))[j] == trees(s).push(
            n@,
        )[j] by {
            if j < s.len() {
                assert(s.push(n)[j] == s[j]);
            }
        }
    }
}

/// Concatenating vectors concatenates their trees.
pub proof fn lemma_trees_add(a: Seq<Node>, b: Seq<Node>)
    ensures
        trees(a + b) == trees(a) + trees(b),
{
    assert(trees(a + b) =~= trees(a) + trees(b)) by {
        assert forall|j: int| 0 <= j < a.len() + b.len() implies trees(a + b)[j] == (trees(a)
            + trees(b))[j] by {
            if j < a.len() {
                assert((a + b)[j] == a[j]);
            } else {
                assert((a + b)[j] == b[j - a.len()]);
            }
        }
    }
}

/// The nodes of a vector that are not tokens, in order.
fn drop_tokens_of(v: Vec<Node>) -> (r: Vec<Node>)
    ensures
        trees(r@) == drop_tokens(trees(v@)),
{
    let ghost s = trees(v@);
    let n0 = v.len();
    let ghost n = n0 as nat;
    let mut v = v;
    let mut out: Vec<Node> = Vec::new();
    let mut i: usize = 0;
    assert(s.take(0) =~= seq![]);
    assert(trees(out@) =~= seq![]);
    assert(s.subrange(0, n as int) =~= s);
    while v.len() > 0
        invariant
            i + v@.len() == n,
            n <= usize::MAX,
            s.len() == n,
            trees(v@) == s.subrange(i as int, n as int),
            trees(out@) == drop_tokens(s.take(i as int)),
        decreases v.len(),
    {
        assert(s.take(i + 1).drop_last() =~= s.take(i as int));
        assert(s.take(i + 1).last() == s[i as int]);
        let node = take_front(&mut v);
        assert(trees(v@) =~= s.subrange(i + 1, n as int));
        match &node {
            Node::Token { .. } => {},
            _ => {
                proof {
                    lemma_trees_push(out@, node);
                }
                out.push(node);
            },
        }
        i = i + 1;
    }
    assert(s.take(n as int) =~= s);
    out
}

/// The nodes of a vector that are not space tokens, in order.
fn drop_spaces_of(v: Vec<Node>) -> (r: Vec<Node>)
    ensures
        trees(r@) == drop_spaces(trees(v@)),
{
    let ghost s = trees(v@);
    let n0 = v.len();
    let ghost n = n0 as nat;
    let mut v = v;
    let mut out: Vec<Node> = Vec::new();
    let mut i: usize = 0;
    assert(s.take(0) =~= seq![]);
    assert(trees(out@) =~= seq![]);
    assert(s.subrange(0, n as int) =~= s);
    while v.len() > 0
        invariant
            i + v@.len() == n,
            n <= usize::MAX,
            s.len() == n,
            trees(v@) == s.subrange(i as int, n as int),
            trees(out@) == drop_spaces(s.take(i as int)),
        decreases v.len(),
    {
        assert(s.take(i + 1).drop_last() =~= s.take(i as int));
        assert(s.take(i + 1).last() == s[i as int]);
        let node = take_front(&mut v);
        assert(trees(v@) =~= s.subrange(i + 1, n as int));
        match &node {
            Node::Token { token: Token::Space, byte: _ } => {},
            _ => {
                proof {
                    lemma_trees_push(out@, node);
                }
                out.push(node);
            },
        }
        i = i + 1;
    }
    assert(s.take(n as int) =~= s);
    out
}

/// The characters of the tokens of a vector, in order.
fn word_from(v: &Vec<Node>) -> (w: String)
    requires
        word_of(trees(v@)) is Some,
    ensures
        w@ == word_of(trees(v@)).unwrap(),
{
    let ghost s = trees(v@);
    let mut w = String::new();
    let mut i: usize = 0;
    assert(s.take(0) =~= seq![]);
    while i < v.len()
        invariant
            i <= v.len(),
            s == trees(v@),
            word_of(s) is Some,
            word_of(s.take(i as int)) == Some(w@),
        decreases v.len() - i,
    {
        assert(s.take(i + 1).drop_last() =~= s.take(i as int));
        assert(s.take(i + 1).last() == s[i as int]);
        assert(s[i as int] == v@[i as int]@);
        proof {
            lemma_word_prefix(s, i + 1);
        }
        match &v[i] {
            Node::Token { token: _, byte } => {
                let c = byte_to_char(*byte).unwrap();
                push_char(&mut w, c);
            },
            _ => {},
        }
        i = i + 1;
    }
    assert(s.take(v.len() as int) =~= s);
    w
}

/// Where the characters of the tokens are defined, so they are for each prefix.
pub proof fn lemma_word_prefix(r: Seq<Tree>, i: int)
    requires
        0 <= i <= r.len(),
        word_of(r) is Some,
    ensures
        word_of(r.take(i)) is Some,
    decreases r.len(),
{
    if i == r.len() {
        assert(r.take(i) =~= r);
    } else {
        lemma_word_prefix(r.drop_last(), i);
        assert(r.drop_last().take(i) =~= r.take(i));
    }
}

/// The text of a run of words and spaces.
fn text_from(v: &Vec<Node>) -> (t: String)
    ensures
        t@ == text_of(trees(v@)),
{
    let ghost s = trees(v@);
    let mut t = String::new();
    let mut i: usize = 0;
    assert(s.take(0) =~= seq![]);
    while i < v.len()
        invariant
            i <= v.len(),
            s == trees(v@),
            text_of(s.take(i as int)) == t@,
        decreases v.len() - i,
    {
        assert(s.take(i + 1).drop_last() =~= s.take(i as int));
        assert(s.take(i + 1).last() == s[i as int]);
        assert(s[i as int] == v@[i as int]@);
        match &v[i] {
            Node::String { text } => {
                push_text(&mut t, text.as_str());
            },
            Node::Token { token: Token::Space, byte: _ } => {
                push_char(&mut t, ' ');
            },
            _ => {},
        }
        i = i + 1;
    }
    assert(s.take(v.len() as int) =~= s);
    t
}

/// The value of the digit tokens of a number.
fn number_from(v: &Vec<Node>) -> (value: u64)
    requires
        number_of(trees(v@)) is Some,
    ensures
        value == number_of(trees(v@)).unwrap(),
{
    let ghost s = trees(v@);
    let n = v.len();
    let mut value: u64 = 0;
    let mut place: usize = n;
    let mut i: usize = 0;
    assert(s.take(0) =~= seq![]);
    while i < n
        invariant
            i <= n,
            n == v.len(),
            s == trees(v@),
            place + i >= n,
            place <= n,
            number_fold(s, n as nat) is Some,
            number_fold(s.take(i as int), n as nat) == Some((place as nat, value as nat)),
        decreases n - i,
    {
        assert(s.take(i + 1).drop_last() =~= s.take(i as int));
        assert(s.take(i + 1).last() == s[i as int]);
        assert(s[i as int] == v@[i as int]@);
        proof {
            lemma_number_prefix(s, n as nat, i + 1);
        }
        match &v[i] {
            Node::Token { token: _, byte } => {
                let digit = byte_to_digit(*byte).unwrap();
                let q = digit * magnitude(place);
                place = place - 1;
                value = value + q;
            },
            _ => {},
        }
        i = i + 1;
    }
    assert(s.take(n as int) =~= s);
    value
}

/// Whether a node is the empty node.
fn is_null(n: &Node) -> (b: bool)
    ensures
        b == (n@ is Null),
{
    match n {
        Node::Null => true,
        _ => false,
    }
}

/// The nodes of a vector in reverse order.
fn reversed_nodes(v: Vec<Node>) -> (r: Vec<Node>)
    ensures
        trees(r@) == trees(v@).reverse(),
{
    let ghost s = trees(v@);
    let ghost n = v@.len();
    let mut v = v;
    let mut r: Vec<Node> = Vec::new();
    assert(trees(r@) =~= seq![]);
    assert(s.take(n as int) =~= s);
    while v.len() > 0
        invariant
            v@.len() <= n,
            s.len() == n,
            trees(v@) == s.take(v@.len() as int),
            trees(r@) == s.reverse().take(n - v@.len()),
        decreases v.len(),
    {
        let ghost k = v@.len();
        let ghost before = v@;
        let node = v.pop().unwrap();
        proof {
            assert(trees(v@) =~= s.take(v@.len() as int)) by {
                assert forall|j: int| 0 <= j < v@.len() implies trees(v@)[j] == s.take(
                    v@.len() as int,
                )[j] by {
                    assert(v@[j] == before[j]);
                    assert(trees(before)[j] == s.take(k as int)[j]);
                }
            }
            assert(trees(before)[k - 1] == s[k - 1]);
            assert(node@ == s[k - 1]);
            lemma_trees_push(r@, node);
        }
        r.push(node);
        assert(trees(r@) =~= s.reverse().take(n - v@.len()));
    }
    assert(trees(r@) =~= s.reverse());
    r
}

/// A sequence with one more element, reversed.
proof fn lemma_reverse_push(s: Seq<Tree>, x: Tree)
    ensures
        s.push(x).reverse() == seq![x] + s.reverse(),
{
    assert(s.push(x).reverse() =~= seq![x] + s.reverse());
}

/// Folds a run of operands and operators into one tree.
fn leveled_of(v: Vec<Node>) -> (t: Node)
    ensures
        t@ == leveled(trees(v@)),
{
    let ghost s = trees(v@);
    let n0 = v.len();
    let ghost n = n0 as nat;
    let mut v = v;
    let mut last = Node::Null;
    let mut i: usize = 0;
    assert(s.take(0) =~= seq![]);
    assert(s.subrange(0, n as int) =~= s);
    while v.len() > 0
        invariant
            i + v@.len() == n,
            n <= usize::MAX,
            s.len() == n,
            trees(v@) == s.subrange(i as int, n as int),
            last@ == leveled(s.take(i as int)),
        decreases v.len(),
    {
        assert(s.take(i + 1).drop_last() =~= s.take(i as int));
        assert(s.take(i + 1).last() == s[i as int]);
        let node = take_front(&mut v);
        assert(trees(v@) =~= s.subrange(i + 1, n as int));
        if is_null(&last) {
            last = node;
        } else {
            let (name, children) = match node {
                Node::Function { name, children } => (name, children),
                _ => {
                    let e: Vec<Node> = Vec::new();
                    assert(trees(e@) =~= seq![]);
                    (String::new(), e)
                },
            };
            let mut children = children;
            let ghost ch = trees(children@);
            proof {
                lemma_trees_push(children@, last);
                lemma_reverse_push(ch, last@);
            }
            children.push(last);
            let children = reversed_nodes(children);
            last = Node::Function { name, children };
        }
        i = i + 1;
    }
    assert(s.take(n as int) =~= s);
    last
}

/// The name an operator node gives a function.
fn operator_name_of(n: &Node) -> (name: String)
    requires
        operator_name(n@) is Some,
    ensures
        name@ == operator_name(n@).unwrap(),
{
    let mut name = String::new();
    match n {
        Node::Token { token: _, byte } => {
            let c = byte_to_char(*byte).unwrap();
            push_char(&mut name, c);
            assert(name@ =~= seq![c]);
        },
        _ => {},
    }
    name
}

/// An identifier: the nodes that are not tokens, then the identifier that
/// the characters of the tokens spell, with its hash.
fn identifier_of(v: Vec<Node>) -> (r: Vec<Node>)
    requires
        word_of(trees(v@)) is Some,
        hash_chars(word_of(trees(v@)).unwrap()) <= u64::MAX,
    ensures
        trees(r@) == drop_tokens(trees(v@)).push(
            Tree::Identifier(
                word_of(trees(v@)).unwrap(),
                hash_chars(word_of(trees(v@)).unwrap()) as u64,
            ),
        ),
{
    let word = word_from(&v);
    let mut rest = drop_tokens_of(v);
    proof {
        lemma_word_ascii(trees(v@));
        lemma_hash_ascii(word@);
    }
    let id = Hasher::hash_string(word.clone());
    let node = Node::Identifier { name: word, id };
    proof {
        lemma_trees_push(rest@, node);
    }
    rest.push(node);
    rest
}

/// The syntax nodes that a parse node of rule `rule` gives, from the syntax
/// nodes of its children.
pub fn shape_of(rule: Rule, r: Vec<Node>) -> (out: Vec<Node>)
    requires
        shape(rule, trees(r@)) is Some,
    ensures
        trees(out@) == shape(rule, trees(r@)).unwrap(),
{
    match rule {
        Rule::Root => none(),
        Rule::Fragment => single(Node::branch(Kind::Fragment, r)),
        Rule::Program => single(Node::branch(Kind::Program, r)),
        Rule::Head => single(Node::branch(Kind::Head, r)),
        Rule::Body => single(Node::branch(Kind::Body, r)),
        Rule::Section => single(Node::branch(Kind::Section, r)),
        Rule::Block => single(Node::branch(Kind::Block, r)),
        Rule::Data => single(Node::branch(Kind::Data, r)),
        Rule::SelectData => single(Node::branch(Kind::SelectData, r)),
        Rule::Statement => single(Node::branch(Kind::Statement, r)),
        Rule::Expression => single(Node::branch(Kind::Expression, r)),
        Rule::DataWatch => single(Node::branch(Kind::DataWatch, r)),
        Rule::SelectExpression => single(Node::branch(Kind::SelectExpression, r)),
        Rule::RowDefine => single(Node::branch(Kind::RowDefine, drop_tokens_of(r))),
        Rule::SetData => single(Node::branch(Kind::SetData, drop_tokens_of(r))),
        Rule::Column => single(Node::branch(Kind::Column, drop_tokens_of(r))),
        Rule::Binding => single(Node::branch(Kind::Binding, drop_tokens_of(r))),
        Rule::Constraint => single(Node::branch(Kind::Constraint, drop_tokens_of(r))),
        Rule::MathExpression => single(Node::branch(Kind::MathExpression, drop_tokens_of(r))),
        Rule::ColumnDefine => single(Node::branch(Kind::ColumnDefine, drop_tokens_of(r))),
        Rule::TableDefine => single(Node::branch(Kind::TableDefine, drop_tokens_of(r))),
        Rule::AddRow => single(Node::branch(Kind::AddRow, drop_tokens_of(r))),
        Rule::TableDefineRHS => r,
        Rule::Index => r,
        Rule::Comparator => r,
        Rule::IdentifierOrNumber => r,
        Rule::ProseOrCode => r,
        Rule::StatementOrExpression => r,
        Rule::Constant => r,
        Rule::SetOperator => r,
        Rule::Repeat => r,
        Rule::Alphanumeric => r,
        Rule::IdentifierCharacter => r,
        Rule::FilterExpression => single(Node::branch(Kind::FilterExpression, drop_spaces_of(r))),
        Rule::Infix => {
            let name = operator_name_of(&r[0]);
            single(Node::Function { name, children: none() })
        },
        Rule::DotIndex => single(Node::DotIndex { rows: none(), columns: drop_tokens_of(r) }),
        Rule::BracketIndex => single(
            Node::BracketIndex { rows: none(), columns: drop_tokens_of(r) },
        ),
        Rule::Table => match &r[1] {
            Node::Identifier { name, id } => single(Node::Table { name: name.clone(), id: *id }),
            _ => none(),
        },
        Rule::Number => single(Node::Constant { value: number_from(&r) }),
        Rule::Paragraph => single(
            match &r[0] {
                Node::String { text } => Node::Paragraph { text: text.clone() },
                _ => Node::Null,
            },
        ),
        Rule::Title => single(
            match &r[2] {
                Node::String { text } => Node::Title { text: text.clone() },
                _ => Node::Null,
            },
        ),
        Rule::Subtitle => single(
            match &r[3] {
                Node::String { text } => Node::Title { text: text.clone() },
                _ => Node::Null,
            },
        ),
        Rule::Text => single(Node::String { text: text_from(&r) }),
        Rule::Word => single(Node::String { text: word_from(&r) }),
        Rule::TableIdentifier | Rule::Identifier => identifier_of(r),
        Rule::L1 | Rule::L2 | Rule::L3 | Rule::L4 => single(leveled_of(r)),
        Rule::L1Infix | Rule::L2Infix | Rule::L3Infix => {
            let mut r = r;
            let ghost before = r@;
            let input = r.remove(3);
            assert(r@[1] == before[1]);
            assert(input@ == trees(before)[3]);
            assert(r@[1]@ == trees(before)[1]);
            let name = operator_name_of(&r[1]);
            single(Node::Function { name, children: single(input) })
        },
        Rule::Whitespace | Rule::Newline => none(),
    }
}

} // verus!
