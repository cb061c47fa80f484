use regex_syntax::hir::{self, Hir, HirKind, RepetitionKind, RepetitionRange};
use vstd::prelude::*;

verus! {

#[verifier::external_type_specification]
#[verifier::external_body]
pub struct ExHir(Hir);

/// How often the inner node of a repetition is generated.
#[derive(Clone, Copy, Debug, PartialEq, Eq)]
pub enum Repeat {
    /// `?`: zero or one time.
    ZeroOrOne,
    /// `*`: zero or more times.
    ZeroOrMore,
    /// `+`: one or more times.
    OneOrMore,
    /// `{n}`: exactly `n` times.
    Exactly(u32),
    /// `{n,}`: at least `n` times.
    AtLeast(u32),
    /// `{min,max}`: between `min` and `max` times, both included.
    Bounded(u32, u32),
}

/// The syntax tree of a grammar, as the generation engine reads it.
#[derive(Debug, PartialEq, Eq)]
pub enum Node {
    /// The empty expression (no construct at all): generated as empty text.
    Empty,
    /// One Unicode scalar value.
    Literal(char),
    /// One raw byte: not generated.
    Byte(u8),
    /// A class of scalar values, as inclusive ranges.
    Class(Vec<(char, char)>),
    /// A class of raw bytes: not generated.
    ByteClass,
    /// A start or end anchor: generated as empty text, since a generated
    /// string has no surroundings to anchor to.
    Anchor,
    /// A word boundary: generated as one space, a stand-in for a boundary
    /// rather than a checked one.
    WordBoundary,
    /// A repeated node.
    Repetition(Repeat, Box<Node>),
    /// A group, capturing or not.
    Group(Box<Node>),
    /// Nodes one after the other.
    Concat(Vec<Node>),
    /// One node out of several.
    Alternation(Vec<Node>),
}

pub open spec fn is_scalar(v: int) -> bool {
    (0 <= v <= 0xD7FF) || (0xE000 <= v <= 0x10FFFF)
}

/// How many scalar values lie between the characters `lo` and `hi`, both
/// included (the surrogate code points are no scalar values).
pub open spec fn range_size(lo: char, hi: char) -> nat {
    if (hi as int) < (lo as int) {
        0
    } else if (lo as int) <= 0xD7FF && 0xE000 <= (hi as int) {
        (hi as int - lo as int + 1 - 0x800) as nat
    } else {
        (hi as int - lo as int + 1) as nat
    }
}

/// The `k`-th scalar value from `lo` upwards, skipping the surrogates.
pub open spec fn range_nth(lo: char, k: int) -> int {
    if (lo as int) <= 0xD7FF && lo as int + k >= 0xD800 {
        lo as int + k + 0x800
    } else {
        lo as int + k
    }
}

/// How many scalar values a class covers, range by range.
pub open spec fn class_size(ranges: Seq<(char, char)>) -> nat
    decreases ranges.len(),
{
    if ranges.len() == 0 {
        0
    } else {
        range_size(ranges[0].0, ranges[0].1) + class_size(ranges.drop_first())
    }
}

/// The `k`-th scalar value of a class, counting the ranges in order.
pub open spec fn class_nth(ranges: Seq<(char, char)>, k: int) -> int
    decreases ranges.len(),
{
    if ranges.len() == 0 {
        0
    } else if k < range_size(ranges[0].0, ranges[0].1) {
        range_nth(ranges[0].0, k)
    } else {
        class_nth(ranges.drop_first(), k - range_size(ranges[0].0, ranges[0].1))
    }
}

pub proof fn lemma_range_nth_scalar(lo: char, hi: char, k: int)
    requires
        0 <= k < range_size(lo, hi),
    ensures
        is_scalar(range_nth(lo, k)),
        lo as int <= range_nth(lo, k) <= hi as int,
{
}

pub proof fn lemma_class_nth_scalar(ranges: Seq<(char, char)>, k: int)
    requires
        0 <= k < class_size(ranges),
    ensures
        is_scalar(class_nth(ranges, k)),
    decreases ranges.len(),
{
    if k < range_size(ranges[0].0, ranges[0].1) {
        lemma_range_nth_scalar(ranges[0].0, ranges[0].1, k);
    } else {
        lemma_class_nth_scalar(ranges.drop_first(), k - range_size(ranges[0].0, ranges[0].1));
    }
}

/// Whether two trees are the same tree: the same kinds, data and children,
/// node for node.
pub open spec fn same_tree(a: Node, b: Node) -> bool
    decreases a, 0nat,
{
    match a {
        Node::Class(x) => b is Class && x@ == b->Class_0@,
        Node::Repetition(k, inner) => match b {
            Node::Repetition(k2, inner2) => k == k2 && same_tree(*inner, *inner2),
            _ => false,
        },
        Node::Group(inner) => match b {
            Node::Group(inner2) => same_tree(*inner, *inner2),
            _ => false,
        },
        Node::Concat(x) => b is Concat && same_trees(x@, b->Concat_0@),
        Node::Alternation(x) => b is Alternation && same_trees(x@, b->Alternation_0@),
        _ => a == b,
    }
}

/// Whether two lists of trees are the same, tree for tree.
pub open spec fn same_trees(x: Seq<Node>, y: Seq<Node>) -> bool
    decreases x, 0nat,
{
    if x.len() == 0 {
        y.len() == 0
    } else {
        &&& y.len() == x.len()
        &&& same_trees(x.subrange(0, x.len() - 1), y.subrange(0, y.len() - 1))
        &&& same_tree(x[x.len() - 1], y[y.len() - 1])
    }
}

/// Whether the parser accepts `pattern` as a grammar.
pub uninterp spec fn grammar_parses(pattern: Seq<char>) -> bool;

/// The tree that the parser gives for `pattern`, in the engine's form: each
/// of the parser's nodes read as the kind of node it is.
pub uninterp spec fn parsed_tree(pattern: Seq<char>) -> Node;

/// A subtree of the parser's tree, with (as ghost state) its reading in the
/// engine's form.
struct ParsedHir {
    hir: Hir,
    node: Ghost<Node>,
}

impl ParsedHir {
    closed spec fn tree(&self) -> Node {
        self.node@
    }
}

/// The kind of a node, whatever its data and children.
enum Shape {
    Empty,
    Literal,
    Class,
    Anchor,
    WordBoundary,
    Repetition,
    Group,
    Concat,
    Alternation,
}

spec fn shape_of_node(n: Node) -> Shape {
    match n {
        Node::Empty => Shape::Empty,
        Node::Literal(_) => Shape::Literal,
        Node::Byte(_) => Shape::Literal,
        Node::Class(_) => Shape::Class,
        Node::ByteClass => Shape::Class,
        Node::Anchor => Shape::Anchor,
        Node::WordBoundary => Shape::WordBoundary,
        Node::Repetition(_, _) => Shape::Repetition,
        Node::Group(_) => Shape::Group,
        Node::Concat(_) => Shape::Concat,
        Node::Alternation(_) => Shape::Alternation,
    }
}

/// The `i`-th child of a concatenation or an alternation.
spec fn child_at(n: Node, i: int) -> Node {
    match n {
        Node::Concat(items) => items@[i],
        Node::Alternation(items) => items@[i],
        _ => n,
    }
}

/// The kind of a repetition.
spec fn repeat_at(n: Node) -> Repeat {
    match n {
        Node::Repetition(kind, _) => kind,
        _ => Repeat::ZeroOrOne,
    }
}

/// The inner node of a repetition or a group.
spec fn inner_at(n: Node) -> Node {
    match n {
        Node::Repetition(_, inner) => *inner,
        Node::Group(inner) => *inner,
        _ => n,
    }
}

/// Relies on regex_syntax's `Parser::parse`, with the settings of
/// `Parser::new`: it returns a tree exactly where the pattern is a valid
/// expression, and the same pattern always gets the same tree.
#[verifier::external_body]
fn parse_hir(pattern: &str) -> (r: Option<ParsedHir>)
    ensures
        r is Some <==> grammar_parses(pattern@),
        r matches Some(h) ==> h.tree() == parsed_tree(pattern@),
{
    match regex_syntax::Parser::new().parse(pattern) {
        Ok(hir) => Some(ParsedHir { hir, node: Ghost(parsed_tree(pattern@)) }),
        Err(_) => None,
    }
}

/// Relies on regex_syntax's `Hir::kind`: the kind of the top node, one arm
/// for each kind (an anchor and a word boundary of any flavour count alike).
#[verifier::external_body]
fn hir_kind(h: &ParsedHir) -> (r: Shape)
    ensures
        r == shape_of_node(h.tree()),
{
    match h.hir.kind() {
        HirKind::Empty => Shape::Empty,
        HirKind::Literal(_) => Shape::Literal,
        HirKind::Class(_) => Shape::Class,
        HirKind::Anchor(_) => Shape::Anchor,
        HirKind::WordBoundary(_) => Shape::WordBoundary,
        HirKind::Repetition(_) => Shape::Repetition,
        HirKind::Group(_) => Shape::Group,
        HirKind::Concat(_) => Shape::Concat,
        HirKind::Alternation(_) => Shape::Alternation,
    }
}

/// Relies on regex_syntax's `hir::Literal`: a character or a raw byte.
#[verifier::external_body]
fn literal_node(h: &ParsedHir) -> (r: Node)
    requires
        shape_of_node(h.tree()) == Shape::Literal,
    ensures
        r == h.tree(),
{
    match h.hir.kind() {
        HirKind::Literal(hir::Literal::Unicode(c)) => Node::Literal(*c),
        HirKind::Literal(hir::Literal::Byte(b)) => Node::Byte(*b),
        _ => Node::Empty,
    }
}

/// Relies on regex_syntax's `hir::Class` and `ClassUnicode::iter`: a class of
/// characters, as its ranges, each its first and last character; or a class
/// of raw bytes.
#[verifier::external_body]
fn class_node(h: &ParsedHir) -> (r: Node)
    requires
        shape_of_node(h.tree()) == Shape::Class,
    ensures
        same_tree(r, h.tree()),
{
    match h.hir.kind() {
        HirKind::Class(hir::Class::Unicode(u)) => Node::Class(u.iter().map(|r| (r.start(), r.end())).collect()),
        _ => Node::ByteClass,
    }
}

/// Relies on regex_syntax's `RepetitionKind`: one arm for each kind.
#[verifier::external_body]
fn repeat_of(h: &ParsedHir) -> (r: Repeat)
    requires
        shape_of_node(h.tree()) == Shape::Repetition,
    ensures
        r == repeat_at(h.tree()),
{
    match h.hir.kind() {
        HirKind::Repetition(rep) => match rep.kind {
            RepetitionKind::ZeroOrOne => Repeat::ZeroOrOne,
            RepetitionKind::ZeroOrMore => Repeat::ZeroOrMore,
            RepetitionKind::OneOrMore => Repeat::OneOrMore,
            RepetitionKind::Range(RepetitionRange::Exactly(n)) => Repeat::Exactly(n),
            RepetitionKind::Range(RepetitionRange::AtLeast(n)) => Repeat::AtLeast(n),
            RepetitionKind::Range(RepetitionRange::Bounded(m, n)) => Repeat::Bounded(m, n),
        },
        _ => Repeat::ZeroOrOne,
    }
}

/// Relies on regex_syntax's `Repetition` and `Group`: the node inside.
#[verifier::external_body]
fn inner_of(h: &ParsedHir) -> (r: ParsedHir)
    requires
        shape_of_node(h.tree()) == Shape::Repetition || shape_of_node(h.tree()) == Shape::Group,
    ensures
        r.tree() == inner_at(h.tree()),
{
    let inner = match h.hir.kind() {
        HirKind::Repetition(rep) => (*rep.hir).clone(),
        HirKind::Group(group) => (*group.hir).clone(),
        _ => h.hir.clone(),
    };
    ParsedHir { hir: inner, node: Ghost(inner_at(h.node@)) }
}

/// Relies on regex_syntax's `HirKind::Concat` and `HirKind::Alternation`:
/// the children, in order.
#[verifier::external_body]
fn children_of(h: &ParsedHir) -> (r: Vec<ParsedHir>)
    requires
        shape_of_node(h.tree()) == Shape::Concat || shape_of_node(h.tree()) == Shape::Alternation,
    ensures
        forall|i: int| 0 <= i < r@.len() ==> #[trigger] r@[i].tree() == child_at(h.tree(), i),
        r@.len() == match h.tree() {
            Node::Concat(items) => items@.len(),
            Node::Alternation(items) => items@.len(),
            _ => 0,
        },
{
    let items = match h.hir.kind() {
        HirKind::Concat(items) | HirKind::Alternation(items) => items.clone(),
        _ => Vec::new(),
    };
    items.into_iter().enumerate().map(|(i, c)| ParsedHir { hir: c, node: Ghost(child_at(h.node@, i as int)) }).collect()
}

/// The tree `h` in the engine's own form.
fn node_of(h: &ParsedHir) -> (r: Node)
    ensures
        same_tree(r, h.tree()),
    decreases h.tree(), 1nat,
{
    match hir_kind(h) {
        Shape::Empty => Node::Empty,
        Shape::Anchor => Node::Anchor,
        Shape::WordBoundary => Node::WordBoundary,
        Shape::Literal => literal_node(h),
        Shape::Class => class_node(h),
        Shape::Repetition => {
            let kind = repeat_of(h);
            let inner = inner_of(h);
            Node::Repetition(kind, Box::new(node_of(&inner)))
        },
        Shape::Group => {
            let inner = inner_of(h);
            Node::Group(Box::new(node_of(&inner)))
        },
        Shape::Concat => Node::Concat(nodes_of(h)),
        Shape::Alternation => Node::Alternation(nodes_of(h)),
    }
}

/// The children of a concatenation or an alternation in the engine's form.
fn nodes_of(h: &ParsedHir) -> (r: Vec<Node>)
    requires
        shape_of_node(h.tree()) == Shape::Concat || shape_of_node(h.tree()) == Shape::Alternation,
    ensures
        same_trees(r@, match h.tree() {
            Node::Concat(items) => items@,
            Node::Alternation(items) => items@,
            _ => Seq::empty(),
        }),
    decreases h.tree(), 0nat,
{
    let ghost w = match h.tree() {
        Node::Concat(items) => items@,
        Node::Alternation(items) => items@,
        _ => Seq::empty(),
    };
    let items = children_of(h);
    let mut out: Vec<Node> = Vec::new();
    let mut i: usize = 0;
    while i < items.len()
        invariant
            0 <= i <= items@.len(),
            items@.len() == w.len(),
            forall|k: int| 0 <= k < items@.len() ==> #[trigger] items@[k].tree() == child_at(h.tree(), k),
            same_trees(out@, w.subrange(0, i as int)),
            shape_of_node(h.tree()) == Shape::Concat || shape_of_node(h.tree()) == Shape::Alternation,
            w == match h.tree() {
                Node::Concat(items) => items@,
                Node::Alternation(items) => items@,
                _ => Seq::<Node>::empty(),
            },
        decreases items@.len() - i,
    {
        assert(items@[i as int].tree() == w[i as int]);
        let n = node_of(&items[i]);
        let ghost before = out@;
        out.push(n);
        proof {
            assert(out@.subrange(0, out@.len() - 1) =~= before);
            assert(w.subrange(0, i + 1).subrange(0, i as int) =~= w.subrange(0, i as int));
        }
        i = i + 1;
    }
    assert(w.subrange(0, i as int) =~= w);
    out
}

/// Parses `pattern` into the engine's tree; `None` exactly where the parser
/// refuses it.
pub fn parse_grammar(pattern: &str) -> (r: Option<Node>)
    ensures
        r is Some <==> grammar_parses(pattern@),
        r matches Some(n) ==> same_tree(n, parsed_tree(pattern@)),
{
    match parse_hir(pattern) {
        Some(h) => Some(node_of(&h)),
        None => None,
    }
}

} // verus!
