use crate::random::{drawn_between, shuffled, RandomSource, Request};
use crate::syntax::{
    class_nth, class_size, is_scalar, lemma_class_nth_scalar, lemma_range_nth_scalar, range_nth,
    range_size, Node, Repeat,
};
use crate::syntax::{grammar_parses, parse_grammar, parsed_tree, same_tree, same_trees};
use crate::text::{char_string, scalar_char};
use vstd::prelude::*;

verus! {

/// The cap on the count of a repetition that has no upper bound.
pub const MAX_REPEAT: u32 = 100;

/// What one generation step gives: the text, or `None` where it failed, and
/// the requests made of the random source once the step is over.
pub type Outcome = (Option<Seq<char>>, Seq<Request>);

/// `v` brought into `[lo, hi]`.
pub open spec fn clamp(v: u32, lo: u32, hi: u32) -> u32 {
    if v < lo {
        lo
    } else if v > hi {
        hi
    } else {
        v
    }
}

/// One draw of a value in `[lo, hi]` after the requests `t`, with the
/// requests that follow it. (The source's values lie in `[lo, hi]` already;
/// the clamp states that range in the model itself.)
pub open spec fn draw(seed: u64, t: Seq<Request>, lo: u32, hi: u32) -> (u32, Seq<Request>) {
    (clamp(drawn_between(seed, t, lo, hi), lo, hi), t.push(Request::Between(lo, hi)))
}

/// How many times a repetition generates its inner node, with the requests
/// made to choose it; `None` for a range whose minimum exceeds its maximum.
///
/// A repetition with no upper bound draws its count below `MAX_REPEAT`; one
/// whose lower bound already reaches `MAX_REPEAT` takes that lower bound.
pub open spec fn repeat_count(kind: Repeat, seed: u64, t: Seq<Request>) -> Option<(u32, Seq<Request>)> {
    match kind {
        Repeat::ZeroOrOne => Some(draw(seed, t, 0, 1)),
        Repeat::ZeroOrMore => Some(draw(seed, t, 0, MAX_REPEAT)),
        Repeat::OneOrMore => Some(draw(seed, t, 1, MAX_REPEAT)),
        Repeat::Exactly(n) => Some((n, t)),
        Repeat::AtLeast(n) => if n < MAX_REPEAT {
            Some(draw(seed, t, n, (MAX_REPEAT - 1) as u32))
        } else {
            Some((n, t))
        },
        Repeat::Bounded(lo, hi) => if lo <= hi {
            Some(draw(seed, t, lo, hi))
        } else {
            None
        },
    }
}

/// Whether the engine draws from a class: it covers some scalar value, and
/// each index among them fits a `u32`.
pub open spec fn class_fits(ranges: Seq<(char, char)>) -> bool {
    0 < class_size(ranges) <= 0x1_0000_0000
}

/// One character of a class, drawn by its index among the class's scalar values.
pub open spec fn gen_class(ranges: Seq<(char, char)>, seed: u64, t: Seq<Request>) -> Outcome {
    if class_fits(ranges) {
        let (k, t1) = draw(seed, t, 0, (class_size(ranges) - 1) as u32);
        (Some(seq![class_nth(ranges, k as int) as char]), t1)
    } else {
        (None, t)
    }
}

/// The items `0, 1, ..., n - 1`.
pub open spec fn indices(n: nat) -> Seq<usize> {
    Seq::new(n, |i: int| i as usize)
}

/// The branch that an alternation of `n` branches takes: the first index of
/// the shuffled order (a shuffle keeps the items, so that index is below `n`).
pub open spec fn chosen(order: Seq<usize>, n: nat) -> int {
    if order.len() > 0 && order[0] < n {
        order[0] as int
    } else {
        0
    }
}

/// What generating `n` gives, from a source seeded with `seed` that has
/// answered the requests `t`.
pub open spec fn gen(n: Node, seed: u64, t: Seq<Request>) -> Outcome
    decreases n, 0nat,
{
    match n {
        Node::Literal(c) => (Some(seq![c]), t),
        Node::Anchor => (Some(Seq::empty()), t),
        Node::WordBoundary => (Some(seq![' ']), t),
        Node::Group(inner) => gen(*inner, seed, t),
        Node::Class(ranges) => gen_class(ranges@, seed, t),
        Node::Concat(items) => gen_all(items@, seed, t),
        Node::Alternation(items) => {
            if items.len() == 0 {
                (None, t)
            } else {
                let order = shuffled(seed, t, indices(items.len() as nat));
                let t1 = t.push(Request::Shuffle(items.len()));
                gen(items@[chosen(order, items.len() as nat)], seed, t1)
            }
        },
        Node::Repetition(kind, inner) => match repeat_count(kind, seed, t) {
            Some((count, t1)) => gen_times(*inner, count as nat, seed, t1),
            None => (None, t),
        },
        Node::Empty => (Some(Seq::empty()), t),
        Node::Byte(_) => (None, t),
        Node::ByteClass => (None, t),
    }
}

/// The nodes generated in order and joined; the first failure ends it.
pub open spec fn gen_all(items: Seq<Node>, seed: u64, t: Seq<Request>) -> Outcome
    decreases items, 0nat,
{
    if items.len() == 0 {
        (Some(Seq::empty()), t)
    } else {
        let (r0, t0) = gen_all(items.subrange(0, items.len() - 1), seed, t);
        match r0 {
            None => (None, t0),
            Some(a) => {
                let (r1, t1) = gen(items[items.len() - 1], seed, t0);
                match r1 {
                    None => (None, t1),
                    Some(b) => (Some(a + b), t1),
                }
            },
        }
    }
}

/// `inner` generated `count` times, each time anew, and joined; the first
/// failure ends it.
pub open spec fn gen_times(inner: Node, count: nat, seed: u64, t: Seq<Request>) -> Outcome
    decreases inner, count + 1,
{
    if count == 0 {
        (Some(Seq::empty()), t)
    } else {
        let (r0, t0) = gen_times(inner, (count - 1) as nat, seed, t);
        match r0 {
            None => (None, t0),
            Some(a) => {
                let (r1, t1) = gen(inner, seed, t0);
                match r1 {
                    None => (None, t1),
                    Some(b) => (Some(a + b), t1),
                }
            },
        }
    }
}

/// The text of a result, `None` for a failure.
pub open spec fn result_text(r: Result<String, ()>) -> Option<Seq<char>> {
    match r {
        Ok(s) => Some(s@),
        Err(_) => None,
    }
}

proof fn lemma_class_size_step(ranges: Seq<(char, char)>, i: int)
    requires
        0 <= i < ranges.len(),
    ensures
        class_size(ranges.skip(i)) == range_size(ranges[i].0, ranges[i].1) + class_size(
            ranges.skip(i + 1),
        ),
{
    assert(ranges.skip(i).drop_first() =~= ranges.skip(i + 1));
}

proof fn lemma_class_nth_step(ranges: Seq<(char, char)>, i: int, k: int)
    requires
        0 <= i < ranges.len(),
        k >= range_size(ranges[i].0, ranges[i].1),
    ensures
        class_nth(ranges.skip(i), k) == class_nth(
            ranges.skip(i + 1),
            k - range_size(ranges[i].0, ranges[i].1),
        ),
{
    assert(ranges.skip(i).drop_first() =~= ranges.skip(i + 1));
}

/// The number of scalar values between `lo` and `hi`.
fn range_width(lo: char, hi: char) -> (w: u64)
    ensures
        w == range_size(lo, hi),
{
    let l = lo as u32;
    let h = hi as u32;
    if h < l {
        0
    } else if l <= 0xD7FF && 0xE000 <= h {
        (h - l + 1 - 0x800) as u64
    } else {
        (h - l + 1) as u64
    }
}

/// The scalar value `k` places above `lo`, skipping the surrogates.
fn scalar_at(lo: char, hi: char, k: u64) -> (v: u32)
    requires
        k < range_size(lo, hi),
    ensures
        v as int == range_nth(lo, k as int),
        is_scalar(v as int),
{
    proof {
        lemma_range_nth_scalar(lo, hi, k as int);
    }
    let l = lo as u64;
    let v = if l <= 0xD7FF && l + k >= 0xD800 {
        l + k + 0x800
    } else {
        l + k
    };
    v as u32
}

/// The number of scalar values a class covers, or `None` where there are
/// more than a `u32` index can reach.
fn class_count(ranges: &Vec<(char, char)>) -> (r: Option<u64>)
    ensures
        match r {
            Some(n) => n == class_size(ranges@) && n <= 0x1_0000_0000,
            None => class_size(ranges@) > 0x1_0000_0000,
        },
{
    let mut total: u64 = 0;
    let mut i: usize = 0;
    assert(ranges@.skip(0) =~= ranges@);
    while i < ranges.len()
        invariant
            0 <= i <= ranges@.len(),
            total + class_size(ranges@.skip(i as int)) == class_size(ranges@),
            total <= 0x1_0000_0000,
        decreases ranges@.len() - i,
    {
        let (lo, hi) = ranges[i];
        let w = range_width(lo, hi);
        proof {
            lemma_class_size_step(ranges@, i as int);
        }
        if w > 0x1_0000_0000 - total {
            return None;
        }
        total = total + w;
        i = i + 1;
    }
    assert(ranges@.skip(i as int).len() == 0);
    Some(total)
}

/// One character of a class, chosen uniformly among its scalar values.
fn randomize_class(ranges: &Vec<(char, char)>, src: &mut RandomSource) -> (r: Result<String, ()>)
    ensures
        (result_text(r), final(src).trail()) == gen_class(ranges@, old(src).seed(), old(src).trail()),
        final(src).seed() == old(src).seed(),
{
    let total = match class_count(ranges) {
        Some(n) => n,
        None => return Err(()),
    };
    if total == 0 {
        return Err(());
    }
    let k = src.between(0, (total - 1) as u32);
    let ghost target = class_nth(ranges@, k as int);
    proof {
        lemma_class_nth_scalar(ranges@, k as int);
    }
    let mut rest: u64 = k as u64;
    let mut i: usize = 0;
    assert(ranges@.skip(0) =~= ranges@);
    while i < ranges.len()
        invariant
            0 <= i <= ranges@.len(),
            rest < class_size(ranges@.skip(i as int)),
            class_nth(ranges@.skip(i as int), rest as int) == target,
            target == class_nth(ranges@, k as int),
            total == class_size(ranges@),
            0 < total <= 0x1_0000_0000,
            k < total,
            k == drawn_between(old(src).seed(), old(src).trail(), 0, (total - 1) as u32),
            src.seed() == old(src).seed(),
            src.trail() == old(src).trail().push(Request::Between(0, (total - 1) as u32)),
        decreases ranges@.len() - i,
    {
        let (lo, hi) = ranges[i];
        let w = range_width(lo, hi);
        proof {
            lemma_class_size_step(ranges@, i as int);
            assert(ranges@.skip(i as int)[0] == ranges@[i as int]);
        }
        if rest < w {
            let v = scalar_at(lo, hi, rest);
            return match scalar_char(v) {
                Some(c) => Ok(char_string(c)),
                None => Err(()),
            };
        }
        proof {
            lemma_class_nth_step(ranges@, i as int, rest as int);
        }
        rest = rest - w;
        i = i + 1;
    }
    assert(ranges@.skip(i as int).len() == 0);
    Err(())
}


/// Once a prefix of the nodes fails, the whole list fails with it, having
/// made no further request.
proof fn lemma_all_stops(items: Seq<Node>, i: int, seed: u64, t: Seq<Request>)
    requires
        0 <= i <= items.len(),
        gen_all(items.subrange(0, i), seed, t).0 is None,
    ensures
        gen_all(items, seed, t) == gen_all(items.subrange(0, i), seed, t),
    decreases items.len() - i,
{
    if i < items.len() {
        let next = items.subrange(0, i + 1);
        assert(next.subrange(0, next.len() - 1) =~= items.subrange(0, i));
        lemma_all_stops(items, i + 1, seed, t);
    } else {
        assert(items.subrange(0, i) =~= items);
    }
}

/// Once one of the repetitions fails, the repetition fails with it, having
/// made no further request.
proof fn lemma_times_stops(inner: Node, j: nat, count: nat, seed: u64, t: Seq<Request>)
    requires
        j <= count,
        gen_times(inner, j, seed, t).0 is None,
    ensures
        gen_times(inner, count, seed, t) == gen_times(inner, j, seed, t),
    decreases count - j,
{
    if j < count {
        lemma_times_stops(inner, j + 1, count, seed, t);
    }
}

/// The count of a repetition, drawn as `repeat_count` says.
fn repeat_count_of(kind: Repeat, src: &mut RandomSource) -> (r: Option<u32>)
    ensures
        match repeat_count(kind, old(src).seed(), old(src).trail()) {
            Some((count, t)) => r == Some(count) && final(src).trail() == t,
            None => r is None && final(src).trail() == old(src).trail(),
        },
        final(src).seed() == old(src).seed(),
{
    match kind {
        Repeat::ZeroOrOne => Some(src.between(0, 1)),
        Repeat::ZeroOrMore => Some(src.between(0, MAX_REPEAT)),
        Repeat::OneOrMore => Some(src.between(1, MAX_REPEAT)),
        Repeat::Exactly(n) => Some(n),
        Repeat::AtLeast(n) => {
            if n < MAX_REPEAT {
                Some(src.between(n, MAX_REPEAT - 1))
            } else {
                Some(n)
            }
        },
        Repeat::Bounded(lo, hi) => {
            if lo <= hi {
                Some(src.between(lo, hi))
            } else {
                None
            }
        },
    }
}

/// Each node generated in order and the texts joined; the first failure ends it.
fn randomize_concat(items: &Vec<Node>, src: &mut RandomSource) -> (r: Result<String, ()>)
    ensures
        (result_text(r), final(src).trail()) == gen_all(items@, old(src).seed(), old(src).trail()),
        final(src).seed() == old(src).seed(),
    decreases items@, 1nat,
{
    let mut s = String::new();
    let mut i: usize = 0;
    assert(items@.subrange(0, 0) =~= Seq::<Node>::empty());
    while i < items.len()
        invariant
            0 <= i <= items@.len(),
            (Some(s@), src.trail()) == gen_all(items@.subrange(0, i as int), old(src).seed(), old(src).trail()),
            src.seed() == old(src).seed(),
        decreases items@.len() - i,
    {
        let ghost before = items@.subrange(0, i as int);
        let ghost after = items@.subrange(0, i + 1);
        assert(after.subrange(0, after.len() - 1) =~= before);
        assert(after[after.len() - 1] == items@[i as int]);
        match randomize_for(&items[i], src) {
            Ok(piece) => s.append(piece.as_str()),
            Err(e) => {
                proof {
                    lemma_all_stops(items@, i + 1, old(src).seed(), old(src).trail());
                }
                return Err(e);
            },
        }
        i = i + 1;
    }
    assert(items@.subrange(0, i as int) =~= items@);
    Ok(s)
}

/// One branch, taken as the first index of a shuffled list of all of them.
fn randomize_alternation(items: &Vec<Node>, src: &mut RandomSource) -> (r: Result<String, ()>)
    ensures
        (result_text(r), final(src).trail()) == gen(Node::Alternation(*items), old(src).seed(), old(src).trail()),
        final(src).seed() == old(src).seed(),
    decreases items@, 1nat,
{
    let n = items.len();
    if n == 0 {
        return Err(());
    }
    let mut order: Vec<usize> = Vec::new();
    let mut j: usize = 0;
    while j < n
        invariant
            0 <= j <= n,
            n == items@.len(),
            order@ == indices(j as nat),
        decreases n - j,
    {
        order.push(j);
        j = j + 1;
        assert(order@ =~= indices(j as nat));
    }
    let ghost before = order@;
    src.shuffle(&mut order);
    proof {
        broadcast use vstd::seq_lib::group_to_multiset_ensures;

        assert(order@.to_multiset().len() == before.to_multiset().len());
        assert(order@.contains(order@[0]));
        assert(order@.to_multiset().count(order@[0]) > 0);
        assert(before.contains(order@[0]));
        assert(order@[0] < n);
    }
    let pick = order[0];
    randomize_for(&items[pick], src)
}

/// The inner node generated `count` times, each time anew, and the texts joined.
fn randomize_times(inner: &Node, count: u32, src: &mut RandomSource) -> (r: Result<String, ()>)
    ensures
        (result_text(r), final(src).trail()) == gen_times(*inner, count as nat, old(src).seed(), old(src).trail()),
        final(src).seed() == old(src).seed(),
    decreases *inner, 1nat,
{
    let mut s = String::new();
    let mut j: u32 = 0;
    while j < count
        invariant
            0 <= j <= count,
            (Some(s@), src.trail()) == gen_times(*inner, j as nat, old(src).seed(), old(src).trail()),
            src.seed() == old(src).seed(),
        decreases count - j,
    {
        match randomize_for(inner, src) {
            Ok(piece) => s.append(piece.as_str()),
            Err(e) => {
                proof {
                    lemma_times_stops(*inner, (j + 1) as nat, count as nat, old(src).seed(), old(src).trail());
                }
                return Err(e);
            },
        }
        j = j + 1;
    }
    Ok(s)
}

/// The text that one walk of `node` generates, drawing from `src`.
pub fn randomize_for(node: &Node, src: &mut RandomSource) -> (r: Result<String, ()>)
    ensures
        (result_text(r), final(src).trail()) == gen(*node, old(src).seed(), old(src).trail()),
        final(src).seed() == old(src).seed(),
    decreases *node, 0nat,
{
    match node {
        Node::Literal(c) => Ok(char_string(*c)),
        Node::Anchor => Ok(String::new()),
        Node::WordBoundary => Ok(char_string(' ')),
        Node::Group(inner) => randomize_for(inner, src),
        Node::Class(ranges) => randomize_class(ranges, src),
        Node::Concat(items) => randomize_concat(items, src),
        Node::Alternation(items) => randomize_alternation(items, src),
        Node::Repetition(kind, inner) => {
            match repeat_count_of(*kind, src) {
                Some(count) => randomize_times(inner, count, src),
                None => Err(()),
            }
        },
        Node::Empty => Ok(String::new()),
        Node::Byte(_) => Err(()),
        Node::ByteClass => Err(()),
    }
}

/// Whether `n` is built of literal characters alone (in groups and
/// concatenations), none at all included.
pub open spec fn literal_only(n: Node) -> bool
    decreases n, 0nat,
{
    match n {
        Node::Empty => true,
        Node::Literal(_) => true,
        Node::Group(inner) => literal_only(*inner),
        Node::Concat(items) => all_literal_only(items@),
        _ => false,
    }
}

pub open spec fn all_literal_only(items: Seq<Node>) -> bool
    decreases items, 0nat,
{
    if items.len() == 0 {
        true
    } else {
        all_literal_only(items.subrange(0, items.len() - 1)) && literal_only(items[items.len() - 1])
    }
}

/// The characters of a literal-only tree, in order.
pub open spec fn literal_text(n: Node) -> Seq<char>
    decreases n, 0nat,
{
    match n {
        Node::Literal(c) => seq![c],
        Node::Group(inner) => literal_text(*inner),
        Node::Concat(items) => all_literal_text(items@),
        _ => Seq::empty(),
    }
}

pub open spec fn all_literal_text(items: Seq<Node>) -> Seq<char>
    decreases items, 0nat,
{
    if items.len() == 0 {
        Seq::empty()
    } else {
        all_literal_text(items.subrange(0, items.len() - 1)) + literal_text(items[items.len() - 1])
    }
}

/// A grammar of literal characters alone generates exactly its own text,
/// whatever the random source, and draws nothing from it.
pub proof fn lemma_literal_exact(n: Node, seed: u64, t: Seq<Request>)
    requires
        literal_only(n),
    ensures
        gen(n, seed, t) == (Some(literal_text(n)), t),
    decreases n, 0nat,
{
    match n {
        Node::Group(inner) => lemma_literal_exact(*inner, seed, t),
        Node::Concat(items) => lemma_all_literal_exact(items@, seed, t),
        _ => {},
    }
}

/// A list of literal-only nodes generates exactly their joined text.
pub proof fn lemma_all_literal_exact(items: Seq<Node>, seed: u64, t: Seq<Request>)
    requires
        all_literal_only(items),
    ensures
        gen_all(items, seed, t) == (Some(all_literal_text(items)), t),
    decreases items, 0nat,
{
    if items.len() > 0 {
        lemma_all_literal_exact(items.subrange(0, items.len() - 1), seed, t);
        lemma_literal_exact(items[items.len() - 1], seed, t);
    }
}

/// A concatenation of two nodes generates the first, then the second from
/// where the first left the random source, and joins the two texts; it
/// fails where either fails.
pub proof fn lemma_concat_pair(items: Vec<Node>, seed: u64, t: Seq<Request>)
    requires
        items@.len() == 2,
    ensures
        gen(Node::Concat(items), seed, t) == ({
            let (ra, t1) = gen(items@[0], seed, t);
            match ra {
                None => (None, t1),
                Some(a) => {
                    let (rb, t2) = gen(items@[1], seed, t1);
                    match rb {
                        None => (None, t2),
                        Some(b) => (Some(a + b), t2),
                    }
                },
            }
        }),
{
    let all = items@;
    let first = all.subrange(0, 1);
    let empty = Seq::<Node>::empty();
    assert(first.subrange(0, 0) =~= empty);
    assert(all.subrange(0, all.len() - 1) =~= first);
    assert(gen_all(empty, seed, t) == (Some(Seq::<char>::empty()), t));
    assert(gen(Node::Concat(items), seed, t) == gen_all(all, seed, t));
    let (ra, t1) = gen(all[0], seed, t);
    match ra {
        None => {
            assert(gen_all(first, seed, t) == (None::<Seq<char>>, t1));
            assert(gen_all(all, seed, t) == (None::<Seq<char>>, t1));
        },
        Some(a) => {
            assert(Seq::<char>::empty() + a =~= a);
            assert(gen_all(first, seed, t) == (Some(a), t1));
        },
    }
}

/// An exact repetition `{n}` generates its inner node exactly `n` times,
/// each time anew, and joins the texts; no draw chooses the count.
pub proof fn lemma_exact_count(k: u32, inner: Box<Node>, seed: u64, t: Seq<Request>)
    ensures
        gen(Node::Repetition(Repeat::Exactly(k), inner), seed, t) == gen_times(*inner, k as nat, seed, t),
{
}

/// `n` copies of `text`, joined.
pub open spec fn repeat_text(text: Seq<char>, n: nat) -> Seq<char>
    decreases n,
{
    if n == 0 {
        Seq::empty()
    } else {
        repeat_text(text, (n - 1) as nat) + text
    }
}

/// Repeating a literal-only node `n` times gives its text `n` times.
pub proof fn lemma_times_literal(inner: Node, n: nat, seed: u64, t: Seq<Request>)
    requires
        literal_only(inner),
    ensures
        gen_times(inner, n, seed, t) == (Some(repeat_text(literal_text(inner), n)), t),
    decreases n,
{
    if n > 0 {
        lemma_times_literal(inner, (n - 1) as nat, seed, t);
        lemma_literal_exact(inner, seed, t);
    }
}

/// A bounded repetition `{min,max}` generates its inner node a number of
/// times that lies in `[min, max]`, whatever the random source returns.
pub proof fn lemma_bounded_count(lo: u32, hi: u32, inner: Box<Node>, seed: u64, t: Seq<Request>)
    requires
        lo <= hi,
    ensures
        ({
            let (count, t1) = draw(seed, t, lo, hi);
            &&& lo <= count <= hi
            &&& gen(Node::Repetition(Repeat::Bounded(lo, hi), inner), seed, t) == gen_times(
                *inner,
                count as nat,
                seed,
                t1,
            )
        }),
{
}

/// An alternation with at least one branch generates exactly one of its
/// branches; one without branches always fails.
pub proof fn lemma_alternation_one(items: Vec<Node>, seed: u64, t: Seq<Request>)
    ensures
        items@.len() == 0 ==> gen(Node::Alternation(items), seed, t).0 is None,
        items@.len() > 0 ==> ({
            let i = chosen(shuffled(seed, t, indices(items@.len())), items@.len());
            &&& 0 <= i < items@.len()
            &&& gen(Node::Alternation(items), seed, t) == gen(
                items@[i],
                seed,
                t.push(Request::Shuffle(items.len())),
            )
        }),
{
}

/// Two lists that are the same tree for tree have the same length and the
/// same tree at each index.
pub proof fn lemma_same_trees_index(x: Seq<Node>, y: Seq<Node>, i: int)
    requires
        same_trees(x, y),
        0 <= i < x.len(),
    ensures
        y.len() == x.len(),
        same_tree(x[i], y[i]),
    decreases x.len(),
{
    if i < x.len() - 1 {
        lemma_same_trees_index(x.subrange(0, x.len() - 1), y.subrange(0, y.len() - 1), i);
    }
}

/// The same tree generates the same text from the same source.
pub proof fn lemma_gen_same(a: Node, b: Node, seed: u64, t: Seq<Request>)
    requires
        same_tree(a, b),
    ensures
        gen(a, seed, t) == gen(b, seed, t),
    decreases a, 0nat,
{
    match a {
        Node::Group(inner) => {
            if let Node::Group(inner2) = b {
                lemma_gen_same(*inner, *inner2, seed, t);
            }
        },
        Node::Concat(x) => {
            if let Node::Concat(y) = b {
                lemma_gen_all_same(x@, y@, seed, t);
            }
        },
        Node::Alternation(x) => {
            if let Node::Alternation(y) = b {
                assert(same_trees(x@, y@));
                if x@.len() > 0 {
                    let order = shuffled(seed, t, indices(x@.len()));
                    let i = chosen(order, x@.len());
                    lemma_same_trees_index(x@, y@, i);
                    lemma_gen_same(x@[i], y@[i], seed, t.push(Request::Shuffle(x.len())));
                } else {
                    assert(y@.len() == 0);
                }
            }
        },
        Node::Repetition(kind, inner) => {
            if let Node::Repetition(kind2, inner2) = b {
                if let Some((count, t1)) = repeat_count(kind, seed, t) {
                    lemma_times_same(*inner, *inner2, count as nat, seed, t1);
                }
            }
        },
        _ => {},
    }
}

/// Lists that are the same tree for tree generate the same text.
pub proof fn lemma_gen_all_same(x: Seq<Node>, y: Seq<Node>, seed: u64, t: Seq<Request>)
    requires
        same_trees(x, y),
    ensures
        gen_all(x, seed, t) == gen_all(y, seed, t),
    decreases x, 0nat,
{
    if x.len() > 0 {
        lemma_gen_all_same(x.subrange(0, x.len() - 1), y.subrange(0, y.len() - 1), seed, t);
        let t0 = gen_all(x.subrange(0, x.len() - 1), seed, t).1;
        lemma_gen_same(x[x.len() - 1], y[y.len() - 1], seed, t0);
    }
}

/// The same tree repeated the same number of times generates the same text.
pub proof fn lemma_times_same(a: Node, b: Node, count: nat, seed: u64, t: Seq<Request>)
    requires
        same_tree(a, b),
    ensures
        gen_times(a, count, seed, t) == gen_times(b, count, seed, t),
    decreases a, count + 1,
{
    if count > 0 {
        lemma_times_same(a, b, (count - 1) as nat, seed, t);
        let t0 = gen_times(a, (count - 1) as nat, seed, t).1;
        lemma_gen_same(a, b, seed, t0);
    }
}

/// A generator of strings that match one grammar.
pub struct RegexGen {
    tree: Node,
}

impl RegexGen {
    /// The grammar's tree.
    pub closed spec fn tree(&self) -> Node {
        self.tree
    }

    /// The generator for `pattern`, holding the parser's tree; `None`
    /// exactly where the parser refuses the pattern.
    pub fn new(pattern: &str) -> (r: Option<Self>)
        ensures
            r is Some <==> grammar_parses(pattern@),
            r matches Some(g) ==> same_tree(g.tree(), parsed_tree(pattern@)),
    {
        match parse_grammar(pattern) {
            Some(tree) => Some(RegexGen { tree }),
            None => None,
        }
    }

    /// The generator for a tree built by hand.
    pub fn from_tree(tree: Node) -> (r: Self)
        ensures
            r.tree() == tree,
    {
        RegexGen { tree }
    }

    /// The grammar's tree.
    pub fn kind(&self) -> (r: &Node)
        ensures
            *r == self.tree(),
    {
        &self.tree
    }

    /// One string of the grammar, drawn from `rng`; `Err` where the walk
    /// reaches a construct that cannot be generated.
    pub fn randomize(&self, rng: &mut RandomSource) -> (r: Result<String, ()>)
        ensures
            (result_text(r), final(rng).trail()) == gen(self.tree(), old(rng).seed(), old(rng).trail()),
            final(rng).seed() == old(rng).seed(),
    {
        randomize_for(&self.tree, rng)
    }
}

} // verus!
