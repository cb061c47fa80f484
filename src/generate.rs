use crate::config::Config;
use crate::pattern::assembled;
use crate::random::{RandomSource, Request};
use crate::regex_gen::{gen, lemma_gen_same, result_text, RegexGen};
use crate::syntax::{grammar_parses, parsed_tree, same_tree, Node};
use crate::xform::{xform_all, Xform};
use vstd::prelude::*;

verus! {

/// The characters of each string.
pub open spec fn texts(v: Seq<String>) -> Seq<Seq<char>> {
    v.map_values(|s: String| s@)
}

/// What a batch of `count` strings gives: each generated from `tree` where
/// the one before left the source, then transformed; the first failure ends
/// the batch, and no string of it is returned.
pub open spec fn batch(tree: Node, xforms: Seq<Xform>, count: nat, seed: u64, t: Seq<Request>) -> (
    Option<Seq<Seq<char>>>,
    Seq<Request>,
)
    decreases count,
{
    if count == 0 {
        (Some(Seq::empty()), t)
    } else {
        let (r0, t0) = batch(tree, xforms, (count - 1) as nat, seed, t);
        match r0 {
            None => (None, t0),
            Some(done) => {
                let (r1, t1) = gen(tree, seed, t0);
                match r1 {
                    None => (None, t1),
                    Some(s) => (Some(done.push(xform_all(xforms, s))), t1),
                }
            },
        }
    }
}

/// The strings of a batch, `None` for a failure.
pub open spec fn batch_texts(r: Result<Vec<String>, ()>) -> Option<Seq<Seq<char>>> {
    match r {
        Ok(v) => Some(texts(v@)),
        Err(_) => None,
    }
}

/// The transforms applied to `s` in order.
fn apply_xforms(xforms: &Vec<Xform>, s: String) -> (r: String)
    ensures
        r@ == xform_all(xforms@, s@),
{
    let ghost start = s@;
    let mut s = s;
    let mut i: usize = 0;
    assert(xforms@.subrange(0, 0) =~= Seq::<Xform>::empty());
    while i < xforms.len()
        invariant
            0 <= i <= xforms@.len(),
            s@ == xform_all(xforms@.subrange(0, i as int), start),
        decreases xforms@.len() - i,
    {
        let ghost after = xforms@.subrange(0, i + 1);
        assert(after.subrange(0, after.len() - 1) =~= xforms@.subrange(0, i as int));
        s = xforms[i].xform(s.as_str());
        i = i + 1;
    }
    assert(xforms@.subrange(0, i as int) =~= xforms@);
    s
}

/// `number` strings of the grammar, each drawn from `rng` in turn and then
/// transformed; `Err` where one of them cannot be generated.
pub fn generate_strings(gen: &RegexGen, xforms: &Vec<Xform>, number: u32, rng: &mut RandomSource) -> (r: Result<Vec<String>, ()>)
    ensures
        (batch_texts(r), final(rng).trail()) == batch(gen.tree(), xforms@, number as nat, old(rng).seed(), old(rng).trail()),
        final(rng).seed() == old(rng).seed(),
        r matches Ok(v) ==> v@.len() == number,
{
    proof {
        lemma_batch_len(gen.tree(), xforms@, number as nat, old(rng).seed(), old(rng).trail());
    }
    let mut out: Vec<String> = Vec::new();
    let mut i: u32 = 0;
    assert(texts(out@) =~= Seq::<Seq<char>>::empty());
    while i < number
        invariant
            0 <= i <= number,
            (Some(texts(out@)), rng.trail()) == batch(gen.tree(), xforms@, i as nat, old(rng).seed(), old(rng).trail()),
            rng.seed() == old(rng).seed(),
        decreases number - i,
    {
        match gen.randomize(rng) {
            Ok(s) => {
                let t = apply_xforms(xforms, s);
                let ghost before = out@;
                out.push(t);
                assert(texts(out@) =~= texts(before).push(t@));
            },
            Err(e) => {
                proof {
                    lemma_batch_stops(gen.tree(), xforms@, (i + 1) as nat, number as nat, old(rng).seed(), old(rng).trail());
                }
                return Err(e);
            },
        }
        i = i + 1;
    }
    Ok(out)
}

/// A batch that succeeds holds as many strings as were asked for.
proof fn lemma_batch_len(tree: Node, xforms: Seq<Xform>, count: nat, seed: u64, t: Seq<Request>)
    ensures
        batch(tree, xforms, count, seed, t).0 matches Some(v) ==> v.len() == count,
    decreases count,
{
    if count > 0 {
        lemma_batch_len(tree, xforms, (count - 1) as nat, seed, t);
    }
}

/// The same tree gives the same batch from the same source.
proof fn lemma_batch_same(a: Node, b: Node, xforms: Seq<Xform>, count: nat, seed: u64, t: Seq<Request>)
    requires
        same_tree(a, b),
    ensures
        batch(a, xforms, count, seed, t) == batch(b, xforms, count, seed, t),
    decreases count,
{
    if count > 0 {
        lemma_batch_same(a, b, xforms, (count - 1) as nat, seed, t);
        let t0 = batch(a, xforms, (count - 1) as nat, seed, t).1;
        lemma_gen_same(a, b, seed, t0);
    }
}

/// Once a string of a batch fails, the whole batch fails.
proof fn lemma_batch_stops(tree: Node, xforms: Seq<Xform>, i: nat, count: nat, seed: u64, t: Seq<Request>)
    requires
        i <= count,
        batch(tree, xforms, i, seed, t).0 is None,
    ensures
        batch(tree, xforms, count, seed, t) == batch(tree, xforms, i, seed, t),
    decreases count - i,
{
    if i < count {
        lemma_batch_stops(tree, xforms, i + 1, count, seed, t);
    }
}

/// A batch from a source made with `seed`. Where `seed` is not 0, the
/// strings are fixed by the grammar, the transforms, the count and the seed:
/// two batches run with the same seed and grammar are the same. Where it is
/// 0, they are the batch of some seed that the operating system chose.
pub fn generate_seeded(gen: &RegexGen, xforms: &Vec<Xform>, number: u32, seed: u64) -> (r: Result<Vec<String>, ()>)
    ensures
        seed != 0 ==> batch_texts(r) == batch(gen.tree(), xforms@, number as nat, seed, Seq::empty()).0,
        seed == 0 ==> exists|s: u64| batch_texts(r) == batch(gen.tree(), xforms@, number as nat, s, Seq::empty()).0,
        r matches Ok(v) ==> v@.len() == number,
{
    let mut rng = RandomSource::new(seed);
    let ghost s = rng.seed();
    let r = generate_strings(gen, xforms, number, &mut rng);
    assert(batch_texts(r) == batch(gen.tree(), xforms@, number as nat, s, Seq::empty()).0);
    r
}

/// What `generate` returns for a batch outcome: the strings, or the error
/// of a failed generation.
pub open spec fn batch_result(r: Result<Vec<String>, String>, b: Option<Seq<Seq<char>>>) -> bool {
    match b {
        Some(v) => r matches Ok(s) && texts(s@) == v,
        None => r matches Err(e) && e@ == "Failed to generate string!"@,
    }
}

/// The strings that a configuration asks for: its pattern assembled against
/// its fragments, parsed, and generated `config.number` times from a source
/// made with `config.seed` (0: a seed from the operating system), each
/// transformed. A cyclic fragment reference or a refused pattern fails
/// before any generation; a failed generation fails the whole batch.
pub fn generate(config: &Config) -> (r: Result<Vec<String>, String>)
    ensures
        match assembled(config.fragments@, config.pattern.parts@) {
            None => r is Err,
            Some(p) => if !grammar_parses(p) {
                (r matches Err(e) && e@ == "Failed to parse pattern!"@)
            } else if config.seed != 0 {
                batch_result(r, batch(parsed_tree(p), config.xforms@, config.number as nat, config.seed, Seq::empty()).0)
            } else {
                exists|s: u64|
                    batch_result(
                        r,
                        #[trigger] batch(parsed_tree(p), config.xforms@, config.number as nat, s, Seq::empty()).0,
                    )
            },
        },
        r matches Ok(v) ==> v@.len() == config.number,
{
    let pat = config.pattern.assemble_pattern(&config.fragments)?;
    match RegexGen::new(pat.as_str()) {
        Some(gen) => {
            let res = generate_seeded(&gen, &config.xforms, config.number, config.seed);
            let r = match res {
                Ok(strings) => Ok(strings),
                Err(_) => Err(String::from_str("Failed to generate string!")),
            };
            proof {
                let p = pat@;
                if config.seed != 0 {
                    lemma_batch_same(gen.tree(), parsed_tree(p), config.xforms@, config.number as nat, config.seed, Seq::empty());
                } else {
                    let s = choose|s: u64| batch_texts(res) == batch(gen.tree(), config.xforms@, config.number as nat, s, Seq::empty()).0;
                    lemma_batch_same(gen.tree(), parsed_tree(p), config.xforms@, config.number as nat, s, Seq::empty());
                    assert(batch_result(r, batch(parsed_tree(p), config.xforms@, config.number as nat, s, Seq::empty()).0));
                }
            }
            r
        },
        None => Err(String::from_str("Failed to parse pattern!")),
    }
}

} // verus!
