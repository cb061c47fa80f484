use crate::config::Fragment;
use vstd::prelude::*;

verus! {

/// A pattern written as an ordered list of parts: literal grammar text, or a
/// reference `@name@` to a fragment.
pub struct CompositePattern {
    pub parts: Vec<String>,
}

/// Whether a part is a reference: at least two characters, the first and the
/// last `@`.
pub open spec fn is_reference(p: Seq<char>) -> bool {
    p.len() >= 2 && p[0] == '@' && p[p.len() - 1] == '@'
}

/// The name that a reference part refers to.
pub open spec fn reference_name(p: Seq<char>) -> Seq<char> {
    p.subrange(1, p.len() - 1)
}

/// The first fragment at or after `i` with the given name.
pub open spec fn lookup_from(store: Seq<Fragment>, name: Seq<char>, i: nat) -> Option<nat>
    decreases store.len() - i,
{
    if i >= store.len() {
        None
    } else if store[i as int].name@ == name {
        Some(i)
    } else {
        lookup_from(store, name, i + 1)
    }
}

/// The first fragment of the store with the given name.
pub open spec fn lookup(store: Seq<Fragment>, name: Seq<char>) -> Option<nat> {
    lookup_from(store, name, 0)
}

/// The grammar text of the parts, joined in order; `None` where a reference
/// leads back into a fragment that is already being expanded. `path` lists
/// the fragments being expanded, outermost first.
pub open spec fn expand_parts(store: Seq<Fragment>, parts: Seq<String>, path: Seq<nat>) -> Option<Seq<char>>
    decreases store.len() - path.len(), parts.len(),
{
    if parts.len() == 0 {
        Some(Seq::empty())
    } else {
        match expand_parts(store, parts.subrange(0, parts.len() - 1), path) {
            None => None,
            Some(a) => match expand_part(store, parts[parts.len() - 1]@, path) {
                None => None,
                Some(b) => Some(a + b),
            },
        }
    }
}

/// The grammar text of one part. Literal text stands as it is; a reference
/// to a name that no fragment has gives empty text; a reference to a
/// fragment gives that fragment's own pattern, expanded.
///
/// A fragment already on the path is a cycle. (Once the path is as long as
/// the store, every fragment is on it: the second test says the same.)
pub open spec fn expand_part(store: Seq<Fragment>, part: Seq<char>, path: Seq<nat>) -> Option<Seq<char>>
    decreases store.len() - path.len(), 0nat,
{
    if !is_reference(part) {
        Some(part)
    } else {
        match lookup(store, reference_name(part)) {
            None => Some(Seq::empty()),
            Some(j) => {
                if path.contains(j) || path.len() >= store.len() {
                    None
                } else {
                    expand_parts(store, store[j as int].pattern.parts@, path.push(j))
                }
            },
        }
    }
}

/// The grammar text of a whole pattern against a store.
pub open spec fn assembled(store: Seq<Fragment>, parts: Seq<String>) -> Option<Seq<char>> {
    expand_parts(store, parts, Seq::empty())
}

/// Whether `v` holds `x`.
fn holds(v: &Vec<usize>, x: usize) -> (r: bool)
    ensures
        r == v@.map_values(|k: usize| k as nat).contains(x as nat),
{
    let ghost view = v@.map_values(|k: usize| k as nat);
    let mut i: usize = 0;
    while i < v.len()
        invariant
            0 <= i <= v@.len(),
            view == v@.map_values(|k: usize| k as nat),
            forall|k: int| 0 <= k < i ==> view[k] != x as nat,
        decreases v@.len() - i,
    {
        if v[i] == x {
            assert(view[i as int] == x as nat);
            return true;
        }
        i = i + 1;
    }
    false
}

/// The index of the first fragment named `name`.
fn find_fragment(fragments: &Vec<Fragment>, name: &String) -> (r: Option<usize>)
    ensures
        match lookup(fragments@, name@) {
            Some(j) => r matches Some(k) && k as nat == j && j < fragments@.len(),
            None => r is None,
        },
{
    let mut i: usize = 0;
    while i < fragments.len()
        invariant
            0 <= i <= fragments@.len(),
            lookup(fragments@, name@) == lookup_from(fragments@, name@, i as nat),
        decreases fragments@.len() - i,
    {
        if fragments[i].name == *name {
            return Some(i);
        }
        i = i + 1;
    }
    None
}

/// The parts expanded against the store, with `path` the fragments being
/// expanded around them.
fn assemble_parts(parts: &Vec<String>, fragments: &Vec<Fragment>, path: &mut Vec<usize>) -> (r: Result<String, String>)
    ensures
        final(path)@ == old(path)@,
        match expand_parts(fragments@, parts@, old(path)@.map_values(|k: usize| k as nat)) {
            Some(t) => r matches Ok(s) && s@ == t,
            None => r is Err,
        },
    decreases fragments@.len() - old(path)@.len(), 
{
    let ghost store = fragments@;
    let ghost route = path@.map_values(|k: usize| k as nat);
    let mut s = String::new();
    let mut i: usize = 0;
    assert(parts@.subrange(0, 0) =~= Seq::<String>::empty());
    while i < parts.len()
        invariant
            0 <= i <= parts@.len(),
            path@ == old(path)@,
            route == path@.map_values(|k: usize| k as nat),
            store == fragments@,
            expand_parts(store, parts@.subrange(0, i as int), route) == Some(s@),
        decreases parts@.len() - i,
    {
        let ghost after = parts@.subrange(0, i + 1);
        assert(after.subrange(0, after.len() - 1) =~= parts@.subrange(0, i as int));
        let part = parts[i].as_str();
        let n = part.unicode_len();
        if n >= 2 && part.get_char(0) == '@' && part.get_char(n - 1) == '@' {
            let name = String::from_str(part.substring_char(1, n - 1));
            assert(is_reference(part@));
            assert(reference_name(part@) == name@);
            match find_fragment(fragments, &name) {
                None => {},
                Some(j) => {
                    if holds(path, j) || path.len() >= fragments.len() {
                        assert(expand_part(store, part@, route) is None);
                        proof {
                            lemma_parts_stop(store, parts@, i + 1, route);
                        }
                        return Err(String::from_str("Cyclic fragment reference!"));
                    }
                    path.push(j);
                    assert(path@.map_values(|k: usize| k as nat) =~= route.push(j as nat));
                    let inner = assemble_parts(&fragments[j].pattern.parts, fragments, path);
                    path.pop();
                    assert(path@ =~= old(path)@);
                    match inner {
                        Ok(text) => s.append(text.as_str()),
                        Err(e) => {
                            proof {
                                lemma_parts_stop(store, parts@, i + 1, route);
                            }
                            return Err(e);
                        },
                    }
                },
            }
        } else {
            s.append(part);
        }
        i = i + 1;
    }
    assert(parts@.subrange(0, i as int) =~= parts@);
    Ok(s)
}

/// Once a prefix of the parts fails, the whole list fails.
proof fn lemma_parts_stop(store: Seq<Fragment>, parts: Seq<String>, i: int, path: Seq<nat>)
    requires
        0 <= i <= parts.len(),
        expand_parts(store, parts.subrange(0, i), path) is None,
    ensures
        expand_parts(store, parts, path) is None,
    decreases parts.len() - i,
{
    if i < parts.len() {
        let next = parts.subrange(0, i + 1);
        assert(next.subrange(0, next.len() - 1) =~= parts.subrange(0, i));
        lemma_parts_stop(store, parts, i + 1, path);
    } else {
        assert(parts.subrange(0, i) =~= parts);
    }
}

impl Default for CompositePattern {
    fn default() -> (r: Self)
        ensures
            r.parts@.len() == 0,
    {
        CompositePattern { parts: Vec::new() }
    }
}

impl CompositePattern {
    /// A pattern of one part.
    pub fn single(part: &str) -> (r: Self)
        ensures
            r.parts@.len() == 1,
            r.parts@[0]@ == part@,
    {
        CompositePattern { parts: vec![String::from_str(part)] }
    }

    /// A pattern of the given parts, in order.
    pub fn from_strs(parts: &[&str]) -> (r: Self)
        ensures
            r.parts@.len() == parts@.len(),
            forall|i: int| 0 <= i < parts@.len() ==> #[trigger] r.parts@[i]@ == parts@[i]@,
    {
        let mut out: Vec<String> = Vec::new();
        let mut i: usize = 0;
        while i < parts.len()
            invariant
                0 <= i <= parts@.len(),
                out@.len() == i,
                forall|k: int| 0 <= k < i ==> #[trigger] out@[k]@ == parts@[k]@,
            decreases parts@.len() - i,
        {
            out.push(String::from_str(parts[i]));
            i = i + 1;
        }
        CompositePattern { parts: out }
    }

    /// The grammar text of this pattern against the fragments: literal parts
    /// as they are, each reference replaced by its fragment's own pattern,
    /// expanded in turn. A reference to an unknown name gives empty text;
    /// a fragment that refers back to itself, directly or not, gives `Err`.
    pub fn assemble_pattern(&self, fragments: &Vec<Fragment>) -> (r: Result<String, String>)
        ensures
            match assembled(fragments@, self.parts@) {
                Some(t) => r matches Ok(s) && s@ == t,
                None => r is Err,
            },
    {
        let mut path: Vec<usize> = Vec::new();
        assert(path@.map_values(|k: usize| k as nat) =~= Seq::<nat>::empty());
        assemble_parts(&self.parts, fragments, &mut path)
    }
}

} // verus!
