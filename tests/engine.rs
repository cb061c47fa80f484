use string_studio::generate::{generate_seeded, generate_strings};
use string_studio::random::RandomSource;
use string_studio::regex_gen::{randomize_for, RegexGen, MAX_REPEAT};
use string_studio::syntax::{Node, Repeat};

fn one(pattern: &str, seed: u64) -> Result<String, ()> {
    let gen = RegexGen::new(pattern).unwrap();
    let mut rng = RandomSource::from_seed(seed);
    gen.randomize(&mut rng)
}

#[test]
fn hir_randomize_test() {
    let mut rng = RandomSource::from_seed(0);
    let gen = RegexGen::new("([a-zA-Z]){1,3}").unwrap();
    let s = gen.randomize(&mut rng).unwrap();
    let n = s.chars().count();
    assert!((1..=3).contains(&n));
    assert!(s.chars().all(|c| c.is_ascii_alphabetic()));
}

#[test]
fn hir_parser_test() {
    let gen = RegexGen::new("a|b").unwrap();
    assert_eq!(
        *gen.kind(),
        Node::Alternation(vec![Node::Literal('a'), Node::Literal('b')])
    );
}

#[test]
fn literal_grammar_gives_itself() {
    for seed in 1..20u64 {
        assert_eq!(one("hello", seed), Ok(String::from("hello")));
        assert_eq!(one("x", seed), Ok(String::from("x")));
    }
}

#[test]
fn concat_joins_in_order() {
    let tree = Node::Concat(vec![
        Node::Literal('a'),
        Node::Repetition(Repeat::Exactly(2), Box::new(Node::Literal('b'))),
        Node::Group(Box::new(Node::Literal('c'))),
    ]);
    let mut rng = RandomSource::from_seed(5);
    assert_eq!(randomize_for(&tree, &mut rng), Ok(String::from("abbc")));
}

#[test]
fn concat_fails_when_a_part_fails() {
    let tree = Node::Concat(vec![Node::Literal('a'), Node::Byte(0xFF)]);
    let mut rng = RandomSource::from_seed(5);
    assert_eq!(randomize_for(&tree, &mut rng), Err(()));
}

#[test]
fn exact_repetition() {
    for seed in 1..20u64 {
        assert_eq!(one("a{3}", seed), Ok(String::from("aaa")));
    }
    assert_eq!(one("(ab){2}", 3), Ok(String::from("abab")));
    assert_eq!(one("a{0}", 3), Ok(String::new()));
}

#[test]
fn exact_repetition_draws_each_time_anew() {
    let mut seen_mixed = false;
    for seed in 1..50u64 {
        let s = one("[ab]{6}", seed).unwrap();
        assert_eq!(s.len(), 6);
        assert!(s.chars().all(|c| c == 'a' || c == 'b'));
        if s.contains('a') && s.contains('b') {
            seen_mixed = true;
        }
    }
    assert!(seen_mixed);
}

#[test]
fn bounded_repetition_stays_in_range() {
    let gen = RegexGen::new("a{2,4}").unwrap();
    let mut rng = RandomSource::from_seed(42);
    let mut seen = [false; 5];
    for _ in 0..1000 {
        let s = gen.randomize(&mut rng).unwrap();
        let n = s.len();
        assert!((2..=4).contains(&n));
        assert!(s.chars().all(|c| c == 'a'));
        seen[n] = true;
    }
    assert!(seen[2] && seen[3] && seen[4]);
}

#[test]
fn bounded_repetition_with_min_above_max_fails() {
    let tree = Node::Repetition(Repeat::Bounded(3, 1), Box::new(Node::Literal('a')));
    let mut rng = RandomSource::from_seed(1);
    assert_eq!(randomize_for(&tree, &mut rng), Err(()));
}

#[test]
fn open_repetitions_are_capped() {
    let gen = RegexGen::new("a*b+c?").unwrap();
    let mut rng = RandomSource::from_seed(9);
    for _ in 0..200 {
        let s = gen.randomize(&mut rng).unwrap();
        let a = s.chars().filter(|c| *c == 'a').count();
        let b = s.chars().filter(|c| *c == 'b').count();
        let c = s.chars().filter(|c| *c == 'c').count();
        assert!(a <= MAX_REPEAT as usize);
        assert!(b >= 1 && b <= MAX_REPEAT as usize);
        assert!(c <= 1);
    }
}

#[test]
fn at_least_below_cap_draws_below_cap() {
    let gen = RegexGen::new("a{98,}").unwrap();
    let mut rng = RandomSource::from_seed(4);
    for _ in 0..50 {
        let n = gen.randomize(&mut rng).unwrap().len();
        assert!(n == 98 || n == 99);
    }
}

#[test]
fn at_least_at_or_above_cap_takes_the_minimum() {
    assert_eq!(one("a{150,}", 2).unwrap().len(), 150);
    assert_eq!(one("a{100,}", 2).unwrap().len(), 100);
}

#[test]
fn alternation_takes_one_branch() {
    for seed in 1..40u64 {
        let s = one("(a|b)", seed).unwrap();
        assert!(s == "a" || s == "b");
        assert_eq!(one("(a|b)", seed).unwrap(), s);
    }
    let mut seen_a = false;
    let mut seen_b = false;
    for seed in 1..40u64 {
        match one("(a|b)", seed).unwrap().as_str() {
            "a" => seen_a = true,
            _ => seen_b = true,
        }
    }
    assert!(seen_a && seen_b);
}

#[test]
fn alternation_of_longer_branches() {
    for seed in 1..30u64 {
        let s = one("cat|dog|bird", seed).unwrap();
        assert!(s == "cat" || s == "dog" || s == "bird");
    }
}

#[test]
fn empty_alternation_fails() {
    let tree = Node::Alternation(vec![]);
    let mut rng = RandomSource::from_seed(1);
    assert_eq!(randomize_for(&tree, &mut rng), Err(()));
}

#[test]
fn class_of_digits() {
    for seed in 1..30u64 {
        let s = one("[0-9]", seed).unwrap();
        assert_eq!(s.len(), 1);
        assert!(s.chars().all(|c| c.is_ascii_digit()));
    }
}

#[test]
fn class_of_non_ascii_scalars() {
    assert_eq!(one("[é]", 1), Ok(String::from("é")));
    for seed in 1..30u64 {
        let s = one("[α-γ]", seed).unwrap();
        assert!(s == "α" || s == "β" || s == "γ");
    }
}

#[test]
fn class_across_the_surrogates() {
    let tree = Node::Class(vec![('\u{D7FF}', '\u{E000}')]);
    let mut seen_low = false;
    let mut seen_high = false;
    for seed in 1..60u64 {
        let mut rng = RandomSource::from_seed(seed);
        let s = randomize_for(&tree, &mut rng).unwrap();
        let c = s.chars().next().unwrap();
        assert_eq!(s.chars().count(), 1);
        if c == '\u{D7FF}' {
            seen_low = true;
        } else {
            assert_eq!(c, '\u{E000}');
            seen_high = true;
        }
    }
    assert!(seen_low && seen_high);
}

#[test]
fn dot_gives_any_character_but_newline() {
    let gen = RegexGen::new(".").unwrap();
    let mut rng = RandomSource::from_seed(11);
    for _ in 0..100 {
        let s = gen.randomize(&mut rng).unwrap();
        assert_eq!(s.chars().count(), 1);
        assert_ne!(s, "\n");
    }
}

#[test]
fn empty_class_fails() {
    let tree = Node::Class(vec![]);
    let mut rng = RandomSource::from_seed(1);
    assert_eq!(randomize_for(&tree, &mut rng), Err(()));
}

#[test]
fn anchors_and_word_boundaries() {
    assert_eq!(one("^ab$", 1), Ok(String::from("ab")));
    assert_eq!(one(r"a\bb", 1), Ok(String::from("a b")));
}

#[test]
fn unsupported_constructs_fail() {
    let mut rng = RandomSource::from_seed(1);
    assert_eq!(randomize_for(&Node::Byte(0xFF), &mut rng), Err(()));
    assert_eq!(randomize_for(&Node::ByteClass, &mut rng), Err(()));
    assert!(RegexGen::new(r"(?-u:\xFF)").is_none());
}

#[test]
fn refused_patterns_give_no_generator() {
    assert!(RegexGen::new("(").is_none());
    assert!(RegexGen::new("a{3,1}").is_none());
    assert!(RegexGen::new(r"(a)\1").is_none());
}

#[test]
fn same_seed_same_batch() {
    let gen = RegexGen::new("[a-z]{3,8}(-[0-9]{2})?").unwrap();
    let xforms = vec![];
    let first = generate_seeded(&gen, &xforms, 25, 1234).unwrap();
    let second = generate_seeded(&gen, &xforms, 25, 1234).unwrap();
    assert_eq!(first.len(), 25);
    assert_eq!(first, second);
    let other = generate_seeded(&gen, &xforms, 25, 4321).unwrap();
    assert_ne!(first, other);
}

#[test]
fn batch_draws_from_one_shared_source() {
    let gen = RegexGen::new("[a-z]{10}").unwrap();
    let xforms = vec![];
    let mut rng = RandomSource::from_seed(77);
    let v = generate_strings(&gen, &xforms, 2, &mut rng).unwrap();
    assert_eq!(v.len(), 2);
    assert_ne!(v[0], v[1]);
    let mut rng2 = RandomSource::from_seed(77);
    let first = gen.randomize(&mut rng2).unwrap();
    let second = gen.randomize(&mut rng2).unwrap();
    assert_eq!(v, vec![first, second]);
}

#[test]
fn batch_fails_as_a_whole() {
    let gen = RegexGen::from_tree(Node::Alternation(vec![Node::Literal('a'), Node::Byte(0x80)]));
    let xforms = vec![];
    assert_eq!(generate_seeded(&gen, &xforms, 200, 3), Err(()));
}

#[test]
fn unseeded_source_still_generates() {
    let gen = RegexGen::new("[0-9]{4}").unwrap();
    let xforms = vec![];
    let v = generate_seeded(&gen, &xforms, 3, 0).unwrap();
    assert_eq!(v.len(), 3);
    assert!(v.iter().all(|s| s.len() == 4));
}

#[test]
fn parsed_trees() {
    let tree = |p: &str| RegexGen::new(p).unwrap();
    assert_eq!(
        *tree("a{2,5}").kind(),
        Node::Repetition(Repeat::Bounded(2, 5), Box::new(Node::Literal('a')))
    );
    assert_eq!(
        *tree("a{3}").kind(),
        Node::Repetition(Repeat::Exactly(3), Box::new(Node::Literal('a')))
    );
    assert_eq!(
        *tree("a{3,}").kind(),
        Node::Repetition(Repeat::AtLeast(3), Box::new(Node::Literal('a')))
    );
    assert_eq!(
        *tree("a?").kind(),
        Node::Repetition(Repeat::ZeroOrOne, Box::new(Node::Literal('a')))
    );
    assert_eq!(
        *tree("a*").kind(),
        Node::Repetition(Repeat::ZeroOrMore, Box::new(Node::Literal('a')))
    );
    assert_eq!(
        *tree("a+").kind(),
        Node::Repetition(Repeat::OneOrMore, Box::new(Node::Literal('a')))
    );
    assert_eq!(*tree("[a-cx]").kind(), Node::Class(vec![('a', 'c'), ('x', 'x')]));
    assert_eq!(*tree("(a)").kind(), Node::Group(Box::new(Node::Literal('a'))));
    assert_eq!(*tree("^").kind(), Node::Anchor);
    assert_eq!(*tree(r"\b").kind(), Node::WordBoundary);
    assert_eq!(*tree("").kind(), Node::Empty);
    assert_eq!(
        *tree("ab").kind(),
        Node::Concat(vec![Node::Literal('a'), Node::Literal('b')])
    );
}

#[test]
fn deeply_nested_groups() {
    let depth = 200;
    let pattern = format!("{}a{}", "(".repeat(depth), ")".repeat(depth));
    assert_eq!(one(&pattern, 1), Ok(String::from("a")));
}

#[test]
fn empty_grammar_gives_empty_text() {
    assert_eq!(one("", 1), Ok(String::new()));
    assert_eq!(one("()", 1), Ok(String::new()));
    for seed in 1..20u64 {
        let s = one("a|", seed).unwrap();
        assert!(s == "a" || s.is_empty());
    }
    let mut rng = RandomSource::from_seed(1);
    assert_eq!(randomize_for(&Node::Empty, &mut rng), Ok(String::new()));
}
