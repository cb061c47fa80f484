use string_studio::config::{default_fragments, Config, Fragment};
use string_studio::generate::generate;
use string_studio::pattern::CompositePattern;
use string_studio::xform::Xform;

fn store(entries: &[(&str, &[&str])]) -> Vec<Fragment> {
    entries
        .iter()
        .map(|(name, parts)| Fragment::new(name, CompositePattern::from_strs(parts), ""))
        .collect()
}

#[test]
fn literal_parts_are_joined() {
    let p = CompositePattern::from_strs(&["ab", "[0-9]", "c"]);
    assert_eq!(p.assemble_pattern(&vec![]), Ok(String::from("ab[0-9]c")));
}

#[test]
fn references_are_replaced() {
    let fragments = store(&[("digit", &["[0-9]"])]);
    let p = CompositePattern::from_strs(&["@digit@", "@digit@"]);
    assert_eq!(p.assemble_pattern(&fragments), Ok(String::from("[0-9][0-9]")));
}

#[test]
fn digits_pattern_generates_two_digits() {
    let mut config = Config::default();
    config.fragments = store(&[("digit", &["[0-9]"])]);
    config.pattern = CompositePattern::from_strs(&["@digit@", "@digit@"]);
    config.number = 50;
    config.seed = 8;
    let v = generate(&config).unwrap();
    assert_eq!(v.len(), 50);
    for s in v {
        assert_eq!(s.chars().count(), 2);
        assert!(s.chars().all(|c| ('0'..='9').contains(&c)));
    }
}

#[test]
fn unknown_reference_gives_empty_text() {
    let fragments = store(&[("digit", &["[0-9]"])]);
    let p = CompositePattern::from_strs(&["a", "@missing@", "b"]);
    assert_eq!(p.assemble_pattern(&fragments), Ok(String::from("ab")));
    let q = CompositePattern::single("@missing@");
    assert_eq!(q.assemble_pattern(&fragments), Ok(String::new()));
}

#[test]
fn nested_references_expand() {
    let fragments = store(&[("vowel", &["[aeiou]"]), ("pair", &["@vowel@", "@vowel@"])]);
    let p = CompositePattern::from_strs(&["x", "@pair@"]);
    assert_eq!(p.assemble_pattern(&fragments), Ok(String::from("x[aeiou][aeiou]")));
}

#[test]
fn first_fragment_of_a_name_wins() {
    let fragments = store(&[("v", &["a"]), ("v", &["b"])]);
    let p = CompositePattern::single("@v@");
    assert_eq!(p.assemble_pattern(&fragments), Ok(String::from("a")));
}

#[test]
fn cyclic_references_fail() {
    let fragments = store(&[("loop", &["a", "@loop@"])]);
    assert!(CompositePattern::single("@loop@").assemble_pattern(&fragments).is_err());
    let fragments = store(&[("x", &["@y@"]), ("y", &["@x@"])]);
    assert!(CompositePattern::single("@x@").assemble_pattern(&fragments).is_err());
}

#[test]
fn a_fragment_used_twice_is_no_cycle() {
    let fragments = store(&[("d", &["1"]), ("two", &["@d@", "@d@"])]);
    let p = CompositePattern::from_strs(&["@two@", "@two@"]);
    assert_eq!(p.assemble_pattern(&fragments), Ok(String::from("1111")));
}

#[test]
fn lone_at_sign_is_literal() {
    let p = CompositePattern::from_strs(&["@", "a@", "@b"]);
    assert_eq!(p.assemble_pattern(&vec![]), Ok(String::from("@a@@b")));
    let empty_name = CompositePattern::single("@@");
    assert_eq!(empty_name.assemble_pattern(&vec![]), Ok(String::new()));
}

#[test]
fn default_catalog() {
    let names: Vec<String> = default_fragments().into_iter().map(|f| f.name).collect();
    assert_eq!(
        names,
        vec![
            "lower_vowel",
            "upper_vowel",
            "lower_vowel_y",
            "upper_vowel_y",
            "lower_cons",
            "upper_cons",
            "vowel_cluster",
            "syllable"
        ]
    );
    let p = CompositePattern::single("@syllable@");
    assert_eq!(
        p.assemble_pattern(&default_fragments()).unwrap(),
        "((b|c|d|f|g|h|j|k|l|m|n|p|q|r|s|t|v|w|x|y|z)((ae|ai|ou|ia|ei|ou|ou|ui|iu|ea|oi|ua|au|ao|oa|ee|oo)|(a|e|i|o|u))(b|c|d|f|g|h|j|k|l|m|n|p|q|r|s|t|v|w|x|y|z)?)"
    );
}

#[test]
fn syllables_from_the_default_catalog() {
    let mut config = Config::default();
    config.pattern = CompositePattern::from_strs(&["@syllable@", "@syllable@"]);
    config.seed = 99;
    config.xforms = vec![Xform::TitleCase];
    let v = generate(&config).unwrap();
    assert_eq!(v.len(), 15);
    for s in &v {
        assert!(s.chars().next().unwrap().is_ascii_uppercase());
        assert!(s.chars().skip(1).all(|c| c.is_ascii_lowercase()));
    }
    assert_eq!(generate(&config).unwrap(), v);
}

#[test]
fn generate_reports_errors() {
    let mut config = Config::default();
    config.pattern = CompositePattern::single("(");
    assert_eq!(generate(&config), Err(String::from("Failed to parse pattern!")));
    config.seed = 1;
    config.pattern = CompositePattern::single("");
    assert_eq!(generate(&config), Ok(vec![String::new(); 15]));
    config.fragments = store(&[("loop", &["@loop@"])]);
    config.pattern = CompositePattern::single("@loop@");
    assert!(generate(&config).is_err());
}
