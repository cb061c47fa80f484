use std::convert::TryFrom;
use string_studio::xform::Xform;

#[test]
fn xform_uafterq_test() {
    let x = Xform::UAfterQ;
    assert_eq!(x.xform("qit"), "quit");
    assert_eq!(x.xform("Qit"), "Quit");
    assert_eq!(x.xform("quit"), "quit");
    assert_eq!(x.xform("Quit"), "Quit");
    assert_eq!(x.xform("foo"), "foo");
}

#[test]
fn u_after_q_edges() {
    let x = Xform::UAfterQ;
    assert_eq!(x.xform(""), "");
    assert_eq!(x.xform("q"), "qu");
    assert_eq!(x.xform("qq"), "ququ");
    assert_eq!(x.xform("qUa"), "qUa");
    assert_eq!(x.xform("aQ"), "aQu");
    assert_eq!(x.xform("quuq"), "quuqu");
}

#[test]
fn case_transforms() {
    assert_eq!(Xform::LowerCase.xform("AbC Éx"), "abc éx");
    assert_eq!(Xform::UpperCase.xform("AbC éx"), "ABC ÉX");
    assert_eq!(Xform::UpperCase.xform("straße"), "STRASSE");
}

#[test]
fn title_case_transform() {
    assert_eq!(Xform::TitleCase.xform("hello world"), "Hello World");
    assert_eq!(Xform::TitleCase.xform("hello-world  foo_bar"), "Hello-World  Foo_bar");
    assert_eq!(Xform::TitleCase.xform("éclair 9lives"), "Éclair 9lives");
    assert_eq!(Xform::TitleCase.xform(""), "");
}

#[test]
fn transform_names() {
    assert_eq!(Xform::try_from("u_after_q"), Ok(Xform::UAfterQ));
    assert_eq!(Xform::try_from("  title_case "), Ok(Xform::TitleCase));
    assert_eq!(Xform::try_from("lower_case"), Ok(Xform::LowerCase));
    assert_eq!(Xform::try_from("upper_case"), Ok(Xform::UpperCase));
    assert_eq!(Xform::try_from("shout"), Err("Invalid transform type!"));
}
