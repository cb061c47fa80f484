use string_studio::config::{Config, OutputFormat, Verbosity};
use string_studio::output::output;

fn strings() -> Vec<String> {
    vec![String::from("a"), String::from("b\"c"), String::from("d")]
}

fn render(format: OutputFormat, pretty: bool, v: &Vec<String>) -> String {
    let mut config = Config::default();
    config.format = format;
    config.pretty = pretty;
    output(&config, v).unwrap()
}

#[test]
fn simple_output() {
    assert_eq!(render(OutputFormat::Simple, false, &strings()), "a\nb\"c\nd\n");
    assert_eq!(render(OutputFormat::Simple, false, &vec![]), "");
}

#[test]
fn csv_output() {
    assert_eq!(render(OutputFormat::Csv, false, &strings()), "a,b\"c,d\n");
    assert_eq!(render(OutputFormat::Csv, false, &vec![]), "\n");
}

#[test]
fn json_output() {
    assert_eq!(render(OutputFormat::Json, false, &strings()), "[\"a\",\"b\\\"c\",\"d\"]\n");
    assert_eq!(
        render(OutputFormat::Json, true, &strings()),
        "[\n  \"a\",\n  \"b\\\"c\",\n  \"d\"\n]\n"
    );
}

#[test]
fn table_output() {
    let v: Vec<String> = (1..=6).map(|i| format!("s{}", i)).collect();
    let t = render(OutputFormat::Table, false, &v);
    let lines: Vec<&str> = t.lines().filter(|l| l.contains("s")).collect();
    assert_eq!(lines.len(), 2);
    assert!(lines[0].contains("s1") && lines[0].contains("s4"));
    assert!(!lines[0].contains("s5"));
    assert!(lines[1].contains("s5") && lines[1].contains("s6"));
}

#[test]
fn format_names() {
    assert_eq!(OutputFormat::from("json"), OutputFormat::Json);
    assert_eq!(OutputFormat::from("csv"), OutputFormat::Csv);
    assert_eq!(OutputFormat::from("table"), OutputFormat::Table);
    assert_eq!(OutputFormat::from("simple"), OutputFormat::Simple);
    assert_eq!(OutputFormat::from("anything"), OutputFormat::Simple);
    assert_eq!(OutputFormat::Json.name(), "Json");
}

#[test]
fn verbosity_levels() {
    assert_eq!(Verbosity::from(0u8), Verbosity::NotVerbose);
    assert_eq!(Verbosity::from(1u8), Verbosity::Verbose);
    assert_eq!(Verbosity::from(2u8), Verbosity::VeryVerbose);
    assert_eq!(Verbosity::from(7u8), Verbosity::VeryVerbose);
    assert_eq!(Verbosity::Verbose.name(), "Verbose");
    let mut config = Config::default();
    config.verbosity = Verbosity::Verbose;
    assert!(config.shows(Verbosity::NotVerbose));
    assert!(config.shows(Verbosity::Verbose));
    assert!(!config.shows(Verbosity::VeryVerbose));
}

#[test]
fn default_configuration() {
    let c = Config::default();
    assert_eq!(c.format, OutputFormat::Simple);
    assert_eq!(c.number, 15);
    assert_eq!(c.verbosity, Verbosity::NotVerbose);
    assert!(c.pattern.parts.is_empty());
    assert!(!c.pretty);
    assert_eq!(c.seed, 0);
    assert_eq!(c.fragments.len(), 8);
    assert!(c.xforms.is_empty());
}
