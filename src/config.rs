use crate::pattern::CompositePattern;
use crate::text::same_text;
use crate::xform::Xform;
use vstd::prelude::*;

verus! {

/// A named pattern that other patterns may refer to as `@name@`.
pub struct Fragment {
    pub name: String,
    pub pattern: CompositePattern,
    pub description: String,
}

impl Fragment {
    pub fn new(name: &str, pattern: CompositePattern, description: &str) -> (r: Self)
        ensures
            r.name@ == name@,
            r.pattern == pattern,
            r.description@ == description@,
    {
        Fragment { name: String::from_str(name), pattern, description: String::from_str(description) }
    }
}

impl Default for Fragment {
    fn default() -> (r: Self)
        ensures
            r.name@.len() == 0,
            r.pattern.parts@.len() == 0,
            r.description@.len() == 0,
    {
        Fragment { name: String::new(), pattern: CompositePattern::default(), description: String::new() }
    }
}

/// Whether `f` has the given name and pattern parts.
pub open spec fn fragment_is(f: Fragment, name: Seq<char>, parts: Seq<Seq<char>>) -> bool {
    &&& f.name@ == name
    &&& f.pattern.parts@.len() == parts.len()
    &&& forall|i: int| 0 <= i < parts.len() ==> #[trigger] f.pattern.parts@[i]@ == parts[i]
}

/// The catalog of fragments that every configuration starts from.
pub fn default_fragments() -> (r: Vec<Fragment>)
    ensures
        r@.len() == 8,
        fragment_is(r@[0], "lower_vowel"@, seq!["(a|e|i|o|u)"@]),
        fragment_is(r@[1], "upper_vowel"@, seq!["(A|E|I|O|U)"@]),
        fragment_is(r@[2], "lower_vowel_y"@, seq!["(a|e|i|o|u|y)"@]),
        fragment_is(r@[3], "upper_vowel_y"@, seq!["(A|E|I|O|U|Y)"@]),
        fragment_is(r@[4], "lower_cons"@, seq!["(b|c|d|f|g|h|j|k|l|m|n|p|q|r|s|t|v|w|x|y|z)"@]),
        fragment_is(r@[5], "upper_cons"@, seq!["(B|C|D|F|G|H|J|K|L|M|N|P|Q|R|S|T|V|W|X|Y|Z)"@]),
        fragment_is(r@[6], "vowel_cluster"@, seq!["(ae|ai|ou|ia|ei|ou|ou|ui|iu|ea|oi|ua|au|ao|oa|ee|oo)"@]),
        fragment_is(
            r@[7],
            "syllable"@,
            seq![
                "("@,
                "@lower_cons@"@,
                "("@,
                "@vowel_cluster@"@,
                "|"@,
                "@lower_vowel@"@,
                ")"@,
                "@lower_cons@"@,
                "?)"@,
            ],
        ),
{
    let syllable = vec!["(", "@lower_cons@", "(", "@vowel_cluster@", "|", "@lower_vowel@", ")", "@lower_cons@", "?)"];
    let syllable_parts = CompositePattern::from_strs(syllable.as_slice());
    let r = vec![
        Fragment::new("lower_vowel", CompositePattern::single("(a|e|i|o|u)"), "Lowercase vowels, excluding `y`"),
        Fragment::new("upper_vowel", CompositePattern::single("(A|E|I|O|U)"), "Uppercase vowels, excluding `y`"),
        Fragment::new("lower_vowel_y", CompositePattern::single("(a|e|i|o|u|y)"), "Lowercase vowels, including `y`"),
        Fragment::new("upper_vowel_y", CompositePattern::single("(A|E|I|O|U|Y)"), "Uppercase vowels, including `y`"),
        Fragment::new(
            "lower_cons",
            CompositePattern::single("(b|c|d|f|g|h|j|k|l|m|n|p|q|r|s|t|v|w|x|y|z)"),
            "Lowercase consonants.",
        ),
        Fragment::new(
            "upper_cons",
            CompositePattern::single("(B|C|D|F|G|H|J|K|L|M|N|P|Q|R|S|T|V|W|X|Y|Z)"),
            "Uppercase consonants.",
        ),
        Fragment::new(
            "vowel_cluster",
            CompositePattern::single("(ae|ai|ou|ia|ei|ou|ou|ui|iu|ea|oi|ua|au|ao|oa|ee|oo)"),
            "A cluster of readable vowels.",
        ),
        Fragment::new("syllable", syllable_parts, "A basic syllable."),
    ];
    r
}

/// How the generated strings are written out.
#[derive(Clone, Copy, Debug, PartialEq, Eq, Structural)]
pub enum OutputFormat {
    Simple,
    Table,
    Json,
    Csv,
}

impl<'a> From<&'a str> for OutputFormat {
    /// The format of that name; any other name is the simple format.
    fn from(fmt: &'a str) -> (r: Self) {
        if same_text(fmt, "table") {
            OutputFormat::Table
        } else if same_text(fmt, "json") {
            OutputFormat::Json
        } else if same_text(fmt, "csv") {
            OutputFormat::Csv
        } else {
            OutputFormat::Simple
        }
    }
}

impl<'a> vstd::std_specs::convert::FromSpecImpl<&'a str> for OutputFormat {
    open spec fn obeys_from_spec() -> bool {
        true
    }

    open spec fn from_spec(fmt: &'a str) -> OutputFormat {
        if fmt@ == "table"@ {
            OutputFormat::Table
        } else if fmt@ == "json"@ {
            OutputFormat::Json
        } else if fmt@ == "csv"@ {
            OutputFormat::Csv
        } else {
            OutputFormat::Simple
        }
    }
}

impl OutputFormat {
    /// The format's name, as shown to a user.
    pub fn name(&self) -> (r: String)
        ensures
            r@ == match self {
                OutputFormat::Simple => "Simple"@,
                OutputFormat::Table => "Table"@,
                OutputFormat::Json => "Json"@,
                OutputFormat::Csv => "Csv"@,
            },
    {
        match self {
            OutputFormat::Simple => String::from_str("Simple"),
            OutputFormat::Table => String::from_str("Table"),
            OutputFormat::Json => String::from_str("Json"),
            OutputFormat::Csv => String::from_str("Csv"),
        }
    }
}

/// How much is reported besides the strings.
#[derive(Clone, Copy, Debug, PartialEq, Eq, Structural, PartialOrd, Ord)]
pub enum Verbosity {
    NotVerbose,
    Verbose,
    VeryVerbose,
}

impl From<u8> for Verbosity {
    /// 0 is not verbose, 1 verbose, and anything higher very verbose.
    fn from(verbosity: u8) -> (r: Self) {
        if verbosity == 0 {
            Verbosity::NotVerbose
        } else if verbosity == 1 {
            Verbosity::Verbose
        } else {
            Verbosity::VeryVerbose
        }
    }
}

impl vstd::std_specs::convert::FromSpecImpl<u8> for Verbosity {
    open spec fn obeys_from_spec() -> bool {
        true
    }

    open spec fn from_spec(verbosity: u8) -> Verbosity {
        if verbosity == 0 {
            Verbosity::NotVerbose
        } else if verbosity == 1 {
            Verbosity::Verbose
        } else {
            Verbosity::VeryVerbose
        }
    }
}

impl Verbosity {
    /// The level as a number: 0, 1 or 2.
    pub open spec fn rank(&self) -> nat {
        match self {
            Verbosity::NotVerbose => 0,
            Verbosity::Verbose => 1,
            Verbosity::VeryVerbose => 2,
        }
    }

    /// The level as a number: 0, 1 or 2.
    pub fn level(&self) -> (r: u8)
        ensures
            r as nat == self.rank(),
    {
        match self {
            Verbosity::NotVerbose => 0,
            Verbosity::Verbose => 1,
            Verbosity::VeryVerbose => 2,
        }
    }

    /// The level's name, as shown to a user.
    pub fn name(&self) -> (r: String)
        ensures
            r@ == match self {
                Verbosity::NotVerbose => "NotVerbose"@,
                Verbosity::Verbose => "Verbose"@,
                Verbosity::VeryVerbose => "VeryVerbose"@,
            },
    {
        match self {
            Verbosity::NotVerbose => String::from_str("NotVerbose"),
            Verbosity::Verbose => String::from_str("Verbose"),
            Verbosity::VeryVerbose => String::from_str("VeryVerbose"),
        }
    }
}

/// The settings of one run.
pub struct Config {
    pub format: OutputFormat,
    pub number: u32,
    pub verbosity: Verbosity,
    pub pattern: CompositePattern,
    pub pretty: bool,
    pub seed: u64,
    pub fragments: Vec<Fragment>,
    pub xforms: Vec<Xform>,
}

fn default_format() -> (r: OutputFormat)
    ensures
        r == OutputFormat::Simple,
{
    OutputFormat::Simple
}

fn default_verbosity() -> (r: Verbosity)
    ensures
        r == Verbosity::NotVerbose,
{
    Verbosity::NotVerbose
}

fn default_number() -> (r: u32)
    ensures
        r == 15,
{
    15
}

fn default_pretty() -> (r: bool)
    ensures
        !r,
{
    false
}

fn default_xforms() -> (r: Vec<Xform>)
    ensures
        r@.len() == 0,
{
    Vec::new()
}

impl Default for Config {
    /// Simple output of 15 strings, not verbose, an empty pattern, a seed
    /// from the operating system, the default fragments, no transforms.
    fn default() -> (r: Self)
        ensures
            r.format == OutputFormat::Simple,
            r.number == 15,
            r.verbosity == Verbosity::NotVerbose,
            r.pattern.parts@.len() == 0,
            !r.pretty,
            r.seed == 0,
            r.fragments@.len() == 8,
            r.xforms@.len() == 0,
    {
        Config {
            format: default_format(),
            number: default_number(),
            verbosity: default_verbosity(),
            pattern: CompositePattern::default(),
            pretty: default_pretty(),
            seed: 0,
            fragments: default_fragments(),
            xforms: default_xforms(),
        }
    }
}

impl Config {
    /// Whether a message of the given level is shown under this configuration.
    pub fn shows(&self, level: Verbosity) -> (r: bool)
        ensures
            r == (self.verbosity.rank() >= level.rank()),
    {
        self.verbosity.level() >= level.level()
    }
}

} // verus!
