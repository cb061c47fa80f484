use crate::text::{char_string, push_char, same_text};
use vstd::prelude::*;

verus! {

/// A transform applied to each generated string.
#[derive(Clone, Copy, Debug, PartialEq, Eq, Structural)]
pub enum Xform {
    /// Every `q` or `Q` not followed by `u` or `U` gets a `u` after it.
    UAfterQ,
    /// The whole string in lower case.
    LowerCase,
    /// The whole string in upper case.
    UpperCase,
    /// The first character of each word in upper case.
    TitleCase,
}

/// The lower-case form of a string, as std's `str::to_lowercase` gives it.
pub uninterp spec fn lower_of(s: Seq<char>) -> Seq<char>;

/// The upper-case form of a string, as std's `str::to_uppercase` gives it.
pub uninterp spec fn upper_of(s: Seq<char>) -> Seq<char>;

/// Whether a character is a Unicode word character (`\w`).
pub uninterp spec fn is_word_char(c: char) -> bool;

pub open spec fn is_q(c: char) -> bool {
    c == 'q' || c == 'Q'
}

pub open spec fn is_u(c: char) -> bool {
    c == 'u' || c == 'U'
}

/// What the character at `i` becomes: itself, and a `u` after a `q` or `Q`
/// that no `u` or `U` follows.
pub open spec fn u_after_q_piece(s: Seq<char>, i: int) -> Seq<char> {
    if is_q(s[i]) && !(i + 1 < s.len() && is_u(s[i + 1])) {
        seq![s[i], 'u']
    } else {
        seq![s[i]]
    }
}

/// The first `n` characters of `s`, each replaced by its piece.
pub open spec fn u_after_q_upto(s: Seq<char>, n: nat) -> Seq<char>
    decreases n,
{
    if n == 0 {
        Seq::empty()
    } else {
        u_after_q_upto(s, (n - 1) as nat) + u_after_q_piece(s, n - 1)
    }
}

pub open spec fn u_after_q(s: Seq<char>) -> Seq<char> {
    u_after_q_upto(s, s.len())
}

/// Whether a word (a maximal run of word characters) starts at `i`.
pub open spec fn starts_word(s: Seq<char>, i: int) -> bool {
    is_word_char(s[i]) && (i == 0 || !is_word_char(s[i - 1]))
}

/// What the character at `i` becomes: its upper-case form where a word
/// starts, itself elsewhere.
pub open spec fn title_piece(s: Seq<char>, i: int) -> Seq<char> {
    if starts_word(s, i) {
        upper_of(seq![s[i]])
    } else {
        seq![s[i]]
    }
}

pub open spec fn title_upto(s: Seq<char>, n: nat) -> Seq<char>
    decreases n,
{
    if n == 0 {
        Seq::empty()
    } else {
        title_upto(s, (n - 1) as nat) + title_piece(s, n - 1)
    }
}

pub open spec fn title_case(s: Seq<char>) -> Seq<char> {
    title_upto(s, s.len())
}

/// What a transform makes of a string.
pub open spec fn xform_text(x: Xform, s: Seq<char>) -> Seq<char> {
    match x {
        Xform::UAfterQ => u_after_q(s),
        Xform::LowerCase => lower_of(s),
        Xform::UpperCase => upper_of(s),
        Xform::TitleCase => title_case(s),
    }
}

/// The transforms applied one after the other, the first first.
pub open spec fn xform_all(xs: Seq<Xform>, s: Seq<char>) -> Seq<char>
    decreases xs.len(),
{
    if xs.len() == 0 {
        s
    } else {
        xform_text(xs[xs.len() - 1], xform_all(xs.subrange(0, xs.len() - 1), s))
    }
}

/// Relies on regex_syntax's `is_word_character`: whether the character is a
/// Unicode word character.
#[verifier::external_body]
fn word_char(c: char) -> (r: bool)
    ensures
        r == is_word_char(c),
{
    regex_syntax::is_word_character(c)
}

/// A string without its leading and trailing white space, as std's
/// `str::trim` gives it.
pub uninterp spec fn trim_of(s: Seq<char>) -> Seq<char>;

/// Relies on std's `str::trim`: the result depends on the characters alone.
#[verifier::external_body]
fn trimmed(s: &str) -> (r: &str)
    ensures
        r@ == trim_of(s@),
{
    s.trim()
}

/// The transform that a name (white space around it aside) stands for.
pub open spec fn xform_named(name: Seq<char>) -> Option<Xform> {
    let n = trim_of(name);
    if n == "u_after_q"@ {
        Some(Xform::UAfterQ)
    } else if n == "title_case"@ {
        Some(Xform::TitleCase)
    } else if n == "lower_case"@ {
        Some(Xform::LowerCase)
    } else if n == "upper_case"@ {
        Some(Xform::UpperCase)
    } else {
        None
    }
}

impl<'a> TryFrom<&'a str> for Xform {
    type Error = &'static str;

    /// The transform of that name; an error for any other name.
    fn try_from(name: &'a str) -> (r: Result<Self, Self::Error>) {
        let name = trimmed(name);
        if same_text(name, "u_after_q") {
            Ok(Xform::UAfterQ)
        } else if same_text(name, "title_case") {
            Ok(Xform::TitleCase)
        } else if same_text(name, "lower_case") {
            Ok(Xform::LowerCase)
        } else if same_text(name, "upper_case") {
            Ok(Xform::UpperCase)
        } else {
            Err("Invalid transform type!")
        }
    }
}

impl<'a> vstd::std_specs::convert::TryFromSpecImpl<&'a str> for Xform {
    open spec fn obeys_try_from_spec() -> bool {
        true
    }

    open spec fn try_from_spec(name: &'a str) -> Result<Xform, &'static str> {
        match xform_named(name@) {
            Some(x) => Ok(x),
            None => Err("Invalid transform type!"),
        }
    }
}

impl Xform {
    fn xform_uafterq(s: &str) -> (r: String)
        ensures
            r@ == u_after_q(s@),
    {
        let n = s.unicode_len();
        let mut out = String::new();
        let mut i: usize = 0;
        while i < n
            invariant
                0 <= i <= n,
                n == s@.len(),
                out@ == u_after_q_upto(s@, i as nat),
            decreases n - i,
        {
            let c = s.get_char(i);
            push_char(&mut out, c);
            if (c == 'q' || c == 'Q') && !(i + 1 < n && (s.get_char(i + 1) == 'u' || s.get_char(i + 1) == 'U')) {
                push_char(&mut out, 'u');
            }
            assert(out@ =~= u_after_q_upto(s@, (i + 1) as nat));
            i = i + 1;
        }
        out
    }

    /// Relies on std's `str::to_lowercase`: the result depends on the
    /// characters alone.
    #[verifier::external_body]
    fn xform_lowercase(s: &str) -> (r: String)
        ensures
            r@ == lower_of(s@),
            s@.len() == 0 ==> r@.len() == 0,
    {
        s.to_lowercase()
    }

    /// Relies on std's `str::to_uppercase`: the result depends on the
    /// characters alone.
    #[verifier::external_body]
    fn xform_uppercase(s: &str) -> (r: String)
        ensures
            r@ == upper_of(s@),
            s@.len() == 0 ==> r@.len() == 0,
    {
        s.to_uppercase()
    }

    fn xform_titlecase(s: &str) -> (r: String)
        ensures
            r@ == title_case(s@),
    {
        let n = s.unicode_len();
        let mut out = String::new();
        let mut prev_word = false;
        let mut i: usize = 0;
        while i < n
            invariant
                0 <= i <= n,
                n == s@.len(),
                out@ == title_upto(s@, i as nat),
                i > 0 ==> prev_word == is_word_char(s@[i - 1]),
            decreases n - i,
        {
            let c = s.get_char(i);
            let word = word_char(c);
            if word && (i == 0 || !prev_word) {
                let single = char_string(c);
                let up = Xform::xform_uppercase(single.as_str());
                out.append(up.as_str());
            } else {
                push_char(&mut out, c);
            }
            assert(out@ =~= title_upto(s@, (i + 1) as nat));
            prev_word = word;
            i = i + 1;
        }
        out
    }

    /// The string after this transform.
    pub fn xform(&self, s: &str) -> (r: String)
        ensures
            r@ == xform_text(*self, s@),
    {
        match self {
            Xform::UAfterQ => Xform::xform_uafterq(s),
            Xform::LowerCase => Xform::xform_lowercase(s),
            Xform::UpperCase => Xform::xform_uppercase(s),
            Xform::TitleCase => Xform::xform_titlecase(s),
        }
    }
}

} // verus!
