//! Compiled regular expressions, through the `regex` crate.
use vstd::prelude::*;

verus! {

#[verifier::external_type_specification]
#[verifier::external_body]
pub struct ExRegex(regex::Regex);

/// Whether `regex::Regex::new` accepts `pattern`; this depends on the pattern alone.
pub uninterp spec fn regex_accepts(pattern: Seq<char>) -> bool;

/// Whether the regular expression `pattern` matches somewhere in `text`.
pub uninterp spec fn regex_finds(pattern: Seq<char>, text: Seq<char>) -> bool;

/// The text of capture group `group` in the leftmost-first match of `pattern` in `text`,
/// when there is a match and that group took part in it.
pub uninterp spec fn regex_group(pattern: Seq<char>, text: Seq<char>, group: nat) -> Option<
    Seq<char>,
>;

/// A regular expression together with the source it was compiled from.
pub struct Pattern {
    source: String,
    compiled: regex::Regex,
}

impl Pattern {
    /// The source text this pattern was compiled from.
    pub closed spec fn source(&self) -> Seq<char> {
        self.source@
    }

    /// Relies on `regex::Regex::new`: it fails exactly on the patterns it does not accept.
    #[verifier::external_body]
    pub fn compile(source: &str) -> (r: Option<Pattern>)
        ensures
            r is Some <==> regex_accepts(source@),
            r matches Some(p) ==> p.source() == source@,
    {
        match regex::Regex::new(source) {
            Ok(re) => Some(Pattern { source: source.to_string(), compiled: re }),
            Err(_) => None,
        }
    }

    /// Relies on `regex::Regex::is_match`: whether the pattern matches anywhere in `text`.
    #[verifier::external_body]
    pub fn is_match(&self, text: &str) -> (r: bool)
        ensures
            r == regex_finds(self.source(), text@),
    {
        self.compiled.is_match(text)
    }

    /// Relies on `regex::Regex::captures`, `Captures::get` and `Match::as_str`: the text of
    /// one capture group of the leftmost-first match.
    #[verifier::external_body]
    pub fn group(&self, text: &str, group: usize) -> (r: Option<String>)
        ensures
            match r {
                Some(s) => regex_group(self.source(), text@, group as nat) == Some(s@),
                None => regex_group(self.source(), text@, group as nat) is None,
            },
    {
        match self.compiled.captures(text) {
            Some(caps) => match caps.get(group) {
                Some(m) => Some(m.as_str().to_string()),
                None => None,
            },
            None => None,
        }
    }
}

} // verus!
