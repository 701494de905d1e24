//! Compiled path patterns, backed by the regex crate.
use vstd::prelude::*;

verus! {

#[verifier::external_type_specification]
#[verifier::external_body]
pub struct ExRegex(regex::Regex);

#[verifier::external_type_specification]
#[verifier::external_body]
pub struct ExRegexError(regex::Error);

/// Whether `pattern` is accepted by `regex::Regex::new`.
pub uninterp spec fn pattern_compiles(pattern: Seq<char>) -> bool;

/// What `regex::Regex::captures` finds for `pattern` in `text`: none where the
/// pattern does not match, else the text of each capture group by index
/// (group 0 is the whole match), none for a group that took no part.
pub uninterp spec fn pattern_captures(pattern: Seq<char>, text: Seq<char>) -> Option<
    Seq<Option<Seq<char>>>,
>;

/// What `regex::Regex::capture_names` yields for `pattern`: the name of each
/// capture group by index, none for an unnamed one.
pub uninterp spec fn pattern_group_names(pattern: Seq<char>) -> Seq<Option<Seq<char>>>;

/// A pattern together with the regex compiled from it. Only `compile` makes one.
#[derive(Debug)]
pub struct Pattern {
    source: String,
    regex: regex::Regex,
}

impl Pattern {
    /// The text the pattern was compiled from.
    pub closed spec fn source(&self) -> Seq<char> {
        self.source@
    }

    /// Relies on `regex::Regex::new`: it fails exactly on the patterns it
    /// refuses, and on success the regex is kept beside its source text.
    #[verifier::external_body]
    pub(crate) fn compile(source: &String) -> (r: Result<Pattern, regex::Error>)
        ensures
            r is Ok <==> pattern_compiles(source@),
            r matches Ok(p) ==> p.source() == source@,
    {
        match regex::Regex::new(source) {
            Ok(regex) => Ok(Pattern { source: source.clone(), regex }),
            Err(e) => Err(e),
        }
    }

    /// Relies on `regex::Regex::captures` and `Captures::iter`: the groups of
    /// the first match in `text`, as owned strings.
    #[verifier::external_body]
    pub(crate) fn captures(&self, text: &str) -> (r: Option<Vec<Option<String>>>)
        ensures
            r.deep_view() == pattern_captures(self.source(), text@),
    {
        match self.regex.captures(text) {
            Some(caps) => Some(caps.iter().map(|m| m.map(|m| m.as_str().to_string())).collect()),
            None => None,
        }
    }

    /// Relies on `regex::Regex::capture_names`: the group names, as owned strings.
    #[verifier::external_body]
    pub(crate) fn group_names(&self) -> (r: Vec<Option<String>>)
        ensures
            r.deep_view() == pattern_group_names(self.source()),
    {
        self.regex.capture_names().map(|n| n.map(|n| n.to_string())).collect()
    }
}

} // verus!
