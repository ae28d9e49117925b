//! Compiled regular expressions of the `regex` crate, known to the proofs by
//! their source text.
use vstd::prelude::*;

verus! {

#[verifier::external_type_specification]
#[verifier::external_body]
pub struct ExRegex(regex::Regex);

/// Whether `regex::Regex::new` accepts `source`.
pub uninterp spec fn regex_compiles(source: Seq<char>) -> bool;

/// The texts of the successive non-overlapping matches of `source` in `text`
/// (`regex::Regex::find_iter`).
pub uninterp spec fn regex_find_all(source: Seq<char>, text: Seq<char>) -> Seq<Seq<char>>;

/// The first match of `source` in `text` (`regex::Regex::captures`): `None`
/// when there is none, else the text of its first group, if that group took
/// part in the match.
pub uninterp spec fn regex_first_group(source: Seq<char>, text: Seq<char>) -> Option<Option<Seq<char>>>;

/// Whether `source` matches somewhere in `text` (`regex::Regex::is_match`).
pub uninterp spec fn regex_is_match(source: Seq<char>, text: Seq<char>) -> bool;

/// A regular expression together with the source it was compiled from; the
/// only way to make one is `Pattern::compile`, so the two always agree.
pub(crate) struct Pattern {
    source: String,
    compiled: regex::Regex,
}

impl View for Pattern {
    type V = Seq<char>;

    closed spec fn view(&self) -> Seq<char> {
        self.source@
    }
}

/// A group of a match as text.
pub open spec fn group_view(group: Option<Option<String>>) -> Option<Option<Seq<char>>> {
    match group {
        Some(Some(text)) => Some(Some(text@)),
        Some(None) => Some(None),
        None => None,
    }
}

impl Pattern {
    /// Compiles `source` with `regex::Regex::new`; the error is the crate's
    /// own description. The contract claims that the call succeeds exactly
    /// when the source is accepted, and that the pattern is that source.
    #[verifier::external_body]
    pub(crate) fn compile(source: &str) -> (compiled: Result<Pattern, String>)
        ensures
            compiled is Ok <==> regex_compiles(source@),
            compiled matches Ok(pattern) ==> pattern@ == source@,
    {
        match regex::Regex::new(source) {
            Ok(compiled) => Ok(Pattern { source: source.to_string(), compiled }),
            Err(error) => Err(error.to_string()),
        }
    }

    /// The matches in `text` (`regex::Regex::find_iter`), claimed to be the
    /// named result for this pattern's source and `text`.
    #[verifier::external_body]
    pub(crate) fn find_all(&self, text: &str) -> (found: Vec<String>)
        ensures
            found@.map_values(|s: String| s@) == regex_find_all(self@, text@),
    {
        self.compiled.find_iter(text).map(|found| found.as_str().to_string()).collect()
    }

    /// The first group of the first match in `text`
    /// (`regex::Regex::captures`), claimed to be the named result for this
    /// pattern's source and `text`.
    #[verifier::external_body]
    pub(crate) fn first_group(&self, text: &str) -> (group: Option<Option<String>>)
        ensures
            group_view(group) == regex_first_group(self@, text@),
    {
        self.compiled.captures(text).map(|captures| captures.get(1).map(|found| found.as_str().to_string()))
    }

    /// Whether the pattern matches in `text` (`regex::Regex::is_match`),
    /// claimed to be the named result for this pattern's source and `text`.
    #[verifier::external_body]
    pub(crate) fn is_match(&self, text: &str) -> (found: bool)
        ensures
            found == regex_is_match(self@, text@),
    {
        self.compiled.is_match(text)
    }
}

} // verus!
