use vstd::prelude::*;

verus! {

/// Whether a pattern string is a valid regular expression: exactly the
/// patterns that `regex::Regex::new` accepts, determined by the pattern
/// text alone.
pub uninterp spec fn regex_valid(pattern: Seq<char>) -> bool;

/// Whether a regular expression matches somewhere inside a text: what
/// `regex::Regex::is_match` returns, determined by pattern and text alone.
pub uninterp spec fn regex_match(pattern: Seq<char>, text: Seq<char>) -> bool;

#[verifier::external_type_specification]
#[verifier::external_body]
pub struct ExRegex(regex::Regex);

#[verifier::external_type_specification]
#[verifier::external_body]
pub struct ExRegexError(regex::Error);

/// A compiled host-filter pattern together with its source text. Only
/// `HostPattern::compile` constructs one, so `re` is always the compilation
/// of `src`; the contract of `is_match` below rests on that.
#[derive(Debug)]
pub struct HostPattern {
    re: regex::Regex,
    src: String,
}

impl HostPattern {
    /// The pattern text this value was compiled from.
    pub closed spec fn pat(&self) -> Seq<char> {
        self.src@
    }

    /// Relies on `regex::Regex::new`: it returns `Ok` exactly on the strings
    /// that parse as regular expressions (within the default size limit), a
    /// property of the pattern text alone.
    #[verifier::external_body]
    pub(crate) fn compile(pattern: &str) -> (r: Result<HostPattern, regex::Error>)
        ensures
            r is Ok <==> regex_valid(pattern@),
            r matches Ok(p) ==> p.pat() == pattern@,
    {
        match regex::Regex::new(pattern) {
            Ok(re) => Ok(HostPattern { re, src: pattern.to_owned() }),
            Err(e) => Err(e),
        }
    }

    /// Relies on `regex::Regex::is_match`: true when the pattern matches
    /// anywhere in `text`, a function of pattern and text alone.
    #[verifier::external_body]
    pub(crate) fn is_match(&self, text: &str) -> (r: bool)
        ensures
            r == regex_match(self.pat(), text@),
    {
        self.re.is_match(text)
    }
}

} // verus!
