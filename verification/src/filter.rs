//! The filter engine: a compiled inclusion pattern and a test for whether a
//! candidate name is visible.
//!
//! The pattern language itself is supplied by the `regex` crate; its verdict
//! on a given pattern and name is named by the uninterpreted function
//! [`pattern_matches`], and everything downstream (table construction,
//! lookup) is proved relative to that name.

use vstd::prelude::*;

verus! {

/// The verdict of the `regex` crate's matcher: whether `pattern` matches
/// anywhere in `name`. A function of the two strings alone.
pub uninterp spec fn pattern_matches(pattern: Seq<char>, name: Seq<char>) -> bool;

/// The verdict of the `regex` crate's compiler: whether `pattern` is a
/// valid pattern text (one `regex::Regex::new` compiles, within its default
/// size limit). A function of the text alone.
pub uninterp spec fn pattern_ok(pattern: Seq<char>) -> bool;

#[verifier::external_type_specification]
#[verifier::external_body]
pub struct ExRegex(regex::Regex);

/// A pattern compiled once at startup, kept together with its source text so
/// that contracts can speak of the pattern that was compiled.
pub struct Filter {
    re: regex::Regex,
    pattern: String,
}

impl Filter {
    /// The source text the compiled pattern was built from.
    pub closed spec fn pattern(self) -> Seq<char> {
        self.pattern@
    }

    /// Relies on `regex::Regex::new`: compiles `pattern`, succeeding exactly
    /// when the text is a valid pattern — an outcome that depends on the text
    /// alone, named [`pattern_ok`] — and reporting an error otherwise. The
    /// compiled matcher is stored beside the very text it was compiled from,
    /// so that `re_is_match` may speak of it.
    #[verifier::external_body]
    fn compile(pattern: &str) -> (r: Result<Filter, String>)
        ensures
            r is Ok <==> pattern_ok(pattern@),
            r matches Ok(f) ==> f.pattern() == pattern@,
    {
        match regex::Regex::new(pattern) {
            Ok(re) => Ok(Filter { re, pattern: pattern.to_string() }),
            Err(e) => Err(format!("{}", e)),
        }
    }

    /// Relies on `regex::Regex::is_match`: true if and only if the pattern
    /// matches somewhere in `name`, a function of the pattern text and the
    /// name alone.
    #[verifier::external_body]
    fn re_is_match(&self, name: &str) -> (r: bool)
        ensures
            r == pattern_matches(self.pattern(), name@),
    {
        self.re.is_match(name)
    }

    /// Compiles the inclusion pattern: a filter exactly when the pattern
    /// text is valid. Compilation failure is fatal at startup: the caller
    /// must not proceed to serve requests on an `Err`.
    pub fn new(pattern: &str) -> (r: Result<Filter, String>)
        ensures
            r is Ok <==> pattern_ok(pattern@),
            r matches Ok(f) ==> f.pattern() == pattern@,
    {
        Filter::compile(pattern)
    }

    /// Tests a candidate name for inclusion in the synthetic directory.
    pub fn matches(&self, name: &str) -> (r: bool)
        ensures
            r == pattern_matches(self.pattern(), name@),
    {
        self.re_is_match(name)
    }
}

} // verus!
