//! A compiled search pattern.
//!
//! The regex engine itself is outside code; the library reaches it only
//! through the trusted items in this module.  A `CompiledPattern` pairs the
//! engine's compiled form with the pattern text it was compiled from, so that
//! every contract can speak of the text alone.

use vstd::prelude::*;

use regex::Regex;

verus! {

#[verifier::external_type_specification]
#[verifier::external_body]
pub struct ExRegex(Regex);

/// Whether `regex::Regex::new` accepts the pattern: the syntax is valid and
/// the compiled form fits the engine's default size limit.  The result is a
/// function of the pattern text alone.
pub uninterp spec fn regex_accepts(pattern: Seq<char>) -> bool;

/// Whether the regex compiled from `pattern` matches anywhere in `text`.
/// The result is a function of the two texts alone.
pub uninterp spec fn regex_match(pattern: Seq<char>, text: Seq<char>) -> bool;

/// The successive non-overlapping matches that the regex compiled from
/// `pattern` finds in `text`, leftmost first, as half-open ranges of
/// character positions in `text`.
pub uninterp spec fn regex_find(pattern: Seq<char>, text: Seq<char>) -> Seq<(int, int)>;

/// The match ranges as the specifications see them.
pub open spec fn ranges_view(r: Seq<(usize, usize)>) -> Seq<(int, int)> {
    r.map_values(|m: (usize, usize)| (m.0 as int, m.1 as int))
}

/// The ranges `regex_find` yields are in bounds, ordered left to right and
/// non-overlapping.
pub open spec fn find_ranges_wf(ranges: Seq<(int, int)>, len: int) -> bool {
    &&& forall|k: int|
        0 <= k < ranges.len() ==> 0 <= (#[trigger] ranges[k]).0 <= ranges[k].1 <= len
    &&& forall|k: int|
        0 <= k && k + 1 < ranges.len() ==> (#[trigger] ranges[k]).1 <= ranges[k + 1].0
            && ranges[k].0 < ranges[k + 1].0
}

/// A pattern compiled once per frame and reused across the whole tree.
pub struct CompiledPattern {
    re: Regex,
    source: String,
}

impl CompiledPattern {
    /// The pattern text this value was compiled from.
    pub closed spec fn pattern(&self) -> Seq<char> {
        self.source@
    }

    /// Relies on `regex::Regex::new`: it returns `Ok` exactly when the
    /// pattern is acceptable, and the compiled regex then stands for that
    /// pattern text.
    #[verifier::external_body]
    pub fn compile(pattern: &str) -> (r: Option<CompiledPattern>)
        ensures
            r is Some <==> regex_accepts(pattern@),
            r is Some ==> r->Some_0.pattern() == pattern@,
    {
        match Regex::new(pattern) {
            Ok(re) => Some(CompiledPattern { re, source: pattern.to_string() }),
            Err(_) => None,
        }
    }

    /// Relies on `regex::Regex::is_match`: true if and only if there is a
    /// match for the compiled pattern anywhere in `text`.
    #[verifier::external_body]
    pub fn is_match(&self, text: &str) -> (r: bool)
        ensures
            r == regex_match(self.pattern(), text@),
    {
        self.re.is_match(text)
    }

    /// Relies on `regex::Regex::find_iter`: it yields the successive
    /// non-overlapping matches in `text`, leftmost first, as byte ranges that
    /// lie on character boundaries; the body converts each to a range of
    /// character positions.
    #[verifier::external_body]
    pub fn find_ranges(&self, text: &str) -> (r: Vec<(usize, usize)>)
        ensures
            ranges_view(r@) == regex_find(self.pattern(), text@),
            find_ranges_wf(ranges_view(r@), text@.len() as int),
    {
        self.re.find_iter(text).map(
            |m| (text[..m.start()].chars().count(), text[..m.end()].chars().count()),
        ).collect()
    }
}

} // verus!
