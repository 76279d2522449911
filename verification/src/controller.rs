//! The per-frame pattern selection and its fallback rule.
//!
//! Each iteration the controller wraps the typed pattern in a case-mode
//! group and compiles it.  When the text does not compile (a mid-edit
//! pattern, say an unbalanced parenthesis), the last successfully compiled
//! pattern is used instead and the frame is flagged invalid; the marks are
//! then exactly the marks of that earlier pattern, so an invalid edit never
//! changes what is visible.

use vstd::prelude::*;

use crate::pattern::regex_accepts;
use crate::pattern::CompiledPattern;
use crate::tree::well_marked;
use crate::tree::DirectoryNode;

verus! {

/// The pattern text actually handed to the regex engine: the typed pattern
/// wrapped in a case-insensitive group, or in a single-line group when
/// matching case-sensitively.
pub open spec fn spec_wrapped_pattern(pattern: Seq<char>, case_sensitive: bool) -> Seq<char> {
    if case_sensitive {
        "(?-s:"@ + pattern + ")"@
    } else {
        "(?i:"@ + pattern + ")"@
    }
}

/// Wraps the typed pattern in its case-mode group.
pub fn wrap_pattern(pattern: &str, case_sensitive: bool) -> (r: String)
    ensures
        r@ == spec_wrapped_pattern(pattern@, case_sensitive),
{
    let mut p = if case_sensitive {
        "(?-s:".to_owned()
    } else {
        "(?i:".to_owned()
    };
    p.append(pattern);
    p.append(")");
    p
}

/// The pattern the session starts from: the empty pattern in its case-mode
/// group.  It is `None` only if the engine rejects even that, which the
/// caller treats as a startup failure.
pub fn initial_pattern(case_sensitive: bool) -> (r: Option<CompiledPattern>)
    ensures
        r is Some <==> regex_accepts(spec_wrapped_pattern(""@, case_sensitive)),
        r is Some ==> r->Some_0.pattern() == spec_wrapped_pattern(""@, case_sensitive),
{
    let wrapped = wrap_pattern("", case_sensitive);
    CompiledPattern::compile(wrapped.as_str())
}

/// Compiles this frame's pattern, or falls back.  Returns the pattern to
/// mark and render with, and whether the typed pattern was valid: on success
/// the freshly compiled pattern comes back (and becomes the new fallback);
/// on failure the fallback `last_working` itself comes back unchanged.
pub fn frame_pattern(pattern: &str, case_sensitive: bool, last_working: CompiledPattern) -> (r: (
    CompiledPattern,
    bool,
))
    ensures
        r.1 <==> regex_accepts(spec_wrapped_pattern(pattern@, case_sensitive)),
        r.1 ==> r.0.pattern() == spec_wrapped_pattern(pattern@, case_sensitive),
        !r.1 ==> r.0.pattern() == last_working.pattern(),
{
    let wrapped = wrap_pattern(pattern, case_sensitive);
    match CompiledPattern::compile(wrapped.as_str()) {
        Some(re) => (re, true),
        None => (last_working, false),
    }
}

/// Whether two trees agree on every `visible` flag, node for node.
pub open spec fn marks_agree(a: DirectoryNode, b: DirectoryNode) -> bool
    decreases a,
{
    &&& a.visible == b.visible
    &&& a.children@.len() == b.children@.len()
    &&& forall|i: int|
        0 <= i < a.children@.len() ==> marks_agree(#[trigger] a.children@[i], b.children@[i])
}

/// Marking is a function of the snapshot and the pattern text alone: two
/// markings of the same tree against the same pattern agree on every
/// `visible` flag.  So when an invalid edit makes the controller fall back
/// to the last working pattern, the visible set after the edit equals the
/// visible set that pattern produced before it.
pub proof fn lemma_fallback_keeps_visible_set(
    o: DirectoryNode,
    m1: DirectoryNode,
    m2: DirectoryNode,
    p: Seq<char>,
)
    requires
        well_marked(o, m1, p),
        well_marked(o, m2, p),
    ensures
        marks_agree(m1, m2),
    decreases o,
{
    assert forall|i: int| 0 <= i < m1.children@.len() implies marks_agree(
        #[trigger] m1.children@[i],
        m2.children@[i],
    ) by {
        assert(well_marked(o.children@[i], m1.children@[i], p));
        assert(well_marked(o.children@[i], m2.children@[i], p));
        assert(decreases_to!(o => o.children));
        assert(decreases_to!(o.children => o.children@[i]));
        lemma_fallback_keeps_visible_set(o.children@[i], m1.children@[i], m2.children@[i], p);
    }
}

} // verus!
