//! Match propagation: the post-order walk that recomputes every `visible`
//! flag against the current pattern.

use vstd::prelude::*;

use crate::pattern::CompiledPattern;
use crate::tree::node_matches;
use crate::tree::own_match;
use crate::tree::some_descendant_visible;
use crate::tree::well_marked;
use crate::tree::DirectoryNode;

verus! {

/// Marks `node` and everything below it: a node becomes visible exactly when
/// its own name matches the pattern or some node below it is visible, and
/// nothing but the `visible` flags changes.  Returns the root's new flag.
#[verifier::loop_isolation(false)]
pub fn mark_matched_nodes(node: &mut DirectoryNode, re: &CompiledPattern) -> (v: bool)
    ensures
        well_marked(*old(node), *final(node), re.pattern()),
        v == node_matches(*old(node), re.pattern()),
    decreases *old(node),
{
    let ghost orig: DirectoryNode = *node;
    let own = match &node.name {
        Some(nm) => re.is_match(nm.as_str()),
        None => false,
    };
    let mut any_child = false;
    let n = node.children.len();
    let mut i: usize = 0;
    while i < n
        invariant
            n == node.children@.len(),
            n == orig.children@.len(),
            0 <= i <= n,
            node.name == orig.name,
            node.category == orig.category,
            node.error == orig.error,
            own == own_match(orig, re.pattern()),
            forall|j: int| i <= j < n ==> node.children@[j] == orig.children@[j],
            forall|j: int|
                0 <= j < i ==> well_marked(
                    #[trigger] orig.children@[j],
                    node.children@[j],
                    re.pattern(),
                ),
            any_child == exists|j: int|
                0 <= j < i && node_matches(#[trigger] orig.children@[j], re.pattern()),
        decreases n - i,
    {
        proof {
            assert(node.children@[i as int] == orig.children@[i as int]);
            assert(decreases_to!(orig => orig.children));
            assert(decreases_to!(orig.children => orig.children@[i as int]));
            assert(decreases_to!(orig => orig.children@[i as int]));
        }
        let c = mark_matched_nodes(&mut node.children[i], re);
        proof {
            if c {
                assert(node_matches(orig.children@[i as int], re.pattern()));
            }
        }
        any_child = any_child || c;
        i += 1;
    }
    let v = own || any_child;
    node.visible = v;
    proof {
        assert(node_matches(orig, re.pattern()) == (own_match(orig, re.pattern()) || exists|j: int|
            0 <= j < orig.children@.len() && node_matches(
                #[trigger] orig.children@[j],
                re.pattern(),
            )));
    }
    v
}

/// A node of a freshly marked tree is visible exactly when its own name
/// matches the pattern or some descendant, at any depth, is visible.
pub proof fn lemma_visible_iff_match_or_descendant(
    o: DirectoryNode,
    m: DirectoryNode,
    p: Seq<char>,
)
    requires
        well_marked(o, m, p),
    ensures
        m.visible <==> (own_match(m, p) || some_descendant_visible(m)),
    decreases o,
{
    assert forall|i: int| 0 <= i < o.children@.len() implies (node_matches(
        #[trigger] o.children@[i],
        p,
    ) <==> (m.children@[i].visible || some_descendant_visible(m.children@[i]))) by {
        assert(well_marked(o.children@[i], m.children@[i], p));
        assert(decreases_to!(o => o.children));
        assert(decreases_to!(o.children => o.children@[i]));
        lemma_visible_iff_match_or_descendant(o.children@[i], m.children@[i], p);
        assert(m.children@[i].visible == node_matches(o.children@[i], p));
        if some_descendant_visible(m.children@[i]) {
            assert(m.children@[i].visible);
        }
    }
    assert(own_match(m, p) == own_match(o, p));
    assert(node_matches(o, p) == (own_match(o, p) || exists|i: int|
        0 <= i < o.children@.len() && node_matches(#[trigger] o.children@[i], p)));
    if exists|i: int| 0 <= i < o.children@.len() && node_matches(#[trigger] o.children@[i], p) {
        let i = choose|i: int|
            0 <= i < o.children@.len() && node_matches(#[trigger] o.children@[i], p);
        assert(well_marked(o.children@[i], m.children@[i], p));
        assert(m.children@[i].visible);
        assert(some_descendant_visible(m));
    }
    if some_descendant_visible(m) {
        let i = choose|i: int|
            0 <= i < m.children@.len() && ((#[trigger] m.children@[i]).visible
                || some_descendant_visible(m.children@[i]));
        assert(well_marked(o.children@[i], m.children@[i], p));
        assert(node_matches(o.children@[i], p));
    }
}

} // verus!
