//! General tree helpers: ordering a tree's children by name, filtering a
//! tree down to the entries whose names contain a plain search term, and
//! counting entries of one kind.
//!
//! These work on a simpler tree shape than the renderer's: a name, a color
//! number, a node kind and the children.

use vstd::multiset::Multiset;
use vstd::prelude::*;

verus! {

/// The kind of a simple tree entry.
#[derive(Clone, Copy, Debug, PartialEq, Eq, Structural)]
pub enum NodeType {
    Dir,
    File,
}

/// One entry of the simple tree.
pub struct TreeNode {
    pub color: i32,
    pub val: String,
    pub children: Vec<TreeNode>,
    pub node_type: NodeType,
}

/// The text-level value of an entry, for the specifications.
pub ghost struct TreeV {
    pub color: int,
    pub val: Seq<char>,
    pub children: Seq<TreeV>,
    pub node_type: NodeType,
}

/// The tree as the specifications see it.
pub open spec fn tree_view(n: TreeNode) -> TreeV
    decreases n,
{
    TreeV {
        color: n.color as int,
        val: n.val@,
        children: kids_view(n.children@),
        node_type: n.node_type,
    }
}

/// The views of a sequence of entries.
pub open spec fn kids_view(kids: Seq<TreeNode>) -> Seq<TreeV>
    decreases kids,
{
    if kids.len() == 0 {
        Seq::empty()
    } else {
        kids_view(kids.drop_last()).push(tree_view(kids.last()))
    }
}

/// `kids_view` maps the view over the elements.
pub proof fn lemma_kids_view(kids: Seq<TreeNode>)
    ensures
        kids_view(kids).len() == kids.len(),
        forall|i: int| 0 <= i < kids.len() ==> kids_view(kids)[i] == tree_view(#[trigger] kids[i]),
    decreases kids,
{
    if kids.len() > 0 {
        lemma_kids_view(kids.drop_last());
        assert forall|i: int| 0 <= i < kids.len() implies kids_view(kids)[i] == tree_view(
            #[trigger] kids[i],
        ) by {
            if i < kids.len() - 1 {
                assert(kids.drop_last()[i] == kids[i]);
            }
        }
    }
}

/// Lexicographic order on text, by character value; ties on a common prefix
/// go to the shorter text.  This is the order `str` comparison gives.
pub open spec fn spec_str_le(a: Seq<char>, b: Seq<char>) -> bool
    decreases a.len(),
{
    if a.len() == 0 {
        true
    } else if b.len() == 0 {
        false
    } else if (a[0] as u32) == (b[0] as u32) {
        spec_str_le(a.drop_first(), b.drop_first())
    } else {
        (a[0] as u32) < (b[0] as u32)
    }
}

/// The order is total.
pub proof fn lemma_str_le_total(a: Seq<char>, b: Seq<char>)
    ensures
        spec_str_le(a, b) || spec_str_le(b, a),
    decreases a.len(),
{
    if a.len() > 0 && b.len() > 0 && (a[0] as u32) == (b[0] as u32) {
        lemma_str_le_total(a.drop_first(), b.drop_first());
    }
}

/// The order is transitive.
pub proof fn lemma_str_le_trans(a: Seq<char>, b: Seq<char>, c: Seq<char>)
    requires
        spec_str_le(a, b),
        spec_str_le(b, c),
    ensures
        spec_str_le(a, c),
    decreases a.len(),
{
    if a.len() > 0 && b.len() > 0 && c.len() > 0 && (a[0] as u32) == (b[0] as u32) && (
    b[0] as u32) == (c[0] as u32) {
        lemma_str_le_trans(a.drop_first(), b.drop_first(), c.drop_first());
    }
}

/// Compares two texts in the lexicographic order, character by character.
#[verifier::loop_isolation(false)]
pub fn str_le(a: &str, b: &str) -> (r: bool)
    ensures
        r == spec_str_le(a@, b@),
{
    let alen = a.unicode_len();
    let blen = b.unicode_len();
    let mut i: usize = 0;
    proof {
        assert(a@.skip(0) =~= a@);
        assert(b@.skip(0) =~= b@);
    }
    loop
        invariant
            0 <= i <= alen,
            0 <= i <= blen,
            alen == a@.len(),
            blen == b@.len(),
            spec_str_le(a@, b@) == spec_str_le(a@.skip(i as int), b@.skip(i as int)),
        decreases alen - i,
    {
        if i >= alen {
            proof {
                assert(a@.skip(i as int).len() == 0);
            }
            return true;
        }
        if i >= blen {
            proof {
                assert(b@.skip(i as int).len() == 0);
                assert(a@.skip(i as int).len() > 0);
            }
            return false;
        }
        let ca = a.get_char(i);
        let cb = b.get_char(i);
        proof {
            assert(a@.skip(i as int)[0] == a@[i as int]);
            assert(b@.skip(i as int)[0] == b@[i as int]);
        }
        if (ca as u32) != (cb as u32) {
            return (ca as u32) < (cb as u32);
        }
        proof {
            assert(a@.skip(i as int).drop_first() =~= a@.skip(i as int + 1));
            assert(b@.skip(i as int).drop_first() =~= b@.skip(i as int + 1));
        }
        i += 1;
    }
}

/// Whether `t` occurs in `s` starting at position `k`.
pub open spec fn spec_match_at(s: Seq<char>, t: Seq<char>, k: int) -> bool {
    0 <= k <= s.len() - t.len() && s.subrange(k, k + t.len()) == t
}

/// Whether `t` occurs in `s` as a contiguous run of characters.
pub open spec fn spec_contains(s: Seq<char>, t: Seq<char>) -> bool {
    exists|k: int| spec_match_at(s, t, k)
}

/// Whether `t` occurs in `s` starting at position `k`.
#[verifier::loop_isolation(false)]
fn match_at(s: &str, t: &str, k: usize) -> (r: bool)
    requires
        k + t@.len() <= s@.len(),
        s@.len() <= usize::MAX,
    ensures
        r == (s@.subrange(k as int, k as int + t@.len() as int) == t@),
{
    let tl = t.unicode_len();
    let mut j: usize = 0;
    while j < tl
        invariant
            0 <= j <= tl,
            tl == t@.len(),
            k + tl <= s@.len(),
            forall|j2: int| 0 <= j2 < j ==> s@[k + j2] == t@[j2],
        decreases tl - j,
    {
        let cs = s.get_char(k + j);
        let ct = t.get_char(j);
        if cs != ct {
            proof {
                assert(s@.subrange(k as int, k as int + t@.len() as int)[j as int] != t@[j as int]);
            }
            return false;
        }
        j += 1;
    }
    proof {
        assert(s@.subrange(k as int, k as int + t@.len() as int) =~= t@);
    }
    true
}

/// Whether `t` occurs anywhere in `s`.
#[verifier::loop_isolation(false)]
pub fn str_contains(s: &str, t: &str) -> (r: bool)
    ensures
        r == spec_contains(s@, t@),
{
    let sl = s.unicode_len();
    let tl = t.unicode_len();
    if tl > sl {
        return false;
    }
    let bound = sl - tl;
    let mut k: usize = 0;
    loop
        invariant
            sl == s@.len(),
            tl == t@.len(),
            tl <= sl,
            bound == sl - tl,
            0 <= k <= bound,
            forall|k2: int| 0 <= k2 < k ==> !spec_match_at(s@, t@, k2),
        decreases bound - k,
    {
        if match_at(s, t, k) {
            proof {
                assert(spec_match_at(s@, t@, k as int));
            }
            return true;
        }
        if k == bound {
            return false;
        }
        k += 1;
    }
}

/// How many entries below `n` (the root itself not counted) are of kind `t`.
pub open spec fn spec_tree_count(n: TreeV, t: NodeType) -> nat
    decreases n,
{
    spec_forest_count(n.children, t)
}

/// How many entries in and below the given forest are of kind `t`.
pub open spec fn spec_forest_count(kids: Seq<TreeV>, t: NodeType) -> nat
    decreases kids,
{
    if kids.len() == 0 {
        0
    } else {
        spec_forest_count(kids.drop_last(), t) + (if kids.last().node_type == t {
            1nat
        } else {
            0
        }) + spec_tree_count(kids.last(), t)
    }
}

/// Counting one more child extends the count by that child's contribution.
proof fn lemma_forest_count_step(kids: Seq<TreeNode>, i: int, t: NodeType)
    requires
        0 <= i < kids.len(),
    ensures
        spec_forest_count(kids_view(kids.take(i + 1)), t) == spec_forest_count(
            kids_view(kids.take(i)),
            t,
        ) + (if kids[i].node_type == t {
            1nat
        } else {
            0
        }) + spec_tree_count(tree_view(kids[i]), t),
{
    assert(kids.take(i + 1).drop_last() =~= kids.take(i));
    assert(kids.take(i + 1).last() == kids[i]);
    assert(kids_view(kids.take(i + 1)) == kids_view(kids.take(i)).push(tree_view(kids[i])));
    let kv = kids_view(kids.take(i)).push(tree_view(kids[i]));
    assert(kv.drop_last() =~= kids_view(kids.take(i)));
    assert(kv.last() == tree_view(kids[i]));
}

/// A prefix never counts more than the whole forest.
proof fn lemma_forest_count_prefix_le(kids: Seq<TreeNode>, i: int, t: NodeType)
    requires
        0 <= i <= kids.len(),
    ensures
        spec_forest_count(kids_view(kids.take(i)), t) <= spec_forest_count(kids_view(kids), t),
    decreases kids.len() - i,
{
    if i < kids.len() {
        lemma_forest_count_step(kids, i, t);
        lemma_forest_count_prefix_le(kids, i + 1, t);
    } else {
        assert(kids.take(i) =~= kids);
    }
}

/// Counts the entries of kind `node_type` in the tree below `root`; the
/// root itself is not counted.
#[verifier::loop_isolation(false)]
pub fn get_tree_count(root: &TreeNode, node_type: NodeType) -> (count: usize)
    requires
        spec_tree_count(tree_view(*root), node_type) <= usize::MAX,
    ensures
        count as nat == spec_tree_count(tree_view(*root), node_type),
    decreases *root,
{
    let mut count: usize = 0;
    let n = root.children.len();
    let mut i: usize = 0;
    while i < n
        invariant
            n == root.children@.len(),
            0 <= i <= n,
            count as nat == spec_forest_count(kids_view(root.children@.take(i as int)), node_type),
            spec_tree_count(tree_view(*root), node_type) <= usize::MAX,
        decreases n - i,
    {
        proof {
            lemma_forest_count_step(root.children@, i as int, node_type);
            lemma_forest_count_prefix_le(root.children@, i as int + 1, node_type);
            assert(decreases_to!(*root => root.children));
            assert(decreases_to!(root.children => root.children@[i as int]));
        }
        if root.children[i].node_type == node_type {
            count += 1;
        }
        let sub = get_tree_count(&root.children[i], node_type);
        count += sub;
        i += 1;
    }
    proof {
        assert(root.children@.take(n as int) =~= root.children@);
    }
    count
}

/// What filtering keeps: every node's own fields survive unchanged, and a
/// child survives exactly when its filtered form still has children or its
/// name contains the term.
pub open spec fn spec_filter(n: TreeV, f: Seq<char>) -> TreeV
    decreases n,
{
    TreeV {
        color: n.color,
        val: n.val,
        node_type: n.node_type,
        children: spec_filter_kids(n.children, f),
    }
}

/// The filtered forms of the children that are kept, in order.
pub open spec fn spec_filter_kids(kids: Seq<TreeV>, f: Seq<char>) -> Seq<TreeV>
    decreases kids,
{
    if kids.len() == 0 {
        Seq::empty()
    } else {
        let rest = spec_filter_kids(kids.drop_last(), f);
        let fc = spec_filter(kids.last(), f);
        if fc.children.len() != 0 || spec_contains(kids.last().val, f) {
            rest.push(fc)
        } else {
            rest
        }
    }
}

/// Returns a copy of the tree keeping only the entries whose name contains
/// `filter`, or that still have a surviving entry below them.  The root is
/// always kept.
#[verifier::loop_isolation(false)]
pub fn filter_tree(root: &TreeNode, filter: &str) -> (r: TreeNode)
    ensures
        tree_view(r) == spec_filter(tree_view(*root), filter@),
    decreases *root,
{
    let mut new_children: Vec<TreeNode> = Vec::new();
    let n = root.children.len();
    let mut i: usize = 0;
    while i < n
        invariant
            n == root.children@.len(),
            0 <= i <= n,
            kids_view(new_children@) == spec_filter_kids(
                kids_view(root.children@.take(i as int)),
                filter@,
            ),
        decreases n - i,
    {
        proof {
            assert(decreases_to!(*root => root.children));
            assert(decreases_to!(root.children => root.children@[i as int]));
        }
        let node = filter_tree(&root.children[i], filter);
        let ghost pre = new_children@;
        let keep = node.children.len() != 0 || str_contains(node.val.as_str(), filter);
        proof {
            assert(root.children@.take(i as int + 1).drop_last() =~= root.children@.take(i as int));
            assert(root.children@.take(i as int + 1).last() == root.children@[i as int]);
            let kv = kids_view(root.children@.take(i as int + 1));
            assert(kv == kids_view(root.children@.take(i as int)).push(
                tree_view(root.children@[i as int]),
            ));
            assert(kv.drop_last() =~= kids_view(root.children@.take(i as int)));
            assert(kv.last() == tree_view(root.children@[i as int]));
            lemma_kids_view(new_children@);
            assert(tree_view(node).children.len() == kids_view(node.children@).len());
            lemma_kids_view(node.children@);
        }
        if keep {
            new_children.push(node);
            proof {
                assert(new_children@.drop_last() =~= pre);
                assert(new_children@.last() == new_children@[new_children@.len() - 1]);
                assert(kids_view(new_children@) == kids_view(pre).push(
                    tree_view(new_children@.last()),
                ));
            }
        }
        i += 1;
    }
    proof {
        assert(root.children@.take(n as int) =~= root.children@);
    }
    let r = TreeNode {
        color: root.color,
        val: root.val.clone(),
        children: new_children,
        node_type: root.node_type,
    };
    r
}

/// Whether a forest's entries stand in name order.
pub open spec fn spec_children_sorted(kids: Seq<TreeV>) -> bool {
    forall|i: int, j: int|
        0 <= i < j < kids.len() ==> spec_str_le((#[trigger] kids[i]).val, (#[trigger] kids[j]).val)
}

/// Element-for-element: each entry of `ms` is the sorted form of the entry
/// of `os` at the same position.
pub open spec fn spec_forest_rel(os: Seq<TreeV>, ms: Seq<TreeV>) -> bool
    decreases os,
{
    if os.len() != ms.len() {
        false
    } else if os.len() == 0 {
        true
    } else {
        spec_sorted_rel(os.last(), ms.last()) && spec_forest_rel(os.drop_last(), ms.drop_last())
    }
}

/// Whether `ms` holds exactly the entries of `mid`, in some order.
pub open spec fn spec_reordering(ms: Seq<TreeV>, mid: Seq<TreeV>) -> bool {
    ms.to_multiset() == mid.to_multiset()
}

/// `m` is `o` sorted: the node's own fields are unchanged, its children are
/// each sorted in turn and then reordered into name order, and nothing is
/// added or lost in the reordering.
pub open spec fn spec_sorted_rel(o: TreeV, m: TreeV) -> bool
    decreases o,
{
    &&& m.val == o.val
    &&& m.color == o.color
    &&& m.node_type == o.node_type
    &&& spec_children_sorted(m.children)
    &&& exists|mid: Seq<TreeV>|
        #[trigger] spec_reordering(m.children, mid) && spec_forest_rel(o.children, mid)
}

/// Builds `spec_forest_rel` from its element-wise form.
proof fn lemma_forest_rel_intro(os: Seq<TreeV>, ms: Seq<TreeV>)
    requires
        os.len() == ms.len(),
        forall|i: int| 0 <= i < os.len() ==> spec_sorted_rel(#[trigger] os[i], ms[i]),
    ensures
        spec_forest_rel(os, ms),
    decreases os,
{
    if os.len() > 0 {
        assert(os.drop_last().len() == ms.drop_last().len());
        assert(forall|i: int|
            0 <= i < os.drop_last().len() ==> spec_sorted_rel(
                #[trigger] os.drop_last()[i],
                ms.drop_last()[i],
            ));
        lemma_forest_rel_intro(os.drop_last(), ms.drop_last());
        assert(os.last() == os[os.len() - 1]);
        assert(spec_sorted_rel(os.last(), ms.last()));
    }
}

/// Inserting anywhere adds exactly one occurrence to the multiset.
proof fn lemma_insert_multiset(s: Seq<TreeV>, j: int, x: TreeV)
    requires
        0 <= j <= s.len(),
    ensures
        s.insert(j, x).to_multiset() == s.to_multiset().insert(x),
{
    broadcast use vstd::seq_lib::group_seq_properties;
    broadcast use vstd::multiset::group_multiset_axioms;

    let left = s.take(j);
    let right = s.skip(j);
    assert(s =~= left + right);
    assert(s.insert(j, x) =~= left.push(x) + right);
    vstd::seq_lib::lemma_multiset_commutative(left, right);
    vstd::seq_lib::lemma_multiset_commutative(left.push(x), right);
    left.to_multiset_ensures();
    assert(left.push(x).to_multiset() =~= left.to_multiset().insert(x));
    assert(s.insert(j, x).to_multiset() =~= s.to_multiset().insert(x));
}

/// Orders the entries of `v` by name, keeping exactly the same entries.
#[verifier::loop_isolation(false)]
fn sort_children(v: &mut Vec<TreeNode>)
    ensures
        kids_view(final(v)@).to_multiset() == kids_view(old(v)@).to_multiset(),
        spec_children_sorted(kids_view(final(v)@)),
{
    broadcast use vstd::multiset::group_multiset_axioms;
    broadcast use vstd::seq_lib::group_to_multiset_ensures;

    let mut out: Vec<TreeNode> = Vec::new();
    let ghost total = kids_view(old(v)@).to_multiset();
    proof {
        lemma_kids_view(v@);
        assert(kids_view(out@) == Seq::<TreeV>::empty());
        vstd::multiset::lemma_multiset_empty_len::<TreeV>(kids_view(out@).to_multiset());
        assert(kids_view(out@).to_multiset() =~= Multiset::<TreeV>::empty());
        assert(kids_view(out@).to_multiset().add(kids_view(v@).to_multiset()) =~= total);
    }
    while v.len() > 0
        invariant
            kids_view(out@).to_multiset().add(kids_view(v@).to_multiset()) == total,
            spec_children_sorted(kids_view(out@)),
        decreases v@.len(),
    {
        let ghost v_pre = v@;
        let ghost out_pre = out@;
        let x = v.remove(0);
        proof {
            lemma_kids_view(v_pre);
            lemma_kids_view(v@);
            assert forall|i2: int| 0 <= i2 < kids_view(v@).len() implies kids_view(v@)[i2]
                == kids_view(v_pre).remove(0)[i2] by {
                assert(v@[i2] == v_pre[i2 + 1]);
                assert(kids_view(v_pre)[i2 + 1] == tree_view(v_pre[i2 + 1]));
            }
            assert(kids_view(v@) =~= kids_view(v_pre).remove(0));
            kids_view(v_pre).to_multiset_ensures();
            assert(kids_view(v_pre)[0] == tree_view(v_pre[0]));
            assert(kids_view(v_pre).remove(0).to_multiset() =~= kids_view(
                v_pre,
            ).to_multiset().remove(tree_view(x)));
        }
        let mut j: usize = 0;
        loop
            invariant
                0 <= j <= out@.len(),
                forall|i: int|
                    0 <= i < j ==> spec_str_le((#[trigger] kids_view(out@)[i]).val, tree_view(x).val),
            decreases out@.len() - j,
        {
            if j == out.len() {
                break ;
            }
            let cont = str_le(out[j].val.as_str(), x.val.as_str());
            proof {
                lemma_kids_view(out@);
            }
            if !cont {
                break ;
            }
            j += 1;
        }
        out.insert(j, x);
        proof {
            lemma_kids_view(out_pre);
            lemma_kids_view(out@);
            assert forall|i2: int| 0 <= i2 < kids_view(out@).len() implies kids_view(out@)[i2]
                == kids_view(out_pre).insert(j as int, tree_view(x))[i2] by {
                if i2 < j {
                    assert(out@[i2] == out_pre[i2]);
                    assert(kids_view(out_pre)[i2] == tree_view(out_pre[i2]));
                } else if i2 == j {
                    assert(out@[i2] == x);
                } else {
                    assert(out@[i2] == out_pre[i2 - 1]);
                    assert(kids_view(out_pre)[i2 - 1] == tree_view(out_pre[i2 - 1]));
                }
            }
            assert(kids_view(out@) =~= kids_view(out_pre).insert(j as int, tree_view(x)));
            lemma_insert_multiset(kids_view(out_pre), j as int, tree_view(x));
            // the multiset bookkeeping: one occurrence moved from v to out
            assert(kids_view(out@).to_multiset().add(kids_view(v@).to_multiset()) =~= kids_view(
                out_pre,
            ).to_multiset().add(kids_view(v_pre).to_multiset()));
            // sortedness of the new arrangement
            let ov = kids_view(out_pre);
            let nv = kids_view(out@);
            let xv = tree_view(x);
            if (j as int) < ov.len() {
                lemma_str_le_total(ov[j as int].val, xv.val);
            }
            assert forall|i1: int, i2: int| 0 <= i1 < i2 < nv.len() implies spec_str_le(
                (#[trigger] nv[i1]).val,
                (#[trigger] nv[i2]).val,
            ) by {
                if i1 < j && i2 < j {
                    assert(nv[i1] == ov[i1] && nv[i2] == ov[i2]);
                } else if i1 < j && i2 == j {
                    assert(nv[i1] == ov[i1] && nv[i2] == xv);
                } else if i1 < j && i2 > j {
                    assert(nv[i1] == ov[i1] && nv[i2] == ov[i2 - 1]);
                } else if i1 == j && i2 > j {
                    assert(nv[i1] == xv && nv[i2] == ov[i2 - 1]);
                    assert(spec_str_le(xv.val, ov[j as int].val));
                    if i2 - 1 > j {
                        lemma_str_le_trans(xv.val, ov[j as int].val, ov[i2 - 1].val);
                    }
                } else {
                    assert(nv[i1] == ov[i1 - 1] && nv[i2] == ov[i2 - 1]);
                }
            }
        }
    }
    proof {
        lemma_kids_view(v@);
        assert(kids_view(v@) == Seq::<TreeV>::empty());
        vstd::multiset::lemma_multiset_empty_len::<TreeV>(kids_view(v@).to_multiset());
        assert(kids_view(v@).to_multiset() =~= Multiset::<TreeV>::empty());
        assert(kids_view(out@).to_multiset() =~= kids_view(out@).to_multiset().add(kids_view(
            v@,
        ).to_multiset()));
    }
    *v = out;
}

/// Sorts every node's children by name, recursively: afterwards each
/// forest of siblings stands in name order, and each node still holds
/// exactly the entries it held before, each sorted in turn.
#[verifier::loop_isolation(false)]
pub fn sort_tree(root: &mut TreeNode)
    ensures
        spec_sorted_rel(tree_view(*old(root)), tree_view(*final(root))),
    decreases *old(root),
{
    let ghost orig: TreeNode = *root;
    let n = root.children.len();
    let mut i: usize = 0;
    while i < n
        invariant
            n == root.children@.len(),
            n == orig.children@.len(),
            0 <= i <= n,
            root.val == orig.val,
            root.color == orig.color,
            root.node_type == orig.node_type,
            forall|j: int| i <= j < n ==> root.children@[j] == orig.children@[j],
            forall|j: int|
                0 <= j < i ==> spec_sorted_rel(
                    tree_view(#[trigger] orig.children@[j]),
                    tree_view(root.children@[j]),
                ),
        decreases n - i,
    {
        proof {
            assert(root.children@[i as int] == orig.children@[i as int]);
            assert(decreases_to!(orig => orig.children));
            assert(decreases_to!(orig.children => orig.children@[i as int]));
        }
        sort_tree(&mut root.children[i]);
        i += 1;
    }
    let ghost mid = kids_view(root.children@);
    proof {
        lemma_kids_view(orig.children@);
        lemma_kids_view(root.children@);
        assert(kids_view(orig.children@).len() == mid.len());
        assert forall|j: int| 0 <= j < n implies spec_sorted_rel(
            #[trigger] kids_view(orig.children@)[j],
            mid[j],
        ) by {
            assert(spec_sorted_rel(
                tree_view(orig.children@[j]),
                tree_view(root.children@[j]),
            ));
        }
        lemma_forest_rel_intro(kids_view(orig.children@), mid);
    }
    sort_children(&mut root.children);
    proof {
        let o = tree_view(orig);
        let m = tree_view(*root);
        assert(m.val == o.val);
        assert(m.color == o.color);
        assert(m.node_type == o.node_type);
        assert(spec_children_sorted(m.children));
        assert(spec_forest_rel(o.children, mid));
        assert(spec_reordering(m.children, mid));
        assert(spec_sorted_rel(o, m));
    }
}

} // verus!
