use treefilter::util::filter_tree;
use treefilter::util::get_tree_count;
use treefilter::util::sort_tree;
use treefilter::util::str_contains;
use treefilter::util::str_le;
use treefilter::util::NodeType;
use treefilter::util::TreeNode;

fn leaf(name: &str, t: NodeType) -> TreeNode {
    TreeNode { color: 34, val: name.to_string(), children: Vec::new(), node_type: t }
}

fn branch(name: &str, children: Vec<TreeNode>) -> TreeNode {
    TreeNode { color: 33, val: name.to_string(), children, node_type: NodeType::Dir }
}

fn names(n: &TreeNode) -> Vec<String> {
    n.children.iter().map(|c| c.val.clone()).collect()
}

#[test]
fn text_order_is_lexicographic() {
    assert!(str_le("a", "b"));
    assert!(!str_le("b", "a"));
    assert!(str_le("ab", "ab"));
    assert!(str_le("a", "ab"));
    assert!(!str_le("ab", "a"));
    assert!(str_le("B", "a"));
}

#[test]
fn containment_checks_contiguous_runs() {
    assert!(str_contains("hello", "ell"));
    assert!(str_contains("hello", "hello"));
    assert!(str_contains("hello", ""));
    assert!(!str_contains("hello", "xyz"));
    assert!(!str_contains("he", "hello"));
}

#[test]
fn sorting_orders_children_by_name() {
    let mut t = branch(
        "root",
        vec![leaf("b", NodeType::File), leaf("a", NodeType::File), leaf("c", NodeType::File)],
    );
    sort_tree(&mut t);
    assert_eq!(names(&t), vec!["a", "b", "c"]);
}

#[test]
fn sorting_reaches_every_level() {
    let mut t = branch(
        "root",
        vec![branch("z", vec![leaf("2", NodeType::File), leaf("1", NodeType::File)]), branch(
            "a",
            vec![leaf("y", NodeType::File), leaf("x", NodeType::File)],
        )],
    );
    sort_tree(&mut t);
    assert_eq!(names(&t), vec!["a", "z"]);
    assert_eq!(names(&t.children[0]), vec!["x", "y"]);
    assert_eq!(names(&t.children[1]), vec!["1", "2"]);
}

#[test]
fn sorting_keeps_every_entry() {
    let mut t = branch(
        "root",
        vec![leaf("b", NodeType::File), leaf("a", NodeType::Dir), leaf("b", NodeType::File)],
    );
    sort_tree(&mut t);
    assert_eq!(names(&t), vec!["a", "b", "b"]);
    assert_eq!(t.children[0].node_type, NodeType::Dir);
}

#[test]
fn filtering_keeps_matches_and_their_ancestors() {
    let t = branch(
        "root",
        vec![branch("sub", vec![leaf("hit.txt", NodeType::File)]), leaf("miss.txt", NodeType::File)],
    );
    let f = filter_tree(&t, "hit");
    assert_eq!(f.val, "root");
    assert_eq!(names(&f), vec!["sub"]);
    assert_eq!(names(&f.children[0]), vec!["hit.txt"]);
}

#[test]
fn filtering_drops_empty_branches() {
    let t = branch("root", vec![branch("sub", vec![leaf("none", NodeType::File)])]);
    let f = filter_tree(&t, "zzz");
    assert!(f.children.is_empty());
}

#[test]
fn filtering_keeps_a_branch_matched_by_name() {
    let t = branch("root", vec![branch("hits", vec![leaf("none", NodeType::File)])]);
    let f = filter_tree(&t, "hit");
    assert_eq!(names(&f), vec!["hits"]);
    // the branch's own children still face the filter
    assert!(f.children[0].children.is_empty());
}

#[test]
fn counting_by_kind() {
    let t = branch(
        "root",
        vec![
            branch("a", vec![leaf("f1", NodeType::File), leaf("f2", NodeType::File)]),
            leaf("f3", NodeType::File),
        ],
    );
    assert_eq!(get_tree_count(&t, NodeType::File), 3);
    assert_eq!(get_tree_count(&t, NodeType::Dir), 1);
}

#[test]
fn counting_an_empty_tree() {
    let t = branch("root", vec![]);
    assert_eq!(get_tree_count(&t, NodeType::File), 0);
}
