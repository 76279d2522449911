//! The in-memory directory tree.
//!
//! A tree is built once, outside the library, from a snapshot of the
//! filesystem; everything in it but the `visible` flag is immutable from then
//! on.  The matcher recomputes `visible` once per frame.

use vstd::prelude::*;

verus! {

pub const CYAN: &'static str = "\x1B[36m";

pub const MAGENTA: &'static str = "\x1B[35m";

pub const YELLOW: &'static str = "\x1B[33m";

pub const RED: &'static str = "\x1B[31m";

/// What a tree entry is.  Symlinks are their own category and are never
/// followed, so they are always leaves.  An error placeholder stands for a
/// directory whose listing failed.
#[derive(Clone, Copy, Debug, PartialEq, Eq, Structural)]
pub enum FileCategory {
    Directory,
    RegularFile,
    Symlink,
    ErrorPlaceholder,
}

/// The color a category is drawn in, fixed at build time.
pub open spec fn color_of(category: FileCategory) -> Seq<char> {
    match category {
        FileCategory::Directory => CYAN@,
        FileCategory::RegularFile => MAGENTA@,
        FileCategory::Symlink => YELLOW@,
        FileCategory::ErrorPlaceholder => RED@,
    }
}

/// The color escape sequence for a category.
pub fn determine_color(category: FileCategory) -> (r: String)
    ensures
        r@ == color_of(category),
{
    match category {
        FileCategory::Directory => CYAN.to_owned(),
        FileCategory::RegularFile => MAGENTA.to_owned(),
        FileCategory::Symlink => YELLOW.to_owned(),
        FileCategory::ErrorPlaceholder => RED.to_owned(),
    }
}

/// One entry of the snapshot.  `name` is the final path component; the root
/// of a tree built from a path such as `.` has none and is displayed as `.`.
/// `error` carries the message of a failed listing, shown inline.
pub struct DirectoryNode {
    pub name: Option<String>,
    pub children: Vec<DirectoryNode>,
    pub visible: bool,
    pub category: FileCategory,
    pub error: Option<String>,
}

/// Whether the node's own name matches the pattern.  A node without a name
/// (the root) never matches by itself.
pub open spec fn own_match(n: DirectoryNode, p: Seq<char>) -> bool {
    n.name is Some && crate::pattern::regex_match(p, n.name->Some_0@)
}

/// Whether the node should be visible under pattern `p`: its own name
/// matches, or some node below it does.
pub open spec fn node_matches(n: DirectoryNode, p: Seq<char>) -> bool
    decreases n,
{
    own_match(n, p) || exists|i: int|
        0 <= i < n.children@.len() && node_matches(#[trigger] n.children@[i], p)
}

/// `m` is `o` with every `visible` flag recomputed against pattern `p` and
/// nothing else changed.
pub open spec fn well_marked(o: DirectoryNode, m: DirectoryNode, p: Seq<char>) -> bool
    decreases o,
{
    &&& m.name == o.name
    &&& m.category == o.category
    &&& m.error == o.error
    &&& m.children@.len() == o.children@.len()
    &&& forall|i: int|
        0 <= i < o.children@.len() ==> well_marked(
            #[trigger] o.children@[i],
            m.children@[i],
            p,
        )
    &&& m.visible == node_matches(o, p)
}

/// Whether some strict descendant of `n`, at any depth, is visible.
pub open spec fn some_descendant_visible(n: DirectoryNode) -> bool
    decreases n,
{
    exists|i: int|
        0 <= i < n.children@.len() && ((#[trigger] n.children@[i]).visible
            || some_descendant_visible(n.children@[i]))
}

} // verus!
