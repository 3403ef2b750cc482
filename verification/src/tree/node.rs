//! Tree nodes: one filesystem entry each, with the shape invariants that
//! relate a node's kind (file or directory) to its children.

pub mod count;
pub mod file;

use vstd::prelude::*;
use vstd::string::StringExecFns;
use crate::tree::metrics::FileMetrics;
use crate::tree::summary::{aggregated, NodeSummary};
use crate::utils::{check_path, into_string};

verus! {

/// One entry of the analyzed tree.
///
/// A file node has no children (`children` is `None`); a directory node
/// carries its direct entries, possibly none, in listing order.
#[derive(Debug)]
pub struct TreeNode {
    /// The path of this entry, as it was discovered or supplied.
    pub path: String,
    /// Whether this entry is a directory; fixed at construction.
    pub is_dir: bool,
    /// The direct entries of a directory, in listing order; `None` for files.
    pub children: Option<Vec<TreeNode>>,
    /// The node's aggregated metrics; zero-valued until a summarize pass runs.
    pub summary: NodeSummary,
}

/// The shape invariant: `children` is present exactly on directory nodes,
/// and every descendant satisfies the same rule.
pub open spec fn shape_wf(n: TreeNode) -> bool
    decreases n,
{
    match n.children {
        Some(cs) => n.is_dir && (forall|i: int|
            0 <= i < cs@.len() ==> shape_wf(#[trigger] cs@[i])),
        None => !n.is_dir,
    }
}

/// Two trees have the same shape: paths, kinds and child counts agree at
/// every node; only the summaries may differ.
pub open spec fn same_shape(a: TreeNode, b: TreeNode) -> bool
    decreases a,
{
    &&& a.path == b.path
    &&& a.is_dir == b.is_dir
    &&& match (a.children, b.children) {
        (Some(x), Some(y)) => x@.len() == y@.len() && (forall|i: int|
            0 <= i < x@.len() ==> same_shape(#[trigger] x@[i], y@[i])),
        (None, None) => true,
        _ => false,
    }
}

/// Every tree has the same shape as itself.
pub proof fn lemma_same_shape_refl(n: TreeNode)
    ensures
        same_shape(n, n),
    decreases n,
{
    match n.children {
        Some(cs) => {
            assert forall|i: int| 0 <= i < cs@.len() implies same_shape(#[trigger] cs@[i], cs@[i]) by {
                lemma_same_shape_refl(cs@[i]);
            }
        },
        None => {},
    }
}

/// The shape invariant carries over to any tree of the same shape.
pub proof fn lemma_same_shape_wf(a: TreeNode, b: TreeNode)
    requires
        same_shape(a, b),
        shape_wf(a),
    ensures
        shape_wf(b),
    decreases a,
{
    match (a.children, b.children) {
        (Some(x), Some(y)) => {
            assert forall|i: int| 0 <= i < y@.len() implies shape_wf(#[trigger] y@[i]) by {
                lemma_same_shape_wf(x@[i], y@[i]);
            }
        },
        _ => {},
    }
}

/// The stem below which a directory's entries live: the directory's own
/// path, with a trailing separator added unless one is already there.
pub open spec fn dir_stem(base: Seq<char>) -> Seq<char> {
    if base.len() > 0 && base.last() == '/' {
        base
    } else {
        base.push('/')
    }
}

/// `p` is a direct-entry path of the directory at `base`: the directory's
/// stem followed by a nonempty, separator-free entry name.
pub open spec fn entry_of_dir(base: Seq<char>, p: Seq<char>) -> bool {
    &&& p.len() > dir_stem(base).len()
    &&& p.subrange(0, dir_stem(base).len() as int) == dir_stem(base)
    &&& forall|k: int| dir_stem(base).len() <= k < p.len() ==> p[k] != '/'
}

/// `p` lies in the path space rooted at `e`: it is `e` itself, or extends
/// `e`'s stem.
pub open spec fn within_space(e: Seq<char>, p: Seq<char>) -> bool {
    p == e || (p.len() > dir_stem(e).len() && p.subrange(0, dir_stem(e).len() as int)
        == dir_stem(e))
}

/// Path nesting, as directory listing produces it: every child's path is a
/// direct-entry path of its parent (stem plus separator-free name), children
/// of one node have pairwise distinct paths, and the same holds below. By
/// [`lemma_nested_unique`] this gives the tree-wide invariant that no two
/// nodes share a path.
pub open spec fn paths_nested(n: TreeNode) -> bool
    decreases n,
{
    match n.children {
        Some(cs) => {
            &&& forall|i: int| 0 <= i < cs@.len()
                ==> entry_of_dir(n.path@, (#[trigger] cs@[i]).path@)
            &&& forall|i: int, j: int| 0 <= i < j < cs@.len()
                ==> (#[trigger] cs@[i]).path@ != (#[trigger] cs@[j]).path@
            &&& forall|i: int| 0 <= i < cs@.len() ==> paths_nested(#[trigger] cs@[i])
        },
        None => true,
    }
}

/// `p` occurs as a node path somewhere in the tree.
pub open spec fn has_path(n: TreeNode, p: Seq<char>) -> bool
    decreases n,
{
    n.path@ == p || match n.children {
        Some(cs) => exists|i: int| 0 <= i < cs@.len() && has_path(#[trigger] cs@[i], p),
        None => false,
    }
}

/// No two nodes of the tree share a path: the root's path recurs in no
/// child subtree, the child subtrees' path sets are pairwise disjoint, and
/// the same holds below.
pub open spec fn unique_paths(n: TreeNode) -> bool
    decreases n,
{
    match n.children {
        Some(cs) => {
            &&& forall|i: int| 0 <= i < cs@.len() ==> unique_paths(#[trigger] cs@[i])
            &&& forall|i: int| 0 <= i < cs@.len() ==> !has_path(#[trigger] cs@[i], n.path@)
            &&& forall|i: int, j: int, p: Seq<char>|
                0 <= i < cs@.len() && 0 <= j < cs@.len() && i != j ==> !(#[trigger] has_path(
                    cs@[i],
                    p,
                ) && #[trigger] has_path(cs@[j], p))
        },
        None => true,
    }
}

/// Path nesting carries over to any tree of the same shape, since shape
/// equality fixes every path.
pub proof fn lemma_same_shape_nested(a: TreeNode, b: TreeNode)
    requires
        same_shape(a, b),
        paths_nested(a),
    ensures
        paths_nested(b),
    decreases a,
{
    match (a.children, b.children) {
        (Some(x), Some(y)) => {
            assert forall|i: int| 0 <= i < y@.len() implies entry_of_dir(
                b.path@,
                (#[trigger] y@[i]).path@,
            ) && paths_nested(y@[i]) by {
                assert(same_shape(x@[i], y@[i]));
                lemma_same_shape_nested(x@[i], y@[i]);
            }
            assert forall|i: int, j: int| 0 <= i < j < y@.len() implies (#[trigger] y@[i]).path@
                != (#[trigger] y@[j]).path@ by {
                assert(same_shape(x@[i], y@[i]));
                assert(same_shape(x@[j], y@[j]));
            }
        },
        _ => {},
    }
}

/// Whatever path occurs in a nested tree lies in the path space rooted at
/// the tree's own path.
proof fn lemma_nested_contains(n: TreeNode, p: Seq<char>)
    requires
        paths_nested(n),
        has_path(n, p),
    ensures
        within_space(n.path@, p),
    decreases n,
{
    if n.path@ != p {
        match n.children {
            Some(cs) => {
                let i = choose|i: int| 0 <= i < cs@.len() && has_path(#[trigger] cs@[i], p);
                let c = cs@[i];
                lemma_nested_contains(c, p);
                let stem_n = dir_stem(n.path@);
                if p == c.path@ {
                    assert(within_space(n.path@, p));
                } else {
                    // c's path ends in a separator-free name, so its stem is
                    // that path plus one separator; n's stem is a prefix of it.
                    assert(c.path@.last() != '/');
                    let stem_c = dir_stem(c.path@);
                    assert(stem_c == c.path@.push('/'));
                    assert(p.len() > stem_c.len());
                    assert forall|k: int| 0 <= k < stem_n.len() implies p[k] == stem_n[k] by {
                        assert(p[k] == p.subrange(0, stem_c.len() as int)[k]);
                        assert(stem_c[k] == c.path@[k]);
                        assert(c.path@[k] == c.path@.subrange(0, stem_n.len() as int)[k]);
                    }
                    assert(p.subrange(0, stem_n.len() as int) =~= stem_n);
                    assert(p.len() > stem_n.len());
                }
            },
            None => {},
        }
    }
}

/// The path spaces of distinct direct entries of one directory are
/// disjoint: a path lying in two of them forces the entries to be the same.
proof fn lemma_entry_spaces_overlap(base: Seq<char>, a: Seq<char>, b: Seq<char>, p: Seq<char>)
    requires
        entry_of_dir(base, a),
        entry_of_dir(base, b),
        within_space(a, p),
        within_space(b, p),
    ensures
        a == b,
{
    if a == b {
        return ;
    }
    let stem = dir_stem(base);
    assert(a.last() != '/');
    assert(b.last() != '/');
    let stem_a = dir_stem(a);
    let stem_b = dir_stem(b);
    assert(stem_a == a.push('/'));
    assert(stem_b == b.push('/'));
    if p == a && p == b {
        assert(false);
    } else if p == a {
        // a extends b's stem: a would hold a separator inside its name.
        assert(a[b.len() as int] == stem_b[b.len() as int]);
        assert(a[b.len() as int] == '/');
        assert(stem.len() <= b.len() < a.len());
        assert(false);
    } else if p == b {
        assert(b[a.len() as int] == stem_a[a.len() as int]);
        assert(b[a.len() as int] == '/');
        assert(stem.len() <= a.len() < b.len());
        assert(false);
    } else {
        // p extends both stems; the shorter entry's closing separator would
        // then sit inside the longer entry's separator-free name.
        if a.len() < b.len() {
            assert(p[a.len() as int] == stem_a[a.len() as int]);
            assert(p[a.len() as int] == '/');
            assert(b[a.len() as int] == stem_b[a.len() as int]);
            assert(b[a.len() as int] == p[a.len() as int]);
            assert(stem.len() <= a.len() < b.len());
            assert(false);
        } else if b.len() < a.len() {
            assert(p[b.len() as int] == stem_b[b.len() as int]);
            assert(p[b.len() as int] == '/');
            assert(a[b.len() as int] == stem_a[b.len() as int]);
            assert(a[b.len() as int] == p[b.len() as int]);
            assert(stem.len() <= b.len() < a.len());
            assert(false);
        } else {
            assert(stem_a =~= p.subrange(0, stem_a.len() as int));
            assert(stem_b =~= p.subrange(0, stem_b.len() as int));
            assert(stem_a == stem_b);
            assert(a =~= stem_a.drop_last());
            assert(b =~= stem_b.drop_last());
            assert(false);
        }
    }
}

/// No two nodes of a nested tree share a path: spec-level path uniqueness
/// within one build.
pub proof fn lemma_nested_unique(n: TreeNode)
    requires
        paths_nested(n),
    ensures
        unique_paths(n),
    decreases n,
{
    match n.children {
        Some(cs) => {
            assert forall|i: int| 0 <= i < cs@.len() implies unique_paths(#[trigger] cs@[i]) by {
                lemma_nested_unique(cs@[i]);
            }
            assert forall|i: int| 0 <= i < cs@.len() implies !has_path(
                #[trigger] cs@[i],
                n.path@,
            ) by {
                if has_path(cs@[i], n.path@) {
                    lemma_nested_contains(cs@[i], n.path@);
                    // both branches of within_space make n's path longer
                    // than itself
                    assert(cs@[i].path@.len() > dir_stem(n.path@).len() >= n.path@.len());
                }
            }
            assert forall|i: int, j: int, p: Seq<char>|
                0 <= i < cs@.len() && 0 <= j < cs@.len() && i != j implies !(#[trigger] has_path(
                cs@[i],
                p,
            ) && #[trigger] has_path(cs@[j], p)) by {
                if has_path(cs@[i], p) && has_path(cs@[j], p) {
                    lemma_nested_contains(cs@[i], p);
                    lemma_nested_contains(cs@[j], p);
                    lemma_entry_spaces_overlap(n.path@, cs@[i].path@, cs@[j].path@, p);
                    if i < j {
                        assert(cs@[i].path@ != cs@[j].path@);
                    } else {
                        assert(cs@[j].path@ != cs@[i].path@);
                    }
                }
            }
        },
        None => {},
    }
}

/// Every summary in the tree is still the zero-valued placeholder that
/// construction installs.
pub open spec fn zero_summaries(n: TreeNode) -> bool
    decreases n,
{
    &&& n.summary.is_zero()
    &&& match n.children {
        Some(cs) => forall|i: int|
            0 <= i < cs@.len() ==> zero_summaries(#[trigger] cs@[i]),
        None => true,
    }
}

impl TreeNode {
    /// Creates a node for `path`: a directory node starts with an empty child
    /// list, a file node with none; the summary is the zero-valued
    /// placeholder either way.
    pub fn new<P: Into<String>>(path: P, is_dir: bool) -> (r: Self)
        ensures
            r.is_dir == is_dir,
            is_dir ==> (r.children matches Some(cs) && cs@.len() == 0),
            !is_dir ==> r.children is None,
            r.summary.is_zero(),
            shape_wf(r),
            zero_summaries(r),
    {
        TreeNode {
            is_dir,
            path: into_string(path),
            children: if is_dir { Some(Vec::new()) } else { None },
            summary: NodeSummary::new(),
        }
    }

    /// Whether this node's path exists on disk at the moment of the call.
    pub fn is_valid(&self) -> bool {
        check_path(self.path.as_str()).is_ok()
    }

    /// Renders this node as a displayable block: path, kind, number of
    /// direct children, and its summary.
    pub fn describe(&self) -> String {
        let mut out = String::from_str("\n----- TreeNode -----\n\n- path: ");
        out.append(self.path.as_str());
        out.append("\n- is_dir: ");
        out.append(if self.is_dir { "true" } else { "false" });
        out.append("\n- children: ");
        let n: usize = match &self.children {
            Some(cs) => cs.len(),
            None => 0,
        };
        out.append(n.to_string().as_str());
        out.append("\n- summary: ");
        out.append(self.summary.describe().as_str());
        out.append("\n\n--------------------");
        out
    }

    /// Computes (or recomputes, overwriting) this node's summary and that of
    /// every descendant, reading leaf metrics from the default disk source:
    /// real sizes, but line counts recorded as zero, since that source does
    /// not read file text — use [`TreeNode::upsert_summary_with`] for real
    /// counts. Afterwards the whole subtree satisfies the aggregation
    /// invariant; the tree's shape is untouched.
    pub fn upsert_summary(&mut self)
        ensures
            same_shape(*old(self), *final(self)),
            aggregated(*final(self)),
    {
        let summary = NodeSummary::update(self);
        self.summary = summary;
    }

    /// As [`TreeNode::upsert_summary`], reading leaf metrics from `metrics`.
    pub fn upsert_summary_with<M: FileMetrics>(&mut self, metrics: &M)
        ensures
            same_shape(*old(self), *final(self)),
            aggregated(*final(self)),
    {
        let summary = NodeSummary::update_with(self, metrics);
        self.summary = summary;
    }
}

} // verus!
