//! Node summaries and the bottom-up aggregation pass.
//!
//! A file node's summary holds the file's own metrics; a directory node's
//! summary holds the fold (a saturating sum, so the pass can never abort on
//! arithmetic) of its direct children's summaries. The pass is best-effort
//! at the leaves: a metric that cannot be read contributes zero instead of
//! failing the whole pass.

use vstd::prelude::*;
use vstd::string::StringExecFns;
use crate::errors::IOError;
use crate::tree::metrics::{DiskMetrics, FileMetrics};
use crate::tree::node::{lemma_same_shape_refl, same_shape, shape_wf, TreeNode};
use crate::utils::now_millis;

verus! {

/// Aggregated metrics of one node: its own, for a file; its subtree's, for
/// a directory.
#[derive(Debug, Clone)]
pub struct NodeSummary {
    /// Disk usage in bytes.
    pub size: u64,
    /// Number of text lines.
    pub count: u64,
    /// When this summary was computed, in milliseconds since the Unix epoch;
    /// `None` until a summarize pass has reached the node.
    pub updated_at: Option<u64>,
    /// File-extension inventory; reserved, currently always left empty by
    /// aggregation.
    pub suffixes: Vec<String>,
}

/// Addition on sizes and counts, saturating at the largest representable
/// value so that aggregation never aborts.
pub open spec fn sat_add(a: int, b: int) -> int {
    if a + b > u64::MAX { u64::MAX as int } else { a + b }
}

/// The saturating left-fold of the children's summary sizes, in order.
pub open spec fn sum_sizes(cs: Seq<TreeNode>) -> int
    decreases cs.len(),
{
    if cs.len() == 0 {
        0
    } else {
        sat_add(sum_sizes(cs.drop_last()), cs.last().summary.size as int)
    }
}

/// The saturating left-fold of the children's summary line counts, in order.
pub open spec fn sum_counts(cs: Seq<TreeNode>) -> int
    decreases cs.len(),
{
    if cs.len() == 0 {
        0
    } else {
        sat_add(sum_counts(cs.drop_last()), cs.last().summary.count as int)
    }
}

/// The exact (unsaturated) sum of the children's summary sizes.
pub open spec fn exact_sum_sizes(cs: Seq<TreeNode>) -> int
    decreases cs.len(),
{
    if cs.len() == 0 {
        0
    } else {
        exact_sum_sizes(cs.drop_last()) + cs.last().summary.size
    }
}

/// The exact (unsaturated) sum of the children's summary line counts.
pub open spec fn exact_sum_counts(cs: Seq<TreeNode>) -> int
    decreases cs.len(),
{
    if cs.len() == 0 {
        0
    } else {
        exact_sum_counts(cs.drop_last()) + cs.last().summary.count
    }
}

/// The aggregation invariant: at every node the summary has been computed
/// (`updated_at` set, `suffixes` empty), and at every directory node `size`
/// and `count` are the fold of the direct children's summaries (zero for a
/// directory without a child list).
pub open spec fn aggregated(n: TreeNode) -> bool
    decreases n,
{
    &&& n.summary.updated_at is Some
    &&& n.summary.suffixes@.len() == 0
    &&& n.is_dir ==> match n.children {
        Some(cs) => {
            &&& n.summary.size == sum_sizes(cs@)
            &&& n.summary.count == sum_counts(cs@)
            &&& forall|i: int| 0 <= i < cs@.len() ==> aggregated(#[trigger] cs@[i])
        },
        None => n.summary.size == 0 && n.summary.count == 0,
    }
}

/// Two same-shaped trees agree on the metrics stored at their leaves: every
/// pair of corresponding file nodes has equal `size` and `count`.
pub open spec fn leaf_metrics_match(a: TreeNode, b: TreeNode) -> bool
    decreases a,
{
    if a.is_dir {
        match (a.children, b.children) {
            (Some(x), Some(y)) => x@.len() == y@.len() && (forall|i: int|
                0 <= i < x@.len() ==> leaf_metrics_match(#[trigger] x@[i], y@[i])),
            (None, None) => true,
            _ => false,
        }
    } else {
        a.summary.size == b.summary.size && a.summary.count == b.summary.count
    }
}

/// Two trees agree on `size` and `count` at every node.
pub open spec fn summaries_match(a: TreeNode, b: TreeNode) -> bool
    decreases a,
{
    &&& a.summary.size == b.summary.size
    &&& a.summary.count == b.summary.count
    &&& match (a.children, b.children) {
        (Some(x), Some(y)) => x@.len() == y@.len() && (forall|i: int|
            0 <= i < x@.len() ==> summaries_match(#[trigger] x@[i], y@[i])),
        (None, None) => true,
        _ => false,
    }
}

/// Child sequences whose summaries agree pairwise on `size` and `count`
/// fold to the same totals.
proof fn lemma_sums_pointwise(x: Seq<TreeNode>, y: Seq<TreeNode>)
    requires
        x.len() == y.len(),
        forall|i: int| 0 <= i < x.len() ==> (#[trigger] x[i]).summary.size == y[i].summary.size
            && x[i].summary.count == y[i].summary.count,
    ensures
        sum_sizes(x) == sum_sizes(y),
        sum_counts(x) == sum_counts(y),
    decreases x.len(),
{
    if x.len() > 0 {
        lemma_sums_pointwise(x.drop_last(), y.drop_last());
    }
}

/// Idempotence of aggregation: two summarize passes over the same tree
/// shape that read the same metrics at every leaf (a static directory
/// snapshot) record the same `size` and `count` at every node, whatever
/// their timestamps.
pub proof fn lemma_aggregation_idempotent(a: TreeNode, b: TreeNode)
    requires
        shape_wf(a),
        same_shape(a, b),
        leaf_metrics_match(a, b),
        aggregated(a),
        aggregated(b),
    ensures
        summaries_match(a, b),
    decreases a,
{
    if a.is_dir {
        match (a.children, b.children) {
            (Some(x), Some(y)) => {
                assert forall|i: int|
                    0 <= i < x@.len() implies summaries_match(#[trigger] x@[i], y@[i]) by {
                    lemma_aggregation_idempotent(x@[i], y@[i]);
                }
                lemma_sums_pointwise(x@, y@);
            },
            _ => {},
        }
    }
}

/// When the exact sum of the children's sizes fits in `u64`, the saturating
/// fold records exactly that sum.
pub proof fn lemma_sum_sizes_exact(cs: Seq<TreeNode>)
    requires
        exact_sum_sizes(cs) <= u64::MAX,
    ensures
        sum_sizes(cs) == exact_sum_sizes(cs),
    decreases cs.len(),
{
    if cs.len() > 0 {
        lemma_sum_sizes_exact(cs.drop_last());
    }
}

/// When the exact sum of the children's line counts fits in `u64`, the
/// saturating fold records exactly that sum.
pub proof fn lemma_sum_counts_exact(cs: Seq<TreeNode>)
    requires
        exact_sum_counts(cs) <= u64::MAX,
    ensures
        sum_counts(cs) == exact_sum_counts(cs),
    decreases cs.len(),
{
    if cs.len() > 0 {
        lemma_sum_counts_exact(cs.drop_last());
    }
}

/// Aggregation correctness at one directory node: after aggregation, and as
/// long as the exact totals fit in `u64`, the node's `size` and `count` are
/// exactly the sums of its direct children's.
pub proof fn lemma_aggregated_dir_sums(n: TreeNode, cs: Vec<TreeNode>)
    requires
        aggregated(n),
        n.is_dir,
        n.children == Some(cs),
        exact_sum_sizes(cs@) <= u64::MAX,
        exact_sum_counts(cs@) <= u64::MAX,
    ensures
        n.summary.size == exact_sum_sizes(cs@),
        n.summary.count == exact_sum_counts(cs@),
{
    lemma_sum_sizes_exact(cs@);
    lemma_sum_counts_exact(cs@);
}

impl NodeSummary {
    /// The zero-valued placeholder: no metrics, never updated.
    pub open spec fn is_zero(self) -> bool {
        &&& self.size == 0
        &&& self.count == 0
        &&& self.updated_at is None
        &&& self.suffixes@.len() == 0
    }

    /// Creates the zero-valued placeholder summary.
    pub fn new() -> (r: Self)
        ensures
            r.is_zero(),
    {
        NodeSummary { size: 0, count: 0, updated_at: None, suffixes: Vec::new() }
    }

    /// Folds one file's metric readings into its summary: a reading that
    /// failed contributes zero instead of aborting the pass.
    pub fn from_metrics(size: Result<u64, IOError>, count: Result<u64, IOError>, stamp: u64) -> (r: Self)
        ensures
            r.size == (match size {
                Ok(v) => v,
                Err(_) => 0u64,
            }),
            r.count == (match count {
                Ok(v) => v,
                Err(_) => 0u64,
            }),
            r.updated_at == Some(stamp),
            r.suffixes@.len() == 0,
    {
        NodeSummary {
            size: match size {
                Ok(v) => v,
                Err(_) => 0,
            },
            count: match count {
                Ok(v) => v,
                Err(_) => 0,
            },
            updated_at: Some(stamp),
            suffixes: Vec::new(),
        }
    }

    /// Renders this summary as displayable text, one field per line.
    pub fn describe(&self) -> String {
        let mut out = String::from_str("\n  size: ");
        out.append(self.size.to_string().as_str());
        out.append(",\n  count: ");
        out.append(self.count.to_string().as_str());
        out.append(",\n  updated_at: ");
        match &self.updated_at {
            Some(t) => {
                out.append("Some(");
                out.append(t.to_string().as_str());
                out.append(")");
            },
            None => {
                out.append("None");
            },
        }
        out.append(",\n  suffixes: [");
        let mut i: usize = 0;
        while i < self.suffixes.len()
            decreases self.suffixes@.len() - i,
        {
            if i > 0 {
                out.append(", ");
            }
            out.append("\"");
            out.append(self.suffixes[i].as_str());
            out.append("\"");
            i = i + 1;
        }
        out.append("]");
        out
    }

    /// Computes the summary of `node`, reading leaf metrics from the default
    /// disk source: real sizes, but a line metric that always reports a
    /// failed reading (file text is not read inside this crate), so every
    /// file's `count` is recorded as zero. Use
    /// [`NodeSummary::update_with`] and a text-reading metric source for
    /// real line counts.
    pub fn update(node: &mut TreeNode) -> (r: NodeSummary)
        ensures
            same_shape(*old(node), *final(node)),
            final(node).summary == old(node).summary,
            r.updated_at is Some,
            r.suffixes@.len() == 0,
            old(node).is_dir ==> match final(node).children {
                Some(cs) => {
                    &&& r.size == sum_sizes(cs@)
                    &&& r.count == sum_counts(cs@)
                    &&& forall|i: int| 0 <= i < cs@.len() ==> aggregated(#[trigger] cs@[i])
                },
                None => r.size == 0 && r.count == 0,
            },
            !old(node).is_dir ==> *final(node) == *old(node),
    {
        Self::update_with(node, &DiskMetrics)
    }

    /// Computes the summary of `node`, reading leaf metrics from `metrics`,
    /// and returns it without writing it into `node` itself. Every strict
    /// descendant's summary is recomputed and written in place as a side
    /// effect, so after the call the whole subtree below `node` satisfies
    /// the aggregation invariant; the caller assigns the returned summary to
    /// complete the node itself.
    pub fn update_with<M: FileMetrics>(node: &mut TreeNode, metrics: &M) -> (r: NodeSummary)
        ensures
            same_shape(*old(node), *final(node)),
            final(node).summary == old(node).summary,
            r.updated_at is Some,
            r.suffixes@.len() == 0,
            old(node).is_dir ==> match final(node).children {
                Some(cs) => {
                    &&& r.size == sum_sizes(cs@)
                    &&& r.count == sum_counts(cs@)
                    &&& forall|i: int| 0 <= i < cs@.len() ==> aggregated(#[trigger] cs@[i])
                },
                None => r.size == 0 && r.count == 0,
            },
            !old(node).is_dir ==> *final(node) == *old(node),
    {
        let mut owned = TreeNode {
            path: String::new(),
            is_dir: false,
            children: None,
            summary: NodeSummary::new(),
        };
        core::mem::swap(node, &mut owned);
        let (done, r) = Self::update_node(owned, metrics);
        *node = done;
        r
    }

    /// The recursive worker behind [`NodeSummary::update_with`], passing the
    /// node by value so the recursion follows the tree structure.
    fn update_node<M: FileMetrics>(node: TreeNode, metrics: &M) -> (res: (TreeNode, NodeSummary))
        ensures
            same_shape(node, res.0),
            res.0.summary == node.summary,
            res.1.updated_at is Some,
            res.1.suffixes@.len() == 0,
            node.is_dir ==> match res.0.children {
                Some(cs) => {
                    &&& res.1.size == sum_sizes(cs@)
                    &&& res.1.count == sum_counts(cs@)
                    &&& forall|i: int| 0 <= i < cs@.len() ==> aggregated(#[trigger] cs@[i])
                },
                None => res.1.size == 0 && res.1.count == 0,
            },
            !node.is_dir ==> res.0 == node,
        decreases node,
    {
        let now = now_millis();
        if !node.is_dir {
            let size_r = metrics.size(node.path.as_str());
            let count_r = metrics.line_count(node.path.as_str());
            let r = NodeSummary::from_metrics(size_r, count_r, now);
            proof {
                lemma_same_shape_refl(node);
            }
            return (node, r);
        }
        let TreeNode { path, is_dir, children, summary } = node;
        match children {
            None => {
                let n = TreeNode { path, is_dir, children: None, summary };
                let mut r = NodeSummary::new();
                r.updated_at = Some(now);
                (n, r)
            },
            Some(rest) => {
                let mut rest = rest;
                let ghost cvec: Vec<TreeNode> = rest;
                let ghost orig: Seq<TreeNode> = rest@;
                let mut done: Vec<TreeNode> = Vec::new();
                let mut size: u64 = 0;
                let mut count: u64 = 0;
                while rest.len() > 0
                    invariant
                        node.children == Some(cvec),
                        cvec@ == orig,
                        done@.len() + rest@.len() == orig.len(),
                        rest@ =~= orig.skip(done@.len() as int),
                        forall|i: int| 0 <= i < done@.len() ==> same_shape(orig[i], #[trigger] done@[i]),
                        forall|i: int| 0 <= i < done@.len() ==> aggregated(#[trigger] done@[i]),
                        size == sum_sizes(done@),
                        count == sum_counts(done@),
                    decreases rest@.len(),
                {
                    let ghost k: int = done@.len() as int;
                    let child = rest.remove(0);
                    proof {
                        assert(child == orig[k]);
                        assert(decreases_to!(node => node.children));
                        assert(decreases_to!(node.children => node.children->0));
                        assert(decreases_to!(node.children->0 => node.children->0@[k]));
                        assert(decreases_to!(node => child));
                    }
                    let (mut new_child, child_sum) = Self::update_node(child, metrics);
                    new_child.summary = child_sum;
                    let s = new_child.summary.size;
                    let c = new_child.summary.count;
                    size = if size <= u64::MAX - s { size + s } else { u64::MAX };
                    count = if count <= u64::MAX - c { count + c } else { u64::MAX };
                    let ghost prev: Seq<TreeNode> = done@;
                    done.push(new_child);
                    proof {
                        assert(done@.drop_last() =~= prev);
                        assert(done@.last() == new_child);
                    }
                }
                let n = TreeNode { path, is_dir, children: Some(done), summary };
                let mut r = NodeSummary::new();
                r.size = size;
                r.count = count;
                r.updated_at = Some(now);
                (n, r)
            },
        }
    }
}

} // verus!
