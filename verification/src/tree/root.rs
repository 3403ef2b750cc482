//! The analysis session: owns an optional built tree and exposes the two
//! explicit phases, `build` (discover the tree's shape) and `summarize`
//! (compute every node's metrics).

use vstd::prelude::*;
use crate::errors::IOError;
use crate::tree::config::ProjectConfig;
use crate::tree::metrics::{DiskMetrics, FileMetrics};
use crate::tree::node::{
    entry_of_dir, lemma_nested_unique, lemma_same_shape_nested, lemma_same_shape_wf, paths_nested,
    same_shape, shape_wf, unique_paths, zero_summaries, TreeNode,
};
use crate::tree::summary::aggregated;
use crate::utils::{check_path, generate_id, into_string};

verus! {

/// How deep a traversal may descend before it gives up; a guard against
/// unbounded recursion through cyclic symlinks, far beyond any real
/// directory nesting.
pub const MAX_DEPTH: u64 = 4096;

/// One analysis session over one root path.
#[derive(Debug)]
pub struct ProjectTree {
    /// A unique identifier for this session, fixed at construction.
    pub id: String,
    /// A user-supplied label; no uniqueness is asked of it.
    pub name: String,
    /// The root path to analyze, relative or absolute.
    pub path: String,
    /// The built tree: absent until `build` succeeds, replaced wholesale by
    /// each later successful `build`.
    pub root: Option<TreeNode>,
    /// Optional configuration; carried, not yet consulted by the passes.
    pub config: Option<ProjectConfig>,
}

impl ProjectTree {
    /// Opens a session in the unbuilt state, with a freshly generated id.
    pub fn new<S: Into<String>, I: Into<String>>(
        name: S,
        path: I,
        config: Option<ProjectConfig>,
    ) -> (r: Self)
        ensures
            r.id@.len() == 36,
            r.root is None,
            r.config == config,
    {
        ProjectTree {
            id: generate_id(),
            name: into_string(name),
            path: into_string(path),
            root: None,
            config,
        }
    }

    /// Whether the session's root path exists on disk at the moment of the
    /// call.
    pub fn is_valid(&self) -> bool {
        check_path(self.path.as_str()).is_ok()
    }

    /// Opens a session and runs both phases at once; any failure of either
    /// phase fails the whole call.
    pub fn plant<S: Into<String>, I: Into<String>>(
        name: S,
        path: I,
        config: Option<ProjectConfig>,
    ) -> (r: Result<Self, IOError>)
        ensures
            r matches Ok(t) ==> {
                &&& t.id@.len() == 36
                &&& t.config == config
                &&& t.root matches Some(rt) && shape_wf(rt) && paths_nested(rt)
                    && unique_paths(rt) && aggregated(rt) && rt.path@ == t.path@
            },
            r matches Err(e) ==> !(e is NotBuilt),
    {
        let mut tree = ProjectTree::new(name, path, config);
        match tree.build() {
            Ok(_) => {},
            Err(e) => {
                return Err(e);
            },
        }
        let ghost mid = tree;
        match tree.summarize() {
            Ok(_) => {},
            Err(e) => {
                return Err(e);
            },
        }
        proof {
            lemma_same_shape_wf(mid.root->0, tree.root->0);
            lemma_same_shape_nested(mid.root->0, tree.root->0);
            lemma_nested_unique(tree.root->0);
        }
        Ok(tree)
    }

    /// Discovers the tree below the session's root path: validates the path,
    /// then walks it, recording every entry in listing order with a
    /// zero-valued summary. A nonexistent root is rejected as `InvalidPath`
    /// and leaves any previously built tree untouched; a failure while
    /// walking aborts the whole build and leaves the session unbuilt, since
    /// a partially discovered tree has no defined shape.
    pub fn build(&mut self) -> (r: Result<(), IOError>)
        ensures
            final(self).id == old(self).id,
            final(self).name == old(self).name,
            final(self).path == old(self).path,
            final(self).config == old(self).config,
            r matches Ok(v) ==> (final(self).root matches Some(rt) && shape_wf(rt)
                && zero_summaries(rt) && paths_nested(rt) && unique_paths(rt)
                && rt.path@ == old(self).path@),
            r matches Err(e) ==> match e {
                IOError::InvalidPath(p) => p@ == old(self).path@
                    && final(self).root == old(self).root,
                IOError::IO(_) => final(self).root is None,
                IOError::NotBuilt => false,
            },
    {
        if !self.is_valid() {
            return Err(IOError::InvalidPath(self.path.clone()));
        }
        match Self::build_tree_node(self.path.as_str(), MAX_DEPTH) {
            Ok(node) => {
                proof {
                    lemma_nested_unique(node);
                }
                self.root = Some(node);
                Ok(())
            },
            Err(e) => {
                self.root = None;
                Err(e)
            },
        }
    }

    /// Relies on std::path::Path::metadata and the metadata's `is_dir`:
    /// whether the entry at `path` is a directory, or the reported failure
    /// as a description.
    #[verifier::external_body]
    fn entry_is_dir(path: &str) -> (r: Result<bool, IOError>)
        ensures
            r matches Err(e) ==> e is IO,
    {
        match std::path::Path::new(path).metadata() {
            Ok(m) => Ok(m.is_dir()),
            Err(e) => Err(IOError::IO(e.to_string())),
        }
    }

    /// Relies on std::path::Path::read_dir, DirEntry::path and the fallible
    /// OsString::into_string: the paths of the directory's direct entries,
    /// in the order the filesystem reports them (no order is promised), or
    /// the first reported failure as a description; an entry whose name is
    /// not valid UTF-8 is reported as a failure rather than renamed. Each
    /// returned path is the listed path, a `/` separator unless one is
    /// already trailing, then the entry's name, which is nonempty and free
    /// of separators; a directory holds each name once, so the paths are
    /// pairwise distinct.
    #[verifier::external_body]
    fn list_dir(path: &str) -> (r: Result<Vec<String>, IOError>)
        ensures
            r matches Err(e) ==> e is IO,
            r matches Ok(es) ==> {
                &&& forall|i: int| 0 <= i < es@.len()
                    ==> entry_of_dir(path@, (#[trigger] es@[i])@)
                &&& forall|i: int, j: int| 0 <= i < j < es@.len()
                    ==> (#[trigger] es@[i])@ != (#[trigger] es@[j])@
            },
    {
        let mut out: Vec<String> = Vec::new();
        let dir = std::path::Path::new(path).read_dir();
        let iter = match dir { Ok(it) => it, Err(e) => return Err(IOError::IO(e.to_string())) };
        for entry in iter {
            let en = match entry { Ok(en) => en, Err(e) => return Err(IOError::IO(e.to_string())) };
            match en.path().into_os_string().into_string() {
                Ok(s) => out.push(s),
                Err(_) => return Err(IOError::IO("a directory entry name is not valid UTF-8".to_owned())),
            }
        }
        Ok(out)
    }

    /// Recursively discovers the node at `path`: classifies the entry, and
    /// for a directory builds one child per listed entry, in listing order.
    /// `depth` bounds the remaining recursion.
    fn build_tree_node(path: &str, depth: u64) -> (r: Result<TreeNode, IOError>)
        ensures
            r matches Ok(node) ==> shape_wf(node) && zero_summaries(node)
                && paths_nested(node) && node.path@ == path@,
            r matches Err(e) ==> e is IO,
        decreases depth, 0int,
    {
        if depth == 0 {
            return Err(IOError::IO("directory depth limit reached".to_owned()));
        }
        let is_dir = match Self::entry_is_dir(path) {
            Ok(b) => b,
            Err(e) => {
                return Err(e);
            },
        };
        if !is_dir {
            return Ok(
                TreeNode {
                    path: path.to_owned(),
                    is_dir: false,
                    children: None,
                    summary: crate::tree::summary::NodeSummary::new(),
                },
            );
        }
        let entries = match Self::list_dir(path) {
            Ok(v) => v,
            Err(e) => {
                return Err(e);
            },
        };
        let children = match Self::build_children(entries, depth - 1) {
            Ok(cs) => cs,
            Err(e) => {
                return Err(e);
            },
        };
        Ok(
            TreeNode {
                path: path.to_owned(),
                is_dir: true,
                children: Some(children),
                summary: crate::tree::summary::NodeSummary::new(),
            },
        )
    }

    /// Builds one node per listed entry, in listing order: the result
    /// mirrors the listing, entry by entry.
    fn build_children(entries: Vec<String>, depth: u64) -> (r: Result<Vec<TreeNode>, IOError>)
        ensures
            r matches Ok(cs) ==> cs@.len() == entries@.len() && forall|i: int|
                0 <= i < cs@.len() ==> (#[trigger] cs@[i]).path@ == entries@[i]@
                    && shape_wf(cs@[i]) && zero_summaries(cs@[i]) && paths_nested(cs@[i]),
            r matches Err(e) ==> e is IO,
        decreases depth, 1int,
    {
        let mut rest = entries;
        let ghost orig: Seq<String> = rest@;
        let mut children: Vec<TreeNode> = Vec::new();
        while rest.len() > 0
            invariant
                children@.len() + rest@.len() == orig.len(),
                rest@ =~= orig.skip(children@.len() as int),
                forall|i: int| 0 <= i < children@.len()
                    ==> (#[trigger] children@[i]).path@ == orig[i]@
                        && shape_wf(children@[i]) && zero_summaries(children@[i])
                        && paths_nested(children@[i]),
            decreases rest@.len(),
        {
            let ghost k: int = children@.len() as int;
            let entry = rest.remove(0);
            proof {
                assert(entry == orig[k]);
            }
            match Self::build_tree_node(entry.as_str(), depth) {
                Ok(child) => children.push(child),
                Err(e) => {
                    return Err(e);
                },
            }
        }
        proof {
            assert(children@.len() == orig.len());
        }
        Ok(children)
    }

    /// Computes every node's summary, reading leaf metrics from the default
    /// disk source: sizes come from filesystem metadata, but the line metric
    /// is unavailable to that source (file text is not read inside this
    /// crate), so every file's `count` is recorded as zero. Use
    /// [`ProjectTree::summarize_with`] and a metric source that reads file
    /// text for real line counts. See `summarize_with` for the contract.
    pub fn summarize(&mut self) -> (r: Result<(), IOError>)
        ensures
            final(self).id == old(self).id,
            final(self).name == old(self).name,
            final(self).path == old(self).path,
            final(self).config == old(self).config,
            old(self).root is None <==> r == Err::<(), IOError>(IOError::NotBuilt),
            r matches Err(e) ==> *final(self) == *old(self) && (e is NotBuilt
                || (e matches IOError::InvalidPath(p) && p@ == old(self).path@)),
            r matches Ok(v) ==> (old(self).root matches Some(before)
                && final(self).root matches Some(after)
                && same_shape(before, after) && aggregated(after)),
    {
        self.summarize_with(&DiskMetrics)
    }

    /// Computes every node's summary, reading leaf metrics from `metrics`.
    /// Fails with `NotBuilt` exactly when no tree has been built, and with
    /// `InvalidPath` when the root path no longer exists; otherwise the pass
    /// always succeeds, leaves the tree's shape untouched and establishes
    /// the aggregation invariant over the whole tree.
    pub fn summarize_with<M: FileMetrics>(&mut self, metrics: &M) -> (r: Result<(), IOError>)
        ensures
            final(self).id == old(self).id,
            final(self).name == old(self).name,
            final(self).path == old(self).path,
            final(self).config == old(self).config,
            old(self).root is None <==> r == Err::<(), IOError>(IOError::NotBuilt),
            r matches Err(e) ==> *final(self) == *old(self) && (e is NotBuilt
                || (e matches IOError::InvalidPath(p) && p@ == old(self).path@)),
            r matches Ok(v) ==> (old(self).root matches Some(before)
                && final(self).root matches Some(after)
                && same_shape(before, after) && aggregated(after)),
    {
        let mut rt = match self.root.take() {
            None => {
                return Err(IOError::NotBuilt);
            },
            Some(rt) => rt,
        };
        if !self.is_valid() {
            self.root = Some(rt);
            return Err(IOError::InvalidPath(self.path.clone()));
        }
        rt.upsert_summary_with(metrics);
        self.root = Some(rt);
        Ok(())
    }
}

} // verus!
