//! Read-only rendering of a session and its tree: a depth-first, pre-order
//! walk emitting one line per node, indented two spaces per depth level and
//! labeled `[DIR]` or `[FILE]`.

use vstd::prelude::*;
use vstd::string::StringExecFns;
use crate::tree::node::TreeNode;
use crate::tree::root::ProjectTree;

verus! {

/// Two spaces per depth level.
pub open spec fn indent_spec(depth: nat) -> Seq<char>
    decreases depth,
{
    if depth == 0 {
        Seq::empty()
    } else {
        indent_spec((depth - 1) as nat) + "  "@
    }
}

/// The one line rendered for a node itself.
pub open spec fn line_spec(n: TreeNode, depth: nat) -> Seq<char> {
    indent_spec(depth) + "- "@ + n.path@ + if n.is_dir {
        " [DIR]\n"@
    } else {
        " [FILE]\n"@
    }
}

/// The depth of a node's children: one deeper, saturating at the platform's
/// index limit (which no real tree can reach).
pub open spec fn deeper(depth: nat) -> nat {
    if depth < usize::MAX {
        (depth + 1) as nat
    } else {
        depth
    }
}

/// The pre-order rendering of a whole subtree: the node's own line, then
/// each child's rendering in order, one level deeper.
pub open spec fn render_spec(n: TreeNode, depth: nat) -> Seq<char>
    decreases n,
{
    line_spec(n, depth) + match n.children {
        Some(cs) => render_children_spec(cs@, deeper(depth)),
        None => Seq::empty(),
    }
}

/// The concatenated renderings of a child sequence, in order.
pub open spec fn render_children_spec(cs: Seq<TreeNode>, depth: nat) -> Seq<char>
    decreases cs,
{
    if cs.len() == 0 {
        Seq::empty()
    } else {
        render_children_spec(cs.drop_last(), depth) + render_spec(cs.last(), depth)
    }
}

/// Renders the indentation for `depth`.
fn render_indent(depth: usize) -> (r: String)
    ensures
        r@ == indent_spec(depth as nat),
{
    let mut out = String::new();
    let mut i: usize = 0;
    while i < depth
        invariant
            i <= depth,
            out@ == indent_spec(i as nat),
        decreases depth - i,
    {
        out.append("  ");
        i = i + 1;
    }
    out
}

/// The session's header block, as rendered for a given validity reading.
pub open spec fn show_spec(t: ProjectTree, valid: bool) -> Seq<char> {
    "Project Tree:\nID: "@ + t.id@ + "\nValid: "@ + (if valid {
        "true"@
    } else {
        "false"@
    }) + "\nName: "@ + t.name@ + "\nPath: "@ + t.path@ + "\n"@
}

/// Rendering a session and its tree as displayable text.
pub trait ProjectTreeVisible {
    /// The session's header block: id, current validity, name and root path.
    fn show(&self) -> String;

    /// The rendered tree, or a placeholder while no tree is built.
    fn print_tree(&self) -> (r: String);

    /// The rendering of one subtree, indented as for `depth`.
    fn print_node(node: &TreeNode, depth: usize) -> (r: String)
        ensures
            r@ == render_spec(*node, depth as nat),
    ;
}

impl ProjectTreeVisible for ProjectTree {
    fn show(&self) -> (r: String)
        ensures
            exists|valid: bool| r@ == show_spec(*self, valid),
    {
        let mut out = String::from_str("Project Tree:\nID: ");
        out.append(self.id.as_str());
        out.append("\nValid: ");
        let valid = self.is_valid();
        out.append(if valid { "true" } else { "false" });
        out.append("\nName: ");
        out.append(self.name.as_str());
        out.append("\nPath: ");
        out.append(self.path.as_str());
        out.append("\n");
        proof {
            assert(out@ =~= show_spec(*self, valid));
        }
        out
    }

    fn print_tree(&self) -> (r: String)
        ensures
            self.root matches Some(rt) ==> r@ == render_spec(rt, 0),
            self.root is None ==> r@ == "Tree is empty\n"@,
    {
        match &self.root {
            Some(rt) => Self::print_node(rt, 0),
            None => String::from_str("Tree is empty\n"),
        }
    }

    fn print_node(node: &TreeNode, depth: usize) -> (r: String)
        decreases *node,
    {
        let mut out = render_indent(depth);
        out.append("- ");
        out.append(node.path.as_str());
        if node.is_dir {
            out.append(" [DIR]\n");
        } else {
            out.append(" [FILE]\n");
        }
        proof {
            assert(out@ =~= line_spec(*node, depth as nat));
        }
        match &node.children {
            None => {
                proof {
                    assert(out@ =~= render_spec(*node, depth as nat));
                }
                out
            },
            Some(cs) => {
                let ghost head: Seq<char> = out@;
                let next_depth = if depth < usize::MAX { depth + 1 } else { depth };
                let mut i: usize = 0;
                while i < cs.len()
                    invariant
                        i <= cs@.len(),
                        node.children == Some(*cs),
                        head == line_spec(*node, depth as nat),
                        next_depth as nat == deeper(depth as nat),
                        out@ == head + render_children_spec(cs@.take(i as int), next_depth as nat),
                    decreases cs@.len() - i,
                {
                    proof {
                        assert(decreases_to!(*node => node.children));
                        assert(decreases_to!(node.children => node.children->0));
                        assert(decreases_to!(node.children->0 => node.children->0@[i as int]));
                        assert(decreases_to!(*node => cs@[i as int]));
                    }
                    let piece = Self::print_node(&cs[i], next_depth);
                    out.append(piece.as_str());
                    proof {
                        assert(cs@.take(i + 1).drop_last() =~= cs@.take(i as int));
                        assert(cs@.take(i + 1).last() == cs@[i as int]);
                        assert(out@ =~= head + render_children_spec(
                            cs@.take(i + 1),
                            next_depth as nat,
                        ));
                    }
                    i = i + 1;
                }
                proof {
                    assert(cs@.take(cs@.len() as int) =~= cs@);
                    assert(out@ =~= render_spec(*node, depth as nat));
                }
                out
            },
        }
    }
}

} // verus!
