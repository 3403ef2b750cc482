use arui_core::{NodeSummary, TreeNode};

#[test]
fn summary_test_display() {
    let ns = NodeSummary::new();
    println!("{}", ns.describe());
}

#[test]
fn test_create_summary() {
    let ns = NodeSummary::new();
    assert_eq!(ns.size, 0);
    assert_eq!(ns.count, 0);
    assert_eq!(ns.updated_at, None);
    assert_eq!(ns.suffixes.len(), 0);
}

#[test]
fn test_summary_with_file() {
    let mut node = TreeNode::new("./tests/examples/tree/summary/test.txt", false);
    node.upsert_summary();
    println!("{}", node.describe());
}

#[test]
fn test_summary_with_dir() {
    let mut node = TreeNode::new("./tests/examples/tree/summary", true);
    let sub_node_1 = TreeNode::new("./tests/examples/tree/summary/test.txt", false);
    let sub_node_2 = TreeNode::new("./tests/examples/tree/summary/test.rs", false);
    let sub_node_3 = TreeNode::new("./tests/examples/tree/summary/test.js", false);
    node.children = Some(vec![sub_node_1, sub_node_2, sub_node_3]);
    node.upsert_summary();
    if let Some(children) = &node.children {
        for child in children {
            println!("{}", child.summary.describe());
        }
    }
    println!("{}", node.describe());
}
