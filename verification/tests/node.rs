use arui_core::TreeNode;

#[test]
fn node_test_display() {
    let node = TreeNode::new("./tests/examples/tree/summary".to_string(), true);
    println!("{}", node.describe());
}

#[test]
fn node_test_new() {
    let node = TreeNode::new("./tests/examples/tree/summary".to_string(), true);
    assert_eq!(node.path, "./tests/examples/tree/summary");
    assert_eq!(node.is_dir, true);
    assert!(node.children.is_some());
    assert_eq!(node.summary.size, 0);
    assert_eq!(node.summary.count, 0);
}

#[test]
fn test_summary_update() {
    let mut node = TreeNode::new("./tests/examples/tree/summary", true);
    node.upsert_summary();
    println!("{}", node.describe());
}
