use arui_core::{ProjectTree, ProjectTreeVisible, TreeNode};

#[test]
fn test_show_project() {
    let name = "test".to_string();
    let path = ".".to_string();
    let tree = ProjectTree::new(name, path, None);
    println!("{:}", tree.show());
}

#[test]
fn test_show_project_tree() {
    let name = "test".to_string();
    let path = "./src".to_string();
    let mut tree = ProjectTree::new(name, path, None);
    tree.build().expect("panic");
    println!("{}", tree.print_tree());
}

#[test]
fn test_print_node_format() {
    let mut root = TreeNode::new("top", true);
    let mut sub = TreeNode::new("top/inner", true);
    sub.children = Some(vec![TreeNode::new("top/inner/file.txt", false)]);
    root.children = Some(vec![sub]);
    let text = <ProjectTree as ProjectTreeVisible>::print_node(&root, 0);
    assert_eq!(
        text,
        "- top [DIR]\n  - top/inner [DIR]\n    - top/inner/file.txt [FILE]\n"
    );
}

#[test]
fn test_show_format() {
    let tree = ProjectTree::new("test", ".", None);
    let expected = format!(
        "Project Tree:\nID: {}\nValid: true\nName: test\nPath: .\n",
        tree.id
    );
    assert_eq!(tree.show(), expected);
}

#[test]
fn test_print_tree_empty() {
    let tree = ProjectTree::new("test", ".", None);
    assert_eq!(tree.print_tree(), "Tree is empty\n");
}
