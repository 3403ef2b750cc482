use arui_core::{ProjectTree, ProjectTreeVisible, TreeNode};

fn collect_paths(node: &TreeNode, out: &mut Vec<String>) {
    out.push(node.path.clone());
    if let Some(children) = &node.children {
        for child in children {
            collect_paths(child, out);
        }
    }
}

#[test]
fn test_built_paths_unique() {
    let mut tree = ProjectTree::new("test", "./src", None);
    tree.build().expect("build failed");
    let mut paths = Vec::new();
    collect_paths(tree.root.as_ref().unwrap(), &mut paths);
    assert!(paths.len() > 1);
    for (i, p) in paths.iter().enumerate() {
        for q in &paths[i + 1..] {
            assert_ne!(p, q);
        }
    }
}

#[test]
fn test_build_projet_tree() {
    let name = "test";
    let path = "./tests";
    let mut tree = ProjectTree::new(name, path, None);
    assert_eq!(tree.name, "test".to_string());
    assert_eq!(tree.path, path.to_string());

    tree.build().expect("build failed");
    tree.summarize().expect("summarize failed");

    println!("-----------------");
    println!("{}", tree.show());
    println!("-----------------");
    println!("{}", tree.print_tree());
    println!("-----------------");
}

#[test]
fn test_build_mirrors_listing() {
    let mut tree = ProjectTree::new("test", "./src", None);
    tree.build().expect("build failed");
    let root = tree.root.as_ref().unwrap();
    assert!(root.is_dir);
    let children = root.children.as_ref().unwrap();
    assert!(!children.is_empty());
    for (i, child) in children.iter().enumerate() {
        assert!(child.path.starts_with("./src"));
        assert!(child.path.len() > "./src".len());
        for other in &children[i + 1..] {
            assert_ne!(child.path, other.path);
        }
    }
}

#[test]
fn test_plant_project_tree() {
    let name = "test";
    let path = "./tests";
    let tree = ProjectTree::plant(name, path, None).expect("plant failed");
    println!("{}", tree.show());
    println!("-----------------");
    println!("{}", tree.print_tree());
}
