use arui_core::errors::IOError;
use arui_core::{ProjectTree, ProjectTreeVisible};

#[test]
fn root_test_new() {
    let name = "test";
    let path = ".".to_string();
    let tree = ProjectTree::new(name, path, None);
    assert_eq!(tree.id.len(), 36);
    assert_eq!(tree.name, name.to_string());
    assert_eq!(tree.path, ".".to_string());
}

#[test]
fn test_get_valid() {
    let valid_tree = ProjectTree::new("test".to_string(), "./src".to_string(), None);
    assert_eq!(valid_tree.is_valid(), true);
    let invalid_tree = ProjectTree::new("test".to_string(), "/not_exist".to_string(), None);
    assert_eq!(invalid_tree.is_valid(), false);
}

#[test]
fn test_build_project_tree() {
    let name = "test";
    let path = "./src";
    let mut tree = ProjectTree::new(name, path, None);
    tree.build().expect("panic");
    assert_eq!(tree.root.is_some(), true);
    assert_eq!(tree.name, "test".to_string());
    assert_eq!(tree.path, "./src".to_string());
    println!("{}", tree.print_tree());
}

#[test]
fn test_plant() {
    let name = "test";
    let path = "./src";
    let tree = ProjectTree::plant(name, path, None).expect("project build panic");
    assert_eq!(tree.root.is_some(), true);
    assert_eq!(tree.name, "test".to_string());
    assert_eq!(tree.path, "./src".to_string());
    println!("{}", tree.print_tree());
    println!("{}", tree.root.unwrap().describe());
}

#[test]
fn test_build_invalid_path() {
    let mut tree = ProjectTree::new("test", "/not_exist", None);
    let r = tree.build();
    assert!(matches!(r, Err(IOError::InvalidPath(_))));
    assert!(tree.root.is_none());
}

#[test]
fn test_summarize_before_build() {
    let mut tree = ProjectTree::new("test", "./src", None);
    let r = tree.summarize();
    assert!(matches!(r, Err(IOError::NotBuilt)));
    assert!(tree.root.is_none());
}

#[test]
fn test_failed_rebuild_keeps_root() {
    let mut tree = ProjectTree::new("test", "./src", None);
    tree.build().expect("build failed");
    assert!(tree.root.is_some());
    tree.path = "/not_exist".to_string();
    let r = tree.build();
    assert!(matches!(r, Err(IOError::InvalidPath(_))));
    assert!(tree.root.is_some());
}

#[test]
fn test_plant_invalid_path() {
    let r = ProjectTree::plant("test", "/not_exist", None);
    assert!(matches!(r, Err(IOError::InvalidPath(_))));
}
