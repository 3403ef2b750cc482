use arui_core::errors::IOError;
use arui_core::tree::metrics::FileMetrics;
use arui_core::tree::node::count::count_lines;
use arui_core::tree::node::file::get_file_size;
use arui_core::{NodeSummary, TreeNode};

/// A scripted metric source: fixed readings per file name.
struct ScriptedMetrics;

impl FileMetrics for ScriptedMetrics {
    fn size(&self, path: &str) -> Result<u64, IOError> {
        match path {
            "single.txt" => Ok(120),
            "a.txt" => Ok(10),
            "b.txt" => Ok(20),
            "gone.txt" => Err(IOError::IO("permission denied".to_string())),
            _ => Err(IOError::IO("unknown file".to_string())),
        }
    }

    fn line_count(&self, path: &str) -> Result<u64, IOError> {
        match path {
            "single.txt" => Ok(5),
            "a.txt" => Ok(1),
            "b.txt" => Ok(2),
            "gone.txt" => Err(IOError::IO("permission denied".to_string())),
            _ => Err(IOError::IO("unknown file".to_string())),
        }
    }
}

#[test]
fn scenario_single_file() {
    let mut node = TreeNode::new("single.txt", false);
    node.upsert_summary_with(&ScriptedMetrics);
    assert_eq!(node.summary.size, 120);
    assert_eq!(node.summary.count, 5);
    assert!(node.summary.updated_at.is_some());
    assert_eq!(node.summary.suffixes.len(), 0);
}

#[test]
fn scenario_directory_of_two_files() {
    let mut dir = TreeNode::new("top", true);
    dir.children = Some(vec![
        TreeNode::new("a.txt", false),
        TreeNode::new("b.txt", false),
    ]);
    dir.upsert_summary_with(&ScriptedMetrics);
    assert_eq!(dir.summary.size, 30);
    assert_eq!(dir.summary.count, 3);
    let children = dir.children.as_ref().unwrap();
    assert_eq!(children[0].summary.size, 10);
    assert_eq!(children[0].summary.count, 1);
    assert_eq!(children[1].summary.size, 20);
    assert_eq!(children[1].summary.count, 2);
}

#[test]
fn scenario_empty_directory() {
    let mut dir = TreeNode::new("top", true);
    dir.upsert_summary_with(&ScriptedMetrics);
    assert_eq!(dir.summary.size, 0);
    assert_eq!(dir.summary.count, 0);
    let children = dir.children.as_ref().unwrap();
    assert_eq!(children.len(), 0);
}

#[test]
fn scenario_unreadable_file_counts_zero() {
    let mut dir = TreeNode::new("top", true);
    dir.children = Some(vec![
        TreeNode::new("a.txt", false),
        TreeNode::new("gone.txt", false),
    ]);
    dir.upsert_summary_with(&ScriptedMetrics);
    let children = dir.children.as_ref().unwrap();
    assert_eq!(children[1].summary.size, 0);
    assert_eq!(children[1].summary.count, 0);
    assert_eq!(dir.summary.size, 10);
    assert_eq!(dir.summary.count, 1);
}

#[test]
fn summarize_twice_same_totals() {
    let mut dir = TreeNode::new("top", true);
    dir.children = Some(vec![
        TreeNode::new("a.txt", false),
        TreeNode::new("b.txt", false),
    ]);
    dir.upsert_summary_with(&ScriptedMetrics);
    let first_size = dir.summary.size;
    let first_count = dir.summary.count;
    dir.upsert_summary_with(&ScriptedMetrics);
    assert_eq!(dir.summary.size, first_size);
    assert_eq!(dir.summary.count, first_count);
}

#[test]
fn from_metrics_readings_and_fallbacks() {
    let s = NodeSummary::from_metrics(Ok(7), Ok(3), 99);
    assert_eq!(s.size, 7);
    assert_eq!(s.count, 3);
    assert_eq!(s.updated_at, Some(99));
    let s = NodeSummary::from_metrics(
        Err(IOError::IO("x".to_string())),
        Err(IOError::IO("y".to_string())),
        99,
    );
    assert_eq!(s.size, 0);
    assert_eq!(s.count, 0);
}

#[test]
fn count_lines_exact_values() {
    assert_eq!(count_lines(b""), 0);
    assert_eq!(count_lines(b"abc"), 1);
    assert_eq!(count_lines(b"abc\n"), 1);
    assert_eq!(count_lines(b"a\n\nb"), 3);
    assert_eq!(count_lines(b"one\ntwo\nthree\n"), 3);
    assert_eq!(count_lines(b"1\n2\n3\n4\n5\n6\n7\n8\n9\n10\n11"), 11);
}

#[test]
fn get_file_size_reports_missing_file() {
    let r = get_file_size("/not_exist");
    assert!(matches!(r, Err(IOError::IO(_))));
}

#[test]
fn get_file_size_reads_real_metadata() {
    let r = get_file_size("./src/lib.rs").expect("metadata failed");
    assert!(r > 0);
}
