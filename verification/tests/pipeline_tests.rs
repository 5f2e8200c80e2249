use fast_rm::config::RemoveConfig;
use fast_rm::config::Verbosity;
use fast_rm::pipeline::default_queue_capacity;
use fast_rm::pipeline::run_pipeline;
use fast_rm::scanner::FsNode;

fn plain_config() -> RemoveConfig {
    RemoveConfig::new(Verbosity::Simple, false, false)
}

fn dry_config() -> RemoveConfig {
    RemoveConfig::new(Verbosity::Simple, true, false)
}

/// 5 files and, above depth zero, 5 subdirectories of the same shape.
fn nested(prefix: &str, depth: u32) -> FsNode {
    let mut children = Vec::new();
    for i in 0..5 {
        children.push(FsNode::File(format!("{}/f{}", prefix, i)));
    }
    if depth > 0 {
        for i in 0..5 {
            children.push(nested(&format!("{}/s{}", prefix, i), depth - 1));
        }
    }
    FsNode::Dir(prefix.to_string(), children)
}

fn count_files(node: &FsNode) -> u64 {
    match node {
        FsNode::File(_) => 1,
        FsNode::Dir(_, children) => children.iter().map(count_files).sum(),
        _ => 0,
    }
}

#[test]
fn flat_thousand_files_all_removed() {
    let mut children = Vec::new();
    for i in 0..1000 {
        children.push(FsNode::File(format!("/work/d/file_{:06}", i)));
    }
    let roots = vec![FsNode::Dir("/work/d".to_string(), children)];
    let summary = run_pipeline(&roots, &plain_config(), default_queue_capacity(4));
    assert_eq!(summary.deleted, 1001);
    assert_eq!(summary.errors, 0);
    assert_eq!(summary.scanned, 1001);
    assert_eq!(summary.exit_code, 0);
}

#[test]
fn nested_depth_three_breadth_five_all_removed() {
    let root = nested("/work/d", 3);
    assert_eq!(count_files(&root), 780);
    let roots = vec![root];
    let summary = run_pipeline(&roots, &plain_config(), default_queue_capacity(4));
    // 780 files in 156 directories.
    assert_eq!(summary.deleted, 936);
    assert_eq!(summary.errors, 0);
    assert_eq!(summary.exit_code, 0);
}

#[test]
fn deep_chain_depth_fifty_all_removed() {
    let mut path = "/work/d".to_string();
    let mut names = vec![path.clone()];
    for level in 1..50 {
        path = format!("{}/level_{}", path, level);
        names.push(path.clone());
    }
    let mut node: Option<FsNode> = None;
    for name in names.iter().rev() {
        let mut children = Vec::new();
        for i in 0..3 {
            children.push(FsNode::File(format!("{}/f{}", name, i)));
        }
        if let Some(inner) = node.take() {
            children.push(inner);
        }
        node = Some(FsNode::Dir(name.clone(), children));
    }
    let roots = vec![node.unwrap()];
    let summary = run_pipeline(&roots, &plain_config(), default_queue_capacity(4));
    // 50 directories of 3 files each.
    assert_eq!(summary.deleted, 200);
    assert_eq!(summary.errors, 0);
    assert_eq!(summary.exit_code, 0);
}

#[test]
fn symlink_is_removed_without_following_its_target() {
    let link = FsNode::Symlink("/work/b/link".to_string());
    let roots = vec![FsNode::Dir("/work/b".to_string(), vec![link])];
    let summary = run_pipeline(&roots, &plain_config(), default_queue_capacity(2));
    // The link and the directory holding it; the link's target is no part
    // of the run.
    assert_eq!(summary.deleted, 2);
    assert_eq!(summary.errors, 0);
    assert_eq!(summary.exit_code, 0);
}

#[test]
fn dry_run_acknowledges_every_scanned_object() {
    let root = nested("/work/d", 2);
    let roots = vec![root];
    let wet = run_pipeline(&roots, &plain_config(), default_queue_capacity(4));
    let dry = run_pipeline(&roots, &dry_config(), default_queue_capacity(4));
    // The tree value is still here to scan again: a dry run touched nothing,
    // and its counters match a real run's.
    assert_eq!(dry.scanned, wet.scanned);
    assert_eq!(dry.deleted, wet.deleted);
    assert_eq!(dry.errors, 0);
    assert_eq!(dry.exit_code, 0);
    assert_eq!(dry.scanned, 186);
}

#[test]
fn scanner_errors_surface_in_the_summary() {
    let children = vec![
        FsNode::File("/d/ok".to_string()),
        FsNode::Other("/d/socket".to_string()),
    ];
    let roots = vec![FsNode::Dir("/d".to_string(), children)];
    let config = RemoveConfig::new(Verbosity::Simple, false, true);
    let summary = run_pipeline(&roots, &config, 64);
    assert_eq!(summary.scanned, 3);
    assert_eq!(summary.deleted, 2);
    assert_eq!(summary.errors, 1);
    assert_eq!(summary.deleted + summary.errors, summary.scanned);
    assert_eq!(summary.exit_code, 1);
}

#[test]
fn several_roots_all_run_even_when_one_fails() {
    let bad = FsNode::Unreadable("/r/bad".to_string(), "denied".to_string());
    let good = FsNode::Dir(
        "/r/good".to_string(),
        vec![FsNode::File("/r/good/f".to_string())],
    );
    let roots = vec![bad, good];
    let summary = run_pipeline(&roots, &plain_config(), 64);
    assert_eq!(summary.scanned, 3);
    assert_eq!(summary.deleted, 2);
    assert_eq!(summary.errors, 1);
    assert_eq!(summary.exit_code, 1);
}

#[test]
fn queue_capacity_heuristic_scales_with_scanners() {
    assert_eq!(default_queue_capacity(1), 10_000);
    assert_eq!(default_queue_capacity(10), 10_000);
    assert_eq!(default_queue_capacity(11), 11_000);
    assert_eq!(default_queue_capacity(64), 64_000);
}
