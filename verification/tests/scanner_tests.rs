use fast_rm::config::RemoveConfig;
use fast_rm::config::Verbosity;
use fast_rm::progress::RemoveProgress;
use fast_rm::queue::AdaptiveQueue;
use fast_rm::queue::FileJob;
use fast_rm::scanner::scan_path;
use fast_rm::scanner::FsNode;

fn plain_config() -> RemoveConfig {
    RemoveConfig::new(Verbosity::Simple, false, false)
}

fn job_path(job: &FileJob) -> String {
    job.path().clone()
}

fn drain(queue: &mut AdaptiveQueue) -> Vec<FileJob> {
    let mut jobs = Vec::new();
    while let Some(job) = queue.try_recv() {
        jobs.push(job);
    }
    jobs
}

#[test]
fn test_scan_single_file() {
    let mut queue = AdaptiveQueue::new(10);
    let mut progress = RemoveProgress::new();
    let config = plain_config();
    let node = FsNode::File("/work/test.txt".to_string());

    scan_path(&node, &mut queue, &mut progress, &config).unwrap();

    assert_eq!(queue.depth(), 1);
    match queue.recv() {
        FileJob::File(_) => {}
        _ => panic!("Expected File job"),
    }
}

#[test]
fn test_scan_directory_with_files() {
    let mut queue = AdaptiveQueue::new(20);
    let mut progress = RemoveProgress::new();
    let config = plain_config();
    let mut children = Vec::new();
    for i in 1..=3 {
        children.push(FsNode::File(format!("/work/testdir/file{}.txt", i)));
    }
    let node = FsNode::Dir("/work/testdir".to_string(), children);

    scan_path(&node, &mut queue, &mut progress, &config).unwrap();

    assert_eq!(queue.depth(), 4);

    let mut files = 0;
    let mut dirs = 0;
    for job in drain(&mut queue) {
        match job {
            FileJob::File(_) => files += 1,
            FileJob::EmptyDir(_) => dirs += 1,
            _ => {}
        }
    }

    assert_eq!(files, 3);
    assert_eq!(dirs, 1);
}

#[test]
fn test_nested_directories() {
    let mut queue = AdaptiveQueue::new(20);
    let mut progress = RemoveProgress::new();
    let config = plain_config();
    let file = FsNode::File("/work/dir1/dir2/file.txt".to_string());
    let dir2 = FsNode::Dir("/work/dir1/dir2".to_string(), vec![file]);
    let dir1 = FsNode::Dir("/work/dir1".to_string(), vec![dir2]);

    scan_path(&dir1, &mut queue, &mut progress, &config).unwrap();

    assert_eq!(queue.depth(), 3);
}

#[test]
fn test_queue_ordering_preserves_parent_child_relationship() {
    let mut queue = AdaptiveQueue::new(32);
    let mut progress = RemoveProgress::new();
    let config = plain_config();
    let file = FsNode::File("/w/dir1/dir2/dir3/file.txt".to_string());
    let dir3 = FsNode::Dir("/w/dir1/dir2/dir3".to_string(), vec![file]);
    let dir2 = FsNode::Dir("/w/dir1/dir2".to_string(), vec![dir3]);
    let dir1 = FsNode::Dir("/w/dir1".to_string(), vec![dir2]);

    scan_path(&dir1, &mut queue, &mut progress, &config).unwrap();
    let order: Vec<String> = drain(&mut queue).iter().map(job_path).collect();

    let pos = |p: &str| {
        order
            .iter()
            .position(|q| q == p)
            .expect("every object must appear in the dequeue order")
    };
    let file_pos = pos("/w/dir1/dir2/dir3/file.txt");
    let dir3_pos = pos("/w/dir1/dir2/dir3");
    let dir2_pos = pos("/w/dir1/dir2");
    let dir1_pos = pos("/w/dir1");
    assert!(file_pos < dir3_pos, "File should be deleted before its parent dir3");
    assert!(dir3_pos < dir2_pos, "dir3 should be deleted before its parent dir2");
    assert!(dir2_pos < dir1_pos, "dir2 should be deleted before its parent dir1");
}

#[test]
fn scan_counts_every_object_and_every_error() {
    let mut queue = AdaptiveQueue::new(20);
    let mut progress = RemoveProgress::new();
    let config = RemoveConfig::new(Verbosity::Simple, false, true);
    let children = vec![
        FsNode::File("/d/ok.txt".to_string()),
        FsNode::Unreadable("/d/secret".to_string(), "permission denied".to_string()),
        FsNode::Other("/d/socket".to_string()),
    ];
    let node = FsNode::Dir("/d".to_string(), children);

    scan_path(&node, &mut queue, &mut progress, &config).unwrap();

    let (scanned, deleted, errors) = progress.get_stats();
    assert_eq!(scanned, 4);
    assert_eq!(deleted, 0);
    assert_eq!(errors, 2);
    // One job per removable object: the file and the directory itself.
    assert_eq!(queue.depth(), 2);
}

#[test]
fn first_error_aborts_the_directory_without_continue() {
    let mut queue = AdaptiveQueue::new(20);
    let mut progress = RemoveProgress::new();
    let config = plain_config();
    let children = vec![
        FsNode::File("/d/a.txt".to_string()),
        FsNode::Unreadable("/d/bad".to_string(), "denied".to_string()),
        FsNode::File("/d/b.txt".to_string()),
    ];
    let node = FsNode::Dir("/d".to_string(), children);

    let result = scan_path(&node, &mut queue, &mut progress, &config);
    match result {
        Err(fast_rm::errors::RemoveError::MetadataFailed(p, e)) => {
            assert_eq!(p, "/d/bad");
            assert_eq!(e, "denied");
        }
        other => panic!("expected the first child's metadata error, got {:?}", other),
    }
    // Siblings were still scanned, but no job was enqueued for the directory.
    let order: Vec<String> = drain(&mut queue).iter().map(job_path).collect();
    assert_eq!(order, vec!["/d/a.txt".to_string(), "/d/b.txt".to_string()]);
    let (scanned, _deleted, errors) = progress.get_stats();
    assert_eq!(scanned, 4);
    assert_eq!(errors, 1);
}

#[test]
fn unreadable_entry_is_charged_to_its_directory() {
    let mut queue = AdaptiveQueue::new(10);
    let mut progress = RemoveProgress::new();
    let config = plain_config();
    let node = FsNode::Dir(
        "/d".to_string(),
        vec![FsNode::BadEntry("/d".to_string(), "stale handle".to_string())],
    );

    let result = scan_path(&node, &mut queue, &mut progress, &config);
    match result {
        Err(fast_rm::errors::RemoveError::DirEntryFailed(p, e)) => {
            assert_eq!(p, "/d");
            assert_eq!(e, "stale handle");
        }
        other => panic!("expected a directory-entry error, got {:?}", other),
    }
    let (scanned, _deleted, errors) = progress.get_stats();
    assert_eq!((scanned, errors), (2, 1));
}

#[test]
fn no_path_is_lost_between_tree_and_queue() {
    let mut queue = AdaptiveQueue::new(32);
    let mut progress = RemoveProgress::new();
    let config = plain_config();
    let sub = FsNode::Dir(
        "/d/sub".to_string(),
        vec![
            FsNode::File("/d/sub/x".to_string()),
            FsNode::Symlink("/d/sub/link".to_string()),
        ],
    );
    let root = FsNode::Dir(
        "/d".to_string(),
        vec![FsNode::File("/d/a".to_string()), sub, FsNode::File("/d/b".to_string())],
    );

    scan_path(&root, &mut queue, &mut progress, &config).unwrap();

    let mut queued: Vec<String> = drain(&mut queue).iter().map(job_path).collect();
    let mut expected: Vec<String> = vec![
        "/d".to_string(),
        "/d/a".to_string(),
        "/d/b".to_string(),
        "/d/sub".to_string(),
        "/d/sub/x".to_string(),
        "/d/sub/link".to_string(),
    ];
    queued.sort();
    expected.sort();
    assert_eq!(queued, expected, "Scanned and queued sets should be identical");
}

#[test]
fn unlistable_directory_enqueues_nothing() {
    let mut queue = AdaptiveQueue::new(10);
    let mut progress = RemoveProgress::new();
    let config = RemoveConfig::new(Verbosity::Simple, false, true);
    let node = FsNode::UnlistableDir("/d/locked".to_string(), "denied".to_string());

    let result = scan_path(&node, &mut queue, &mut progress, &config);
    assert!(matches!(
        result,
        Err(fast_rm::errors::RemoveError::ReadDirFailed(_, _))
    ));
    assert!(queue.is_empty());
    let (scanned, deleted, errors) = progress.get_stats();
    assert_eq!((scanned, deleted, errors), (1, 0, 1));
}
