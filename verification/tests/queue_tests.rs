use fast_rm::queue::AdaptiveQueue;
use fast_rm::queue::FileJob;

#[test]
fn test_queue_send_recv() {
    let mut queue = AdaptiveQueue::new(10);
    let path = "/tmp/test.txt".to_string();

    queue.send(FileJob::File(path.clone()));

    match queue.recv() {
        FileJob::File(p) => assert_eq!(p, path),
        _ => panic!("Wrong job type"),
    }
}

#[test]
fn test_queue_depth() {
    let mut queue = AdaptiveQueue::new(10);
    assert_eq!(queue.depth(), 0);

    let path1 = "/tmp/1".to_string();
    let path2 = "/tmp/2".to_string();
    let path3 = "/tmp/3".to_string();

    queue.send(FileJob::File(path1));
    queue.send(FileJob::File(path2));
    queue.send(FileJob::File(path3));

    assert_eq!(queue.depth(), 3);

    let _ = queue.recv();
    assert_eq!(queue.depth(), 2);

    let _ = queue.recv();
    let _ = queue.recv();
    assert_eq!(queue.depth(), 0);
}

#[test]
fn test_empty_dir_variant() {
    let mut queue = AdaptiveQueue::new(5);
    let path = "/tmp/dir".to_string();

    queue.send(FileJob::EmptyDir(path.clone()));

    match queue.recv() {
        FileJob::EmptyDir(p) => assert_eq!(p, path),
        _ => panic!("Wrong job type"),
    }
}

#[test]
fn try_send_reports_a_full_queue() {
    let mut queue = AdaptiveQueue::new(1);
    assert!(queue.try_send(FileJob::File("/tmp/a".to_string())));
    assert!(!queue.try_send(FileJob::File("/tmp/b".to_string())));
    assert_eq!(queue.depth(), 1);
    match queue.try_recv() {
        Some(FileJob::File(p)) => assert_eq!(p, "/tmp/a"),
        _ => panic!("expected the accepted job back"),
    }
    assert!(queue.try_recv().is_none());
}

#[test]
fn recv_timeout_reports_an_empty_queue() {
    let mut queue = AdaptiveQueue::new(4);
    assert!(queue.recv_timeout(10).is_none());
    queue.send(FileJob::Symlink("/tmp/link".to_string()));
    match queue.recv_timeout(10) {
        Some(FileJob::Symlink(p)) => assert_eq!(p, "/tmp/link"),
        _ => panic!("expected the symlink job"),
    }
}

#[test]
fn counters_track_sends_and_capacity_is_kept() {
    let mut queue = AdaptiveQueue::new(7);
    assert_eq!(queue.capacity(), 7);
    assert_eq!(queue.enqueued_counter(), 0);
    assert!(queue.is_empty());
    queue.send(FileJob::File("/tmp/x".to_string()));
    queue.send(FileJob::File("/tmp/y".to_string()));
    assert_eq!(queue.enqueued_counter(), 2);
    assert!(!queue.is_empty());
    let first = queue.recv();
    match first {
        FileJob::File(p) => assert_eq!(p, "/tmp/x"),
        _ => panic!("queue must hand jobs out oldest first"),
    }
    assert_eq!(queue.enqueued_counter(), 2);
    assert_eq!(queue.depth(), 1);
}

#[test]
fn jobs_come_out_in_send_order() {
    let mut queue = AdaptiveQueue::new(16);
    for i in 0..10 {
        queue.send(FileJob::File(format!("/tmp/f{}", i)));
    }
    for i in 0..10 {
        match queue.recv() {
            FileJob::File(p) => assert_eq!(p, format!("/tmp/f{}", i)),
            _ => panic!("Wrong job type"),
        }
    }
}
