use fast_rm::config::RemoveConfig;
use fast_rm::config::Verbosity;
use fast_rm::deleter::delete_worker;
use fast_rm::deleter::deleter_should_exit;
use fast_rm::deleter::planned_action;
use fast_rm::deleter::process_job;
use fast_rm::deleter::rmdir_retry_delay_ms;
use fast_rm::deleter::ActionOutcome;
use fast_rm::deleter::DeleteAction;
use fast_rm::errors::RemoveError;
use fast_rm::progress::RemoveProgress;
use fast_rm::queue::AdaptiveQueue;
use fast_rm::queue::FileJob;
use fast_rm::results::exit_code;
use fast_rm::scanner::scan_path;
use fast_rm::scanner::FsNode;

fn plain_config() -> RemoveConfig {
    RemoveConfig::new(Verbosity::Simple, false, false)
}

#[test]
fn test_delete_worker_basic() {
    let mut queue = AdaptiveQueue::new(10);
    let config = plain_config();
    let mut progress = RemoveProgress::new();

    queue.send(FileJob::File("/work/test.txt".to_string()));

    let exited = delete_worker(&mut queue, &config, true, &mut progress);

    assert!(exited);
    assert!(queue.is_empty());
    let (_, deleted, errors) = progress.get_stats();
    assert_eq!(deleted, 1);
    assert_eq!(errors, 0);
}

#[test]
fn worker_keeps_waiting_while_scanners_run() {
    let mut queue = AdaptiveQueue::new(10);
    let config = plain_config();
    let mut progress = RemoveProgress::new();
    queue.send(FileJob::File("/work/a".to_string()));

    let exited = delete_worker(&mut queue, &config, false, &mut progress);
    assert!(!exited);
    assert!(queue.is_empty());

    queue.send(FileJob::File("/work/b".to_string()));
    let exited = delete_worker(&mut queue, &config, true, &mut progress);
    assert!(exited);
    let (_, deleted, _) = progress.get_stats();
    assert_eq!(deleted, 2);
}

#[test]
fn exit_needs_both_the_done_flag_and_an_empty_queue() {
    assert!(!deleter_should_exit(false, false));
    assert!(!deleter_should_exit(false, true));
    assert!(!deleter_should_exit(true, false));
    assert!(deleter_should_exit(true, true));
}

#[test]
fn successful_outcome_counts_as_deleted() {
    let mut progress = RemoveProgress::new();
    let job = FileJob::File("/d/f".to_string());
    let r = process_job(&job, &ActionOutcome::Succeeded, &plain_config(), &mut progress);
    assert!(r.is_ok());
    let (_, deleted, errors) = progress.get_stats();
    assert_eq!((deleted, errors), (1, 0));
}

#[test]
fn failed_unlink_is_recorded_and_reported() {
    let mut progress = RemoveProgress::new();
    let job = FileJob::File("/d/f".to_string());
    let outcome = ActionOutcome::Failed("permission denied".to_string());
    let r = process_job(&job, &outcome, &plain_config(), &mut progress);
    match r {
        Err(RemoveError::RemoveFailed(p, e)) => {
            assert_eq!(p, "/d/f");
            assert_eq!(e, "permission denied");
        }
        other => panic!("expected a RemoveFailed error, got {:?}", other),
    }
    let (_, deleted, errors) = progress.get_stats();
    assert_eq!((deleted, errors), (0, 1));
    let errs = progress.get_error_files();
    assert_eq!(errs.len(), 1);
    assert_eq!(errs[0].0, "/d/f");
}

#[test]
fn failed_rmdir_is_reported_as_a_directory_error() {
    let mut progress = RemoveProgress::new();
    let job = FileJob::EmptyDir("/d".to_string());
    let outcome = ActionOutcome::Failed("directory not empty".to_string());
    let r = process_job(&job, &outcome, &plain_config(), &mut progress);
    assert!(matches!(r, Err(RemoveError::RemoveDirFailed(_, _))));
}

#[test]
fn dry_run_plans_no_syscall_and_acknowledges_the_job() {
    let dry = RemoveConfig::new(Verbosity::Simple, true, false);
    for job in [
        FileJob::File("/d/f".to_string()),
        FileJob::Symlink("/d/l".to_string()),
        FileJob::EmptyDir("/d".to_string()),
    ] {
        assert!(matches!(
            planned_action(&job, &dry),
            DeleteAction::AcknowledgeOnly
        ));
        let mut progress = RemoveProgress::new();
        // Whatever the filesystem would have said, a dry run never asks it.
        let r = process_job(
            &job,
            &ActionOutcome::Failed("never consulted".to_string()),
            &dry,
            &mut progress,
        );
        assert!(r.is_ok());
        let (_, deleted, errors) = progress.get_stats();
        assert_eq!((deleted, errors), (1, 0));
    }
}

#[test]
fn real_runs_plan_the_matching_syscall() {
    let config = plain_config();
    assert!(matches!(
        planned_action(&FileJob::File("/d/f".to_string()), &config),
        DeleteAction::Unlink(p) if p == "/d/f"
    ));
    assert!(matches!(
        planned_action(&FileJob::Symlink("/d/l".to_string()), &config),
        DeleteAction::Unlink(p) if p == "/d/l"
    ));
    assert!(matches!(
        planned_action(&FileJob::EmptyDir("/d".to_string()), &config),
        DeleteAction::Rmdir(p) if p == "/d"
    ));
}

#[test]
fn retry_delays_escalate_to_the_cap() {
    assert_eq!(rmdir_retry_delay_ms(0), 1);
    assert_eq!(rmdir_retry_delay_ms(1), 2);
    assert_eq!(rmdir_retry_delay_ms(2), 4);
    assert_eq!(rmdir_retry_delay_ms(6), 64);
    assert_eq!(rmdir_retry_delay_ms(7), 128);
    assert_eq!(rmdir_retry_delay_ms(16), 128);
}

#[test]
fn permission_denied_with_continue_on_error() {
    // A directory with two files; unlinking one of them is refused.
    let config = RemoveConfig::new(Verbosity::Simple, false, true);
    let mut queue = AdaptiveQueue::new(16);
    let mut progress = RemoveProgress::new();
    let children = vec![
        FsNode::File("/d/file1.txt".to_string()),
        FsNode::File("/d/file2.txt".to_string()),
    ];
    let root = FsNode::Dir("/d".to_string(), children);
    scan_path(&root, &mut queue, &mut progress, &config).unwrap();

    while let Some(job) = queue.try_recv() {
        let outcome = if job.path() == "/d/file1.txt" {
            ActionOutcome::Failed("permission denied".to_string())
        } else {
            ActionOutcome::Succeeded
        };
        let _ = process_job(&job, &outcome, &config, &mut progress);
    }

    let (scanned, deleted, errors) = progress.get_stats();
    assert_eq!(scanned, 3);
    assert_eq!(deleted, 2);
    assert_eq!(errors, 1);
    assert_eq!(exit_code(errors), 1);
}
