use fast_rm::progress::RemoveProgress;
use fast_rm::progress::TuiHandle;
use fast_rm::results::exit_code;
use fast_rm::results::process_results;

#[test]
fn counters_start_at_zero_and_only_grow() {
    let mut progress = RemoveProgress::new();
    assert_eq!(progress.get_stats(), (0, 0, 0));
    let mut last = (0, 0, 0);
    let steps: Vec<fn(&mut RemoveProgress)> = vec![
        |p| p.inc_scanned(),
        |p| p.inc_deleted(&"/a".to_string()),
        |p| p.inc_scanned(),
        |p| p.inc_error(&"/b".to_string(), "denied".to_string()),
        |p| p.inc_deleted(&"/c".to_string()),
    ];
    for step in steps {
        step(&mut progress);
        let now = progress.get_stats();
        assert!(now.0 >= last.0 && now.1 >= last.1 && now.2 >= last.2);
        last = now;
    }
    assert_eq!(last, (2, 2, 1));
}

#[test]
fn recent_files_keep_only_the_newest_window() {
    let mut progress = RemoveProgress::new();
    for i in 0..60 {
        progress.inc_deleted(&format!("/d/f{}", i));
    }
    let recent = progress.get_recent_files();
    assert_eq!(recent.len(), 50);
    assert_eq!(recent[0], "/d/f10");
    assert_eq!(recent[49], "/d/f59");
    // The stream was drained: nothing is left for a second reader.
    assert!(progress.get_recent_files().is_empty());
}

#[test]
fn error_stream_carries_path_and_text() {
    let mut progress = RemoveProgress::new();
    progress.inc_error(&"/d/f".to_string(), "permission denied".to_string());
    progress.inc_error(&"/d/g".to_string(), "busy".to_string());
    let errors = progress.get_error_files();
    assert_eq!(errors.len(), 2);
    assert_eq!(errors[0], ("/d/f".to_string(), "permission denied".to_string()));
    assert_eq!(errors[1], ("/d/g".to_string(), "busy".to_string()));
}

#[test]
fn overfull_error_stream_drops_the_newest() {
    let mut progress = RemoveProgress::new();
    for i in 0..150 {
        progress.inc_error(&format!("/d/f{}", i), "denied".to_string());
    }
    // The stream buffers 100 entries and drops later ones; the reader then
    // keeps the newest 50 of those.
    let errors = progress.get_error_files();
    assert_eq!(errors.len(), 50);
    assert_eq!(errors[0].0, "/d/f50");
    assert_eq!(errors[49].0, "/d/f99");
    let (_, _, error_count) = progress.get_stats();
    assert_eq!(error_count, 150);
}

#[test]
fn done_flag_starts_low_and_stays_raised() {
    let mut handle = TuiHandle::new();
    assert!(!handle.is_done());
    handle.set_done();
    assert!(handle.is_done());
    handle.set_done();
    assert!(handle.is_done());
}

#[test]
fn totals_sum_successes_and_count_failures() {
    let results = vec![
        ("/a".to_string(), Ok(3u64)),
        (
            "/b".to_string(),
            Err(fast_rm::errors::RemoveError::UnsupportedType("/b".to_string())),
        ),
        ("/c".to_string(), Ok(2u64)),
    ];
    let (items, errors) = process_results(&results);
    assert_eq!(items, 5);
    assert_eq!(errors, 1);
}

#[test]
fn exit_status_is_zero_only_without_errors() {
    assert_eq!(exit_code(0), 0);
    assert_eq!(exit_code(1), 1);
    assert_eq!(exit_code(100), 1);
}
