use fold_ingestion::batch_controller::{BatchController, BatchStatus};

fn controller(files: &[&str]) -> BatchController<String> {
    BatchController::new(
        "batch-1".to_string(),
        files.iter().map(|f| f.to_string()).collect(),
        false,
    )
}

#[test]
fn batch_new_counts_pending_files_and_runs() {
    let c = controller(&["a", "b", "c"]);
    assert_eq!(c.status, BatchStatus::Running);
    assert_eq!(c.files_total, 3);
    assert_eq!(c.files_remaining(), 3);
    assert_eq!(c.in_flight_count(), 0);
    assert_eq!(c.files_completed, 0);
    assert_eq!(c.files_failed, 0);
}

#[test]
fn batch_pops_in_fifo_order_then_none() {
    let mut c = controller(&["a", "b"]);
    assert_eq!(c.pop_next_file().as_deref(), Some("a"));
    assert_eq!(c.pop_next_file().as_deref(), Some("b"));
    assert_eq!(c.pop_next_file(), None);
    assert_eq!(c.files_remaining(), 0);
}

#[test]
fn batch_completion_and_failure_update_counts_and_in_flight() {
    let mut c = controller(&["a", "b", "c"]);
    c.add_in_flight("a".to_string(), "p1".to_string());
    c.add_in_flight("b".to_string(), "p2".to_string());
    c.add_in_flight("c".to_string(), "p3".to_string());
    assert_eq!(c.in_flight_count(), 3);
    assert_eq!(c.current_file_name().as_deref(), Some("a"));

    c.record_completed("p1");
    assert_eq!(c.files_completed, 1);
    assert_eq!(c.in_flight_count(), 2);
    assert_eq!(c.current_file_name().as_deref(), Some("b"));

    c.record_failed("p3", "c".to_string(), "boom".to_string());
    assert_eq!(c.files_failed, 1);
    assert_eq!(c.failed_files.len(), 1);
    assert_eq!(c.failed_files[0].name, "c");
    assert_eq!(c.failed_files[0].error, "boom");
    assert_eq!(c.in_flight_count(), 1);
    assert_eq!(c.in_flight_files[0].progress_id, "p2");

    c.record_completed("unknown");
    assert_eq!(c.files_completed, 2);
    assert_eq!(c.in_flight_count(), 1);
}

#[test]
fn batch_status_transitions() {
    let mut c = controller(&[]);
    c.pause();
    assert_eq!(c.status, BatchStatus::Paused);
    c.resume();
    assert_eq!(c.status, BatchStatus::Running);
    c.cancel();
    assert_eq!(c.status, BatchStatus::Cancelled);
    assert_eq!(BatchStatus::Cancelled.name(), "Cancelled");
    assert_eq!(BatchStatus::Completed.name(), "Completed");
    assert_eq!(c.current_file_name(), None);
}
