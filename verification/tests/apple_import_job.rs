use fold_ingestion::apple::import_job::{
    after_export, failure_summary, start_message, sync_batch_count, unavailable_report,
    ExportOutcome, ImportKind, ImportRun, ImportTotals, JobState,
};

#[test]
fn notes_job_reports_each_batch_of_ten() {
    let mut run = ImportRun::begin(ImportKind::Notes, 25);
    let first = run.record_batch(true).unwrap();
    assert_eq!(first.state, JobState::Running);
    assert_eq!(first.percentage, 53);
    assert_eq!(first.message, "Ingested 10/25 notes...");
    let second = run.record_batch(false).unwrap();
    assert_eq!(second.percentage, 76);
    assert_eq!(second.message, "Ingested 10/25 notes...");
    assert!(!run.is_done());
    let third = run.record_batch(true).unwrap();
    assert_eq!(third.percentage, 100);
    assert_eq!(third.message, "Ingested 15/25 notes...");
    assert!(run.is_done());
    let done = run.finish();
    assert_eq!(done.state, JobState::Completed);
    assert_eq!(done.percentage, 100);
    assert_eq!(done.message, "Imported 15 notes");
    assert_eq!(done.totals, Some(ImportTotals { total: 25, ingested: 15 }));
}

#[test]
fn photos_job_counts_photos_tried() {
    let mut run = ImportRun::begin(ImportKind::Photos, 3);
    let a = run.record_batch(true).unwrap();
    assert_eq!(a.percentage, 53);
    assert_eq!(a.message, "Ingesting 1/3 photos...");
    let b = run.record_batch(false).unwrap();
    assert_eq!(b.message, "Ingesting 2/3 photos...");
    let c = run.record_batch(true).unwrap();
    assert_eq!(c.percentage, 100);
    assert_eq!(run.ingested(), 2);
    assert_eq!(run.finish().message, "Imported 2 photos");
}

#[test]
fn reminders_go_in_one_batch_without_a_progress_report() {
    let mut run = ImportRun::begin(ImportKind::Reminders, 7);
    assert!(run.record_batch(true).is_none());
    assert!(run.is_done());
    assert_eq!(run.ingested(), 7);
    let failed = ImportRun::begin(ImportKind::Reminders, 7);
    let mut failed = failed;
    assert!(failed.record_batch(false).is_none());
    assert_eq!(failed.finish().totals, Some(ImportTotals { total: 7, ingested: 0 }));
}

#[test]
fn export_outcomes_give_the_first_report() {
    let r = after_export(ImportKind::Notes, &ExportOutcome::Failed("denied".to_string()));
    assert_eq!(r.state, JobState::Failed);
    assert_eq!(r.message, "Failed to extract notes: denied");
    let r = after_export(ImportKind::Photos, &ExportOutcome::Failed("x".to_string()));
    assert_eq!(r.message, "Failed to export photos: x");
    let r = after_export(ImportKind::Reminders, &ExportOutcome::Panicked("boom".to_string()));
    assert_eq!(r.message, "Extraction task panicked: boom");
    let r = after_export(ImportKind::Photos, &ExportOutcome::Panicked("boom".to_string()));
    assert_eq!(r.message, "Export task panicked: boom");
    let r = after_export(ImportKind::Reminders, &ExportOutcome::Exported(0));
    assert_eq!(r.state, JobState::Completed);
    assert_eq!(r.percentage, 100);
    assert_eq!(r.message, "No reminders found");
    assert_eq!(r.totals, Some(ImportTotals { total: 0, ingested: 0 }));
    let r = after_export(ImportKind::Notes, &ExportOutcome::Exported(12));
    assert_eq!(r.state, JobState::Running);
    assert_eq!(r.percentage, 30);
    assert_eq!(r.message, "Extracted 12 notes, ingesting...");
    let r = after_export(ImportKind::Reminders, &ExportOutcome::Exported(4));
    assert_eq!(r.percentage, 40);
    assert_eq!(r.message, "Extracted 4 reminders, ingesting...");
    let r = after_export(ImportKind::Photos, &ExportOutcome::Exported(2));
    assert_eq!(r.message, "Exported 2 photos, uploading...");
}

#[test]
fn start_and_unavailable_messages() {
    assert_eq!(start_message(ImportKind::Notes), "Extracting notes from Apple Notes...");
    assert_eq!(start_message(ImportKind::Reminders), "Extracting reminders...");
    assert_eq!(start_message(ImportKind::Photos), "Exporting photos from Apple Photos...");
    let r = unavailable_report();
    assert_eq!(r.state, JobState::Failed);
    assert_eq!(r.message, "Apple import is only available on macOS");
}

#[test]
fn sync_failure_summary_counts_and_joins() {
    assert_eq!(failure_summary(&vec![], 3, "batches"), Ok(()));
    let failures = vec!["a".to_string(), "b".to_string()];
    assert_eq!(
        failure_summary(&failures, 3, "batches"),
        Err("2/3 batches failed: a; b".to_string())
    );
    assert_eq!(
        failure_summary(&vec!["p.jpg: read: gone".to_string()], 5, "photos"),
        Err("1/5 photos failed: p.jpg: read: gone".to_string())
    );
    assert_eq!(sync_batch_count(0), 0);
    assert_eq!(sync_batch_count(10), 1);
    assert_eq!(sync_batch_count(11), 2);
}
