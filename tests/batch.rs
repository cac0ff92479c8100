use itt_utility_lib::admission::{AdmissionController, TickDecision, BATCH_CEILING, QUOTA, TICK_MS, WINDOW_MS};
use itt_utility_lib::dispatch::Dispatcher;
use itt_utility_lib::naming::{has_pdf_suffix, is_pdf_path, result_file_name, result_name_for_stem};
use itt_utility_lib::progress::{BatchError, FileStatus, ProcessProgress};

fn paths(names: &[&str]) -> Vec<String> {
    names.iter().map(|s| s.to_string()).collect()
}

fn count_terminal(p: &ProcessProgress) -> usize {
    p.files
        .iter()
        .filter(|f| f.status == FileStatus::Completed || f.status == FileStatus::Failed)
        .count()
}

/// Runs a whole batch on a simulated clock: every extraction is instant,
/// `outcome` gives each item's result. Returns the final progress, the
/// start time of each item, and every snapshot published along the way.
fn simulate(
    input: &[&str],
    outcome: impl Fn(usize) -> Result<String, String>,
) -> (ProcessProgress, Vec<u64>, Vec<ProcessProgress>) {
    let input = paths(input);
    let mut progress = ProcessProgress::begin(&input).ok().unwrap();
    let mut snapshots = vec![snapshot(&progress)];
    let mut dispatcher = Dispatcher::new(input.len(), 0);
    let mut now: u64 = 0;
    let mut started_at = vec![0u64; input.len()];
    while !dispatcher.is_drained() {
        let d = dispatcher.on_tick(now);
        now += d.wait;
        for idx in d.first..d.first + d.count {
            started_at[idx] = now;
            assert!(progress.start_item(idx));
            snapshots.push(snapshot(&progress));
            assert!(progress.finish_item(idx, outcome(idx)));
            snapshots.push(snapshot(&progress));
        }
        now += TICK_MS;
    }
    progress.finish();
    snapshots.push(snapshot(&progress));
    (progress, started_at, snapshots)
}

fn snapshot(p: &ProcessProgress) -> ProcessProgress {
    ProcessProgress {
        files: p
            .files
            .iter()
            .map(|f| itt_utility_lib::progress::FileProgress {
                file_path: f.file_path.clone(),
                status: f.status,
                result: f.result.clone(),
                error: f.error.clone(),
            })
            .collect(),
        current_task: p.current_task.clone(),
        completed: p.completed,
        total: p.total,
    }
}

#[test]
fn empty_input_is_refused() {
    let r = ProcessProgress::begin(&Vec::new());
    assert!(matches!(r, Err(BatchError::EmptyInput)));
    assert_eq!(BatchError::EmptyInput.message(), "No file paths provided");
}

#[test]
fn begin_seeds_waiting_items() {
    let p = ProcessProgress::begin(&paths(&["a.png", "b.pdf"])).ok().unwrap();
    assert_eq!(p.total, 2);
    assert_eq!(p.completed, 0);
    assert_eq!(p.current_task, "prepare for processing...");
    assert_eq!(p.files[0].file_path, "a.png");
    assert_eq!(p.files[1].file_path, "b.pdf");
    for f in &p.files {
        assert_eq!(f.status, FileStatus::Waiting);
        assert!(f.result.is_none() && f.error.is_none());
    }
}

#[test]
fn three_items_all_succeed() {
    let (p, _, snapshots) = simulate(&["a.png", "b.png", "c.png"], |i| Ok(format!("/tmp/r{}", i)));
    assert_eq!(p.completed, 3);
    assert_eq!(p.report(), "/tmp/r0\n\n---\n\n/tmp/r1\n\n---\n\n/tmp/r2");
    for i in 0..3 {
        let seen: Vec<FileStatus> = snapshots.iter().map(|s| s.files[i].status).collect();
        let mut steps = seen.clone();
        steps.dedup();
        assert_eq!(steps, vec![FileStatus::Waiting, FileStatus::Processing, FileStatus::Completed]);
    }
}

#[test]
fn one_failure_does_not_abort_the_batch() {
    let (p, _, _) = simulate(&["a.png", "b.png"], |i| {
        if i == 1 {
            Err("timeout".to_string())
        } else {
            Ok("/tmp/a_ocr_result.txt".to_string())
        }
    });
    assert_eq!(p.files[1].status, FileStatus::Failed);
    assert_eq!(p.files[1].error.as_deref(), Some("timeout"));
    assert_eq!(p.report(), "/tmp/a_ocr_result.txt\n\n---\n\ntimeout");
}

#[test]
fn snapshots_keep_counts_in_step() {
    let (_, _, snapshots) = simulate(&["a", "b", "c", "d", "e"], |i| {
        if i % 2 == 0 { Ok(format!("r{}", i)) } else { Err(format!("e{}", i)) }
    });
    for s in &snapshots {
        assert_eq!(s.total, 5);
        assert_eq!(s.completed, count_terminal(s));
    }
    for pair in snapshots.windows(2) {
        for i in 0..5 {
            let (a, b) = (pair[0].files[i].status, pair[1].files[i].status);
            let ok = a == b
                || (a == FileStatus::Waiting && b == FileStatus::Processing)
                || (a == FileStatus::Processing && (b == FileStatus::Completed || b == FileStatus::Failed));
            assert!(ok);
        }
    }
}

#[test]
fn twenty_first_item_waits_for_the_window() {
    let names: Vec<String> = (0..25).map(|i| format!("f{}.png", i)).collect();
    let refs: Vec<&str> = names.iter().map(|s| s.as_str()).collect();
    let (p, started_at, _) = simulate(&refs, |i| Ok(format!("r{}", i)));
    assert_eq!(p.completed, 25);
    assert!(started_at[20] >= started_at[0] + WINDOW_MS);
    assert!(started_at[19] < started_at[0] + WINDOW_MS);
    let first_window = started_at.iter().filter(|&&t| t < started_at[0] + WINDOW_MS).count();
    assert_eq!(first_window as u64, QUOTA);
}

#[test]
fn tick_respects_batch_ceiling() {
    let mut c = AdmissionController::new(0);
    assert_eq!(c.tick(0, 5), TickDecision { wait: 0, start_count: BATCH_CEILING });
    assert_eq!(c.tick(1000, 1), TickDecision { wait: 0, start_count: 1 });
    assert_eq!(c.tick(2000, 0), TickDecision { wait: 0, start_count: 0 });
    assert_eq!(c.admitted_in_window, 3);
}

#[test]
fn exhausted_quota_waits_out_the_window() {
    let mut c = AdmissionController { window_start: 5000, admitted_in_window: 20 };
    let d = c.tick(15000, 7);
    assert_eq!(d, TickDecision { wait: 50000, start_count: 2 });
    assert_eq!(c, AdmissionController { window_start: 65000, admitted_in_window: 2 });
}

#[test]
fn exhausted_quota_after_window_resets_at_once() {
    let mut c = AdmissionController { window_start: 0, admitted_in_window: 20 };
    let d = c.tick(70000, 3);
    assert_eq!(d, TickDecision { wait: 0, start_count: 2 });
    assert_eq!(c, AdmissionController { window_start: 70000, admitted_in_window: 2 });
}

#[test]
fn quota_caps_a_tick() {
    let mut c = AdmissionController { window_start: 0, admitted_in_window: 19 };
    assert_eq!(c.tick(1000, 4), TickDecision { wait: 0, start_count: 1 });
}

#[test]
fn dispatcher_hands_out_items_in_order() {
    let mut d = Dispatcher::new(3, 0);
    assert_eq!(d.pending(), 3);
    let a = d.on_tick(0);
    assert_eq!((a.first, a.count), (0, 2));
    let b = d.on_tick(1000);
    assert_eq!((b.first, b.count), (2, 1));
    assert!(d.is_drained());
}

#[test]
fn moves_out_of_order_are_refused() {
    let mut p = ProcessProgress::begin(&paths(&["a", "b"])).ok().unwrap();
    assert!(!p.finish_item(0, Ok("x".to_string())));
    assert!(!p.start_item(5));
    assert!(p.start_item(0));
    assert_eq!(p.current_task, "Processing: a");
    assert!(!p.start_item(0));
    assert!(p.finish_item(0, Ok("x".to_string())));
    assert!(!p.finish_item(0, Err("late".to_string())));
    assert_eq!(p.files[0].result.as_deref(), Some("x"));
    assert_eq!(p.completed, 1);
}

#[test]
fn unfinished_items_report_their_status() {
    let mut p = ProcessProgress::begin(&paths(&["a", "b"])).ok().unwrap();
    assert!(p.start_item(1));
    assert_eq!(p.report(), "waiting\n\n---\n\nprocessing");
    assert_eq!(FileStatus::Failed.as_string(), "error");
}

#[test]
fn report_is_stable() {
    let (mut p, _, _) = simulate(&["a", "b"], |i| Ok(format!("r{}", i)));
    let first = p.report();
    assert_eq!(p.report(), first);
    p.finish();
    assert_eq!(p.current_task, "Completed!");
    assert_eq!(p.report(), first);
}

#[test]
fn single_item_report_has_no_separator() {
    let (p, _, _) = simulate(&["only.png"], |_| Ok("ref".to_string()));
    assert_eq!(p.report(), "ref");
}

#[test]
fn pdf_paths_are_recognised() {
    assert!(is_pdf_path("scan.PDF"));
    assert!(is_pdf_path("/a/b/c.pdf"));
    assert!(!is_pdf_path("image.png"));
    assert!(!is_pdf_path("pdf"));
    assert!(has_pdf_suffix("x.pdf"));
    assert!(!has_pdf_suffix("x.PDF"));
}

#[test]
fn result_names_use_the_stem() {
    assert_eq!(result_file_name("/home/u/docs/report.pdf"), "report_ocr_result.txt");
    assert_eq!(result_file_name("archive.tar.gz"), "archive.tar_ocr_result.txt");
    assert_eq!(result_name_for_stem("x"), "x_ocr_result.txt");
}
