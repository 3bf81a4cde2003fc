use retrotube::conversion::{ConversionCancelled, ConversionComplete, ConversionError};
use retrotube::jobs::JobTable;
use retrotube::monitor::{
    handle_stdout_line, handle_terminated, push_stderr_line, push_subprocess_error, Monitor,
    MonitorAction, MonitorEvent, TerminationOutcome,
};
use retrotube::progress::ProgressEvent;

fn s(x: &str) -> String {
    x.to_string()
}

#[test]
fn stdout_chunk_with_several_lines() {
    let mut path = None;
    let evs = handle_stdout_line(
        "job-1",
        "RTPROG\tdownloading\t10%\t1MiB/s\t00:09\r\n[Merger] Merging formats\n\nRTDONE\t /out/a.mp4 \r\n[youtube] x\n",
        &mut path,
    );
    assert_eq!(evs.len(), 2);
    assert_eq!(evs[0].stage, "downloading");
    assert_eq!(evs[0].percent, Some(s("10")));
    assert_eq!(evs[0].eta, Some(s("00:09")));
    assert_eq!(evs[1].stage, "postprocessing");
    assert_eq!(evs[1].message, Some(s("[Merger] Merging formats")));
    assert_eq!(path, Some(s("/out/a.mp4")));
}

#[test]
fn blank_done_line_keeps_the_old_path() {
    let mut path = Some(s("/old"));
    let evs = handle_stdout_line("j", "RTDONE\t   \r\r", &mut path);
    assert!(evs.is_empty());
    assert_eq!(path, Some(s("/old")));
}

#[test]
fn last_done_line_wins() {
    let mut path = None;
    handle_stdout_line("j", "RTDONE\t/a\nRTDONE\t/b", &mut path);
    assert_eq!(path, Some(s("/b")));
}

#[test]
fn chunk_boundaries_do_not_change_the_events() {
    let a = "RTPROG\tdownloading\t1%\nRTDONE\t/x";
    let b = "[ffmpeg] done\nRTPROG\tfinished\t100%";
    let mut p1 = None;
    let mut whole = handle_stdout_line("j", &format!("{a}\n{b}"), &mut p1);
    let mut p2 = None;
    let mut parts = handle_stdout_line("j", a, &mut p2);
    parts.append(&mut handle_stdout_line("j", b, &mut p2));
    assert_eq!(whole.len(), 3);
    assert_eq!(whole, parts);
    assert_eq!(p1, p2);
    whole.clear();
}

#[test]
fn stderr_tail_keeps_the_last_eight_lines() {
    let mut tail: Vec<String> = Vec::new();
    for i in 0..12 {
        push_stderr_line(&mut tail, &format!("  ERROR {i}  \n"));
        assert!(tail.len() <= 8);
    }
    let expected: Vec<String> = (4..12).map(|i| format!("ERROR {i}")).collect();
    assert_eq!(tail, expected);
}

#[test]
fn blank_stderr_lines_are_skipped() {
    let mut tail = vec![s("a")];
    push_stderr_line(&mut tail, " \r\n\t");
    assert_eq!(tail, vec![s("a")]);
}

#[test]
fn subprocess_errors_are_always_kept() {
    let mut tail: Vec<String> = (0..8).map(|i| i.to_string()).collect();
    push_subprocess_error(&mut tail, "broken pipe");
    assert_eq!(tail.len(), 9);
    assert_eq!(tail[8], "subprocess error: broken pipe");
    push_stderr_line(&mut tail, "x");
    assert_eq!(tail.len(), 9);
    assert_eq!(tail[0], "1");
}

#[test]
fn successful_end() {
    let out = handle_terminated("job-4", true, Some(0), &vec![s("warn")], Some(s("/f.mp3")));
    assert_eq!(
        out,
        TerminationOutcome::Completed {
            progress: ProgressEvent {
                job_id: s("job-4"),
                stage: s("finished"),
                percent: Some(s("100")),
                speed: None,
                eta: None,
                message: Some(s("Done")),
            },
            complete: ConversionComplete { job_id: s("job-4"), file_path: Some(s("/f.mp3")) },
        }
    );
}

#[test]
fn failed_end_with_error_output() {
    let out = handle_terminated("job-5", true, Some(1), &vec![s("ERROR: a"), s("ERROR: b")], None);
    assert_eq!(
        out,
        TerminationOutcome::Failed(ConversionError { job_id: s("job-5"), message: s("ERROR: a\nERROR: b") })
    );
}

#[test]
fn failed_end_without_error_output() {
    let out = handle_terminated("job-6", true, Some(2), &vec![], None);
    assert_eq!(
        out,
        TerminationOutcome::Failed(ConversionError { job_id: s("job-6"), message: s("yt-dlp exited with code 2") })
    );
    let out = handle_terminated("job-6", true, None, &vec![], None);
    assert_eq!(
        out,
        TerminationOutcome::Failed(ConversionError { job_id: s("job-6"), message: s("yt-dlp exited with code -1") })
    );
    let out = handle_terminated("job-6", true, Some(-2147483648), &vec![], None);
    assert_eq!(
        out,
        TerminationOutcome::Failed(ConversionError {
            job_id: s("job-6"),
            message: s("yt-dlp exited with code -2147483648")
        })
    );
}

#[test]
fn cancelled_job_ends_quietly() {
    let cancelled = TerminationOutcome::Cancelled(ConversionCancelled { job_id: s("j") });
    assert_eq!(handle_terminated("j", false, Some(0), &vec![], None), cancelled);
    assert_eq!(handle_terminated("j", false, Some(1), &vec![s("e")], None), cancelled);
}

#[test]
fn monitor_follows_a_job() {
    let mut m = Monitor::new();
    let a = m.on_event("job-1", MonitorEvent::Stdout(s("RTPROG\tdownloading\t50%\n")));
    match a {
        MonitorAction::Emit(evs) => {
            assert_eq!(evs.len(), 1);
            assert_eq!(evs[0].percent, Some(s("50")));
        }
        MonitorAction::Finish => panic!("should not finish"),
    }
    assert_eq!(m.on_event("job-1", MonitorEvent::Stderr(s(" WARNING: x "))), MonitorAction::Emit(vec![]));
    assert_eq!(m.on_event("job-1", MonitorEvent::Error(s("io"))), MonitorAction::Emit(vec![]));
    assert_eq!(m.on_event("job-1", MonitorEvent::Other), MonitorAction::Emit(vec![]));
    m.on_event("job-1", MonitorEvent::Stdout(s("RTDONE\t/d/x.mp3\n")));
    assert_eq!(m.on_event("job-1", MonitorEvent::Terminated), MonitorAction::Finish);
    assert_eq!(m.stderr_tail, vec![s("WARNING: x"), s("subprocess error: io")]);
    assert_eq!(m.final_path, Some(s("/d/x.mp3")));
}

#[test]
fn job_table_insert_and_remove() {
    let mut t: JobTable<u32> = JobTable::new();
    t.insert(s("job-1"), 11);
    t.insert(s("job-2"), 22);
    assert_eq!(t.len(), 2);
    assert_eq!(t.remove("job-1"), Some(11));
    assert_eq!(t.len(), 1);
    assert_eq!(t.remove("job-3"), None);
    assert_eq!(t.len(), 1);
}

#[test]
fn cancelling_twice_is_harmless() {
    let mut t: JobTable<u32> = JobTable::new();
    t.insert(s("job-1"), 1);
    assert_eq!(t.remove("job-1"), Some(1));
    assert_eq!(t.remove("job-1"), None);
    assert_eq!(t.len(), 0);
}

#[test]
fn cancel_then_end_reports_once() {
    let mut t: JobTable<u32> = JobTable::new();
    t.insert(s("job-7"), 7);
    let cancelled = t.remove("job-7");
    assert_eq!(cancelled, Some(7));
    let was_registered = t.remove("job-7").is_some();
    assert_eq!(
        handle_terminated("job-7", was_registered, Some(0), &vec![], None),
        TerminationOutcome::Cancelled(ConversionCancelled { job_id: s("job-7") })
    );
}

#[test]
fn reinserting_replaces() {
    let mut t: JobTable<u32> = JobTable::new();
    t.insert(s("a"), 1);
    t.insert(s("a"), 2);
    assert_eq!(t.len(), 1);
    assert_eq!(t.remove("a"), Some(2));
}

#[test]
fn removing_one_keeps_others() {
    let mut t: JobTable<u32> = JobTable::new();
    t.insert(s("a"), 1);
    t.insert(s("b"), 2);
    t.insert(s("c"), 3);
    assert_eq!(t.remove("b"), Some(2));
    assert_eq!(t.remove("a"), Some(1));
    assert_eq!(t.remove("c"), Some(3));
}

#[test]
fn drain_hands_back_every_job() {
    let mut t: JobTable<u32> = JobTable::new();
    t.insert(s("a"), 1);
    t.insert(s("b"), 2);
    let mut all = t.drain();
    all.sort();
    assert_eq!(all, vec![(s("a"), 1), (s("b"), 2)]);
    assert_eq!(t.len(), 0);
    assert_eq!(t.remove("a"), None);
}

#[test]
fn uncancelled_job_ends_completed_or_failed() {
    let mut t: JobTable<u32> = JobTable::new();
    t.insert(s("job-8"), 8);
    let was_registered = t.remove("job-8").is_some();
    assert!(was_registered);
    assert!(matches!(
        handle_terminated("job-8", was_registered, Some(0), &vec![], None),
        TerminationOutcome::Completed { .. }
    ));
    assert_eq!(t.remove("job-8"), None);
}
