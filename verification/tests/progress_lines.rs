use retrotube::progress::{
    classify_info_line, clean, parse_percent, parse_progress_line, ProgressEvent, DONE_PREFIX,
    PROGRESS_PREFIX,
};

fn s(x: &str) -> String {
    x.to_string()
}

#[test]
fn prefixes_match_the_template() {
    assert_eq!(PROGRESS_PREFIX, "RTPROG\t");
    assert_eq!(DONE_PREFIX, "RTDONE\t");
}

#[test]
fn parses_a_downloading_line() {
    let ev = parse_progress_line(
        "job-1",
        "RTPROG\tdownloading\t 42.5%\t1.23MiB/s\t00:10\t1024\t4096",
    )
    .unwrap();
    assert_eq!(
        ev,
        ProgressEvent {
            job_id: s("job-1"),
            stage: s("downloading"),
            percent: Some(s("42.5")),
            speed: Some(s("1.23MiB/s")),
            eta: Some(s("00:10")),
            message: None,
        }
    );
}

#[test]
fn finished_status_is_reported_as_downloaded() {
    let ev = parse_progress_line("job-2", "RTPROG\tfinished\t100%\tNA\tNA").unwrap();
    assert_eq!(ev.stage, "downloaded");
    assert_eq!(ev.percent, Some(s("100")));
    assert_eq!(ev.speed, None);
    assert_eq!(ev.eta, None);
}

#[test]
fn error_status_is_reported_as_error() {
    let ev = parse_progress_line("job-3", "RTPROG\terror").unwrap();
    assert_eq!(ev.stage, "error");
    assert_eq!(ev.percent, None);
    assert_eq!(ev.speed, None);
    assert_eq!(ev.eta, None);
}

#[test]
fn unknown_status_is_reported_as_downloading() {
    let ev = parse_progress_line("job-4", "RTPROG\t  weird \t Unknown%\tUnknown\t   ").unwrap();
    assert_eq!(ev.stage, "downloading");
    assert_eq!(ev.percent, Some(s("Unknown")));
    assert_eq!(ev.speed, None);
    assert_eq!(ev.eta, None);
}

#[test]
fn empty_progress_payload_still_parses() {
    let ev = parse_progress_line("job-5", "RTPROG\t").unwrap();
    assert_eq!(ev.stage, "downloading");
    assert_eq!(ev.percent, None);
    assert_eq!(ev.job_id, "job-5");
}

#[test]
fn non_progress_lines_are_not_parsed() {
    assert_eq!(parse_progress_line("job-1", "downloading 42%"), None);
    assert_eq!(parse_progress_line("job-1", " RTPROG\tdownloading"), None);
    assert_eq!(parse_progress_line("job-1", "RTPROG downloading"), None);
    assert_eq!(parse_progress_line("job-1", ""), None);
}

#[test]
fn percent_text_is_cleaned() {
    assert_eq!(parse_percent("  7.1% "), Some(s("7.1")));
    assert_eq!(parse_percent("55%%"), Some(s("55")));
    assert_eq!(parse_percent(" NA% "), None);
    assert_eq!(parse_percent("  "), None);
    assert_eq!(parse_percent("%"), None);
    assert_eq!(parse_percent("12 %"), Some(s("12")));
}

#[test]
fn clean_drops_placeholders() {
    assert_eq!(clean(None), None);
    assert_eq!(clean(Some(s("  "))), None);
    assert_eq!(clean(Some(s(" NA "))), None);
    assert_eq!(clean(Some(s("Unknown"))), None);
    assert_eq!(clean(Some(s("\u{a0}2.0MiB/s\t"))), Some(s("2.0MiB/s")));
    assert_eq!(clean(Some(s("na"))), Some(s("na")));
}

#[test]
fn clean_is_idempotent_on_examples() {
    for v in ["  x ", "NA", " Unknown", "", "\u{3000}y\u{2003}"] {
        let once = clean(Some(s(v)));
        assert_eq!(clean(once.clone()), once);
    }
}

#[test]
fn classifies_postprocessing_lines() {
    let ev = classify_info_line("job-9", "  [ExtractAudio] Destination: a.mp3\r\n").unwrap();
    assert_eq!(
        ev,
        ProgressEvent {
            job_id: s("job-9"),
            stage: s("postprocessing"),
            percent: None,
            speed: None,
            eta: None,
            message: Some(s("[ExtractAudio] Destination: a.mp3")),
        }
    );
    for line in [
        "[Merger] Merging formats into \"a.mp4\"",
        "[ffmpeg] Converting",
        "[EmbedThumbnail] ffmpeg: Adding thumbnail",
        "[Metadata] Adding metadata",
        "[FixupM3u8] Fixing",
    ] {
        let ev = classify_info_line("j", line).unwrap();
        assert_eq!(ev.stage, "postprocessing");
        assert_eq!(ev.message.as_deref(), Some(line));
    }
}

#[test]
fn ignores_other_info_lines() {
    assert_eq!(classify_info_line("j", ""), None);
    assert_eq!(classify_info_line("j", "   \t "), None);
    assert_eq!(classify_info_line("j", "[youtube] abc: Downloading webpage"), None);
    assert_eq!(classify_info_line("j", "[download] 10%"), None);
    assert_eq!(classify_info_line("j", "x [Merger]"), None);
}
