use retrotube::conversion::{
    build_args, decide_request, next_job_id, validate_request, ConversionRequest, JobCounter,
};

fn s(x: &str) -> String {
    x.to_string()
}

fn req(url: &str, format: &str, quality: &str) -> ConversionRequest {
    ConversionRequest { url: s(url), format: s(format), quality: s(quality) }
}

#[test]
fn accepts_and_normalises_a_request() {
    let r = validate_request(&req("  https://www.youtube.com/watch?v=abc \n", "MP3", "BEST"));
    assert_eq!(r, Ok(req("https://www.youtube.com/watch?v=abc", "mp3", "best")));
}

#[test]
fn accepts_http_and_mp4() {
    let r = validate_request(&req("http://youtu.be/x", "Mp4", "1080"));
    assert_eq!(r, Ok(req("http://youtu.be/x", "mp4", "1080")));
}

#[test]
fn rejects_an_empty_url() {
    assert_eq!(validate_request(&req("", "mp3", "best")), Err(s("URL is empty")));
    assert_eq!(validate_request(&req(" \t\n ", "mp3", "best")), Err(s("URL is empty")));
}

#[test]
fn rejects_an_unparsable_url() {
    assert_eq!(
        validate_request(&req("not a url", "mp3", "best")),
        Err(s("Invalid URL: relative URL without a base"))
    );
    assert_eq!(
        validate_request(&req("https://", "mp3", "best")),
        Err(s("Invalid URL: empty host"))
    );
}

#[test]
fn rejects_other_schemes() {
    assert_eq!(
        validate_request(&req("ftp://example.com/a", "mp3", "best")),
        Err(s("URL must use http or https"))
    );
    assert_eq!(
        validate_request(&req("file:///tmp/x", "mp4", "best")),
        Err(s("URL must use http or https"))
    );
}

#[test]
fn scheme_is_checked_case_insensitively() {
    assert_eq!(
        validate_request(&req("HTTPS://example.com", "mp3", "best")),
        Ok(req("HTTPS://example.com", "mp3", "best"))
    );
}

#[test]
fn rejects_other_formats() {
    assert_eq!(
        validate_request(&req("https://example.com", "WAV", "best")),
        Err(s("Unsupported format: wav"))
    );
    assert_eq!(
        validate_request(&req("https://example.com", "", "best")),
        Err(s("Unsupported format: "))
    );
}

#[test]
fn decides_on_given_parse_results() {
    assert_eq!(
        decide_request(s("u"), Err(s("boom")), s("mp3"), s("best")),
        Err(s("Invalid URL: boom"))
    );
    assert_eq!(
        decide_request(s("u"), Ok(s("gopher")), s("mp3"), s("best")),
        Err(s("URL must use http or https"))
    );
    assert_eq!(
        decide_request(s("u"), Ok(s("https")), s("ogg"), s("best")),
        Err(s("Unsupported format: ogg"))
    );
    assert_eq!(
        decide_request(s("u"), Ok(s("http")), s("mp4"), s("720")),
        Ok(req("u", "mp4", "720"))
    );
}

const SHARED: [&str; 20] = [
    "--no-playlist",
    "--no-write-info-json",
    "--no-write-description",
    "--no-write-thumbnail",
    "--no-write-comments",
    "--newline",
    "--no-warnings",
    "--progress",
    "--progress-template",
    "RTPROG\t%(progress.status)s\t%(progress._percent_str)s\t%(progress._speed_str)s\t%(progress._eta_str)s\t%(progress.downloaded_bytes)s\t%(progress.total_bytes)s",
    "--print",
    "after_move:RTDONE\t%(filepath)s",
    "--ffmpeg-location",
    "/app/ffmpeg",
    "--paths",
    "home:/Users/me/Downloads/RetroTube",
    "--output",
    "%(title).200B [%(id)s].%(ext)s",
    "--concurrent-fragments",
    "4",
];

#[test]
fn mp3_arguments() {
    let args = build_args("https://y/v", "mp3", "best", "/Users/me/Downloads/RetroTube", "/app/ffmpeg");
    let mut expected: Vec<String> = SHARED.iter().map(|a| s(a)).collect();
    for a in [
        "-f",
        "bestaudio[ext=m4a]/bestaudio/best",
        "-x",
        "--audio-format",
        "mp3",
        "--audio-quality",
        "2",
        "--embed-metadata",
        "--embed-thumbnail",
        "https://y/v",
    ] {
        expected.push(s(a));
    }
    assert_eq!(args, expected);
}

#[test]
fn mp4_arguments_with_height_cap() {
    let args = build_args("https://y/v", "mp4", "1080", "/Users/me/Downloads/RetroTube", "/app/ffmpeg");
    let mut expected: Vec<String> = SHARED.iter().map(|a| s(a)).collect();
    for a in [
        "-f",
        "bestvideo[height<=1080][ext=mp4]+bestaudio[ext=m4a]/bestvideo[height<=1080]+bestaudio/best[height<=1080]",
        "--merge-output-format",
        "mp4",
        "--embed-metadata",
        "--postprocessor-args",
        "VideoConvertor:-c:v h264_videotoolbox -b:v 6M -c:a aac -b:a 192k",
        "https://y/v",
    ] {
        expected.push(s(a));
    }
    assert_eq!(args, expected);
}

#[test]
fn mp4_height_filters() {
    for (q, h) in [
        ("2160", "[height<=2160]"),
        ("1440", "[height<=1440]"),
        ("1080", "[height<=1080]"),
        ("720", "[height<=720]"),
        ("480", "[height<=480]"),
        ("360", "[height<=360]"),
        ("best", ""),
        ("999", ""),
    ] {
        let args = build_args("u", "mp4", q, "/o", "/f");
        assert_eq!(
            args[21],
            format!("bestvideo{h}[ext=mp4]+bestaudio[ext=m4a]/bestvideo{h}+bestaudio/best{h}")
        );
    }
}

#[test]
fn other_formats_get_only_shared_arguments() {
    let args = build_args("u", "flac", "best", "/o", "/f");
    assert_eq!(args.len(), 21);
    assert_eq!(args[20], "u");
}

#[test]
fn url_is_always_last() {
    for f in ["mp3", "mp4", "x"] {
        let args = build_args("https://last", f, "720", "/o", "/f");
        assert_eq!(args.last().unwrap(), "https://last");
        assert_eq!(args[13], "/f");
        assert_eq!(args[15], "home:/o");
    }
}

#[test]
fn job_ids_count_up_from_one() {
    let mut c = JobCounter::new();
    assert_eq!(next_job_id(&mut c), "job-1");
    assert_eq!(next_job_id(&mut c), "job-2");
    assert_eq!(next_job_id(&mut c), "job-3");
    assert_eq!(c.next, 4);
}

#[test]
fn job_ids_use_decimal_numbers() {
    let mut c = JobCounter { next: 1234567890 };
    assert_eq!(next_job_id(&mut c), "job-1234567890");
    let mut z = JobCounter { next: 0 };
    assert_eq!(next_job_id(&mut z), "job-0");
    let mut t = JobCounter { next: 10 };
    assert_eq!(next_job_id(&mut t), "job-10");
}

#[test]
fn job_counter_wraps_at_the_top() {
    let mut c = JobCounter { next: u64::MAX };
    assert_eq!(next_job_id(&mut c), "job-18446744073709551615");
    assert_eq!(c.next, 0);
}

#[test]
fn consecutive_job_ids_differ() {
    let mut c = JobCounter::new();
    let mut seen: Vec<String> = Vec::new();
    for _ in 0..200 {
        let id = next_job_id(&mut c);
        assert!(!seen.contains(&id));
        seen.push(id);
    }
}

#[test]
fn first_draws_are_job_1_to_job_k() {
    let mut c = JobCounter::new();
    for i in 1..=50u64 {
        assert_eq!(next_job_id(&mut c), format!("job-{i}"));
    }
}
