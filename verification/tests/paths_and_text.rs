use retrotube::paths::{
    current_target_triple, ffmpeg_candidates, is_blank_path, join_path, output_directory,
    TargetArch,
};
use retrotube::text::{join, same_text, split, starts_with, strip_prefix, trim, trim_end_matches};

#[test]
fn output_directory_under_home() {
    assert_eq!(output_directory(Some("/Users/me")), "/Users/me/Downloads/RetroTube");
    assert_eq!(output_directory(Some("/Users/me/")), "/Users/me/Downloads/RetroTube");
    assert_eq!(output_directory(Some("")), "Downloads/RetroTube");
    assert_eq!(output_directory(None), "/tmp/RetroTube");
}

#[test]
fn output_directory_agrees_with_pathbuf() {
    for home in ["/home/u", "/", "rel/dir", "/a//"] {
        let expected = std::path::PathBuf::from(home).join("Downloads").join("RetroTube");
        assert_eq!(output_directory(Some(home)), expected.to_string_lossy());
    }
}

#[test]
fn join_replaces_with_absolute_component() {
    assert_eq!(join_path("/a", "/b"), "/b");
    assert_eq!(join_path("/a", "b"), "/a/b");
    assert_eq!(join_path("/a/", "b"), "/a/b");
    assert_eq!(join_path("", "b"), "b");
}

#[test]
fn target_triples() {
    assert_eq!(current_target_triple(true, TargetArch::Aarch64), "aarch64-apple-darwin");
    assert_eq!(current_target_triple(true, TargetArch::X86_64), "x86_64-apple-darwin");
    assert_eq!(current_target_triple(false, TargetArch::Aarch64), "aarch64-unknown-linux-gnu");
    assert_eq!(current_target_triple(false, TargetArch::X86_64), "x86_64-unknown-linux-gnu");
}

#[test]
fn ffmpeg_candidate_order() {
    let c = ffmpeg_candidates("/App/Contents/MacOS", "aarch64-apple-darwin");
    assert_eq!(
        c,
        vec![
            "/App/Contents/MacOS/ffmpeg-aarch64-apple-darwin".to_string(),
            "/App/Contents/MacOS/ffmpeg".to_string(),
            "/App/Contents/MacOS/../../binaries/ffmpeg-aarch64-apple-darwin".to_string(),
            "/App/Contents/MacOS/../../binaries/ffmpeg".to_string(),
        ]
    );
}

#[test]
fn blank_paths() {
    assert!(is_blank_path(""));
    assert!(is_blank_path(" \t\n"));
    assert!(!is_blank_path(" /x "));
}

#[test]
fn trimming_matches_std() {
    for s in ["", "  ", " a b ", "\u{85}x\u{2028}", "\u{200b}x", "x\u{3000}", "\ty\r\n"] {
        assert_eq!(trim(s), s.trim());
    }
    assert_eq!(trim_end_matches("a%%%", '%'), "a");
    assert_eq!(trim_end_matches("%a", '%'), "%a");
}

#[test]
fn prefixes_and_equality() {
    assert!(starts_with("RTPROG\tx", "RTPROG\t"));
    assert!(!starts_with("RTPRO", "RTPROG"));
    assert_eq!(strip_prefix("abc", "ab"), Some("c"));
    assert_eq!(strip_prefix("abc", "b"), None);
    assert!(same_text("é", "é"));
    assert!(!same_text("a", "ab"));
}

#[test]
fn splitting_matches_std() {
    for s in ["", "a", "a\tb", "\t", "a\t\tb\t", "ü\tß"] {
        let expected: Vec<&str> = s.split('\t').collect();
        assert_eq!(split(s, '\t'), expected);
    }
}

#[test]
fn joining_matches_std() {
    let parts = vec!["a".to_string(), "".to_string(), "c".to_string()];
    assert_eq!(join(&parts, "\n"), parts.join("\n"));
    assert_eq!(join(&vec![], "\n"), "");
}
