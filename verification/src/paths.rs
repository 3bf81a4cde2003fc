//! Where converted files go and where the bundled ffmpeg may be found, as path
//! texts composed the way `PathBuf::join` composes them on Unix.

use vstd::prelude::*;

use crate::text::{has_prefix, starts_with, trim, trimmed};

verus! {

/// `base` joined with `component`: an absolute component replaces the base;
/// otherwise a `/` is put between them unless the base is empty or already ends
/// with one.
pub open spec fn path_join(base: Seq<char>, component: Seq<char>) -> Seq<char> {
    if has_prefix(component, "/"@) {
        component
    } else if base.len() == 0 || base.last() == '/' {
        base + component
    } else {
        base + "/"@ + component
    }
}

/// Joins `component` onto the path `base` (`Path::join`).
pub fn join_path(base: &str, component: &str) -> (r: String)
    ensures
        r@ == path_join(base@, component@),
{
    if starts_with(component, "/") {
        return String::from_str(component);
    }
    let n = base.unicode_len();
    if n == 0 || base.get_char(n - 1) == '/' {
        String::from_str(base).concat(component)
    } else {
        String::from_str(base).concat("/").concat(component)
    }
}

/// The output directory for the home directory `home`, if there is one.
pub open spec fn output_dir_for(home: Option<Seq<char>>) -> Seq<char> {
    match home {
        Some(h) => path_join(path_join(h, "Downloads"@), "RetroTube"@),
        None => "/tmp/RetroTube"@,
    }
}

/// The directory that converted files are written to: `Downloads/RetroTube` in the
/// home directory `home`, or `/tmp/RetroTube` when there is no home directory.
pub fn output_directory(home: Option<&str>) -> (r: String)
    ensures
        r@ == output_dir_for(
            match home {
                Some(h) => Some(h@),
                None => None,
            },
        ),
{
    match home {
        Some(h) => {
            let downloads = join_path(h, "Downloads");
            join_path(downloads.as_str(), "RetroTube")
        },
        None => String::from_str("/tmp/RetroTube"),
    }
}

/// Where the output goes: under a home directory `h`, in `h/Downloads/RetroTube`
/// (with no doubled `/` when `h` ends with one, and relative when `h` is empty);
/// with no home directory, in `/tmp/RetroTube`.
pub proof fn lemma_output_dir_places(h: Seq<char>)
    ensures
        h.len() > 0 && h.last() != '/' ==> output_dir_for(Some(h)) == h + "/Downloads/RetroTube"@,
        h.len() > 0 && h.last() == '/' ==> output_dir_for(Some(h)) == h + "Downloads/RetroTube"@,
        h.len() == 0 ==> output_dir_for(Some(h)) == "Downloads/RetroTube"@,
        output_dir_for(None) == "/tmp/RetroTube"@,
{
    reveal_strlit("/");
    reveal_strlit("Downloads");
    reveal_strlit("RetroTube");
    reveal_strlit("/Downloads/RetroTube");
    reveal_strlit("Downloads/RetroTube");
    let d = "Downloads"@;
    let r = "RetroTube"@;
    assert(!has_prefix(d, "/"@)) by {
        assert(d.take(1)[0] != "/"@[0]);
    }
    assert(!has_prefix(r, "/"@)) by {
        assert(r.take(1)[0] != "/"@[0]);
    }
    let a = path_join(h, d);
    assert(a.len() > 0 && a.last() == 's');
    if h.len() > 0 && h.last() != '/' {
        assert(a + "/"@ + r =~= h + "/Downloads/RetroTube"@);
    } else if h.len() > 0 {
        assert(a + "/"@ + r =~= h + "Downloads/RetroTube"@);
    } else {
        assert(a + "/"@ + r =~= "Downloads/RetroTube"@);
    }
}

/// Where the bundled ffmpeg is looked for, beside an executable directory `e`
/// that is not empty and does not end with `/`: `e/ffmpeg-T`, `e/ffmpeg`,
/// `e/../../binaries/ffmpeg-T`, `e/../../binaries/ffmpeg`, in that order, for the
/// target triple `T`.
pub proof fn lemma_ffmpeg_candidate_places(e: Seq<char>, t: Seq<char>)
    requires
        e.len() > 0,
        e.last() != '/',
    ensures
        ffmpeg_candidate_paths(e, t) == seq![
            e + "/ffmpeg-"@ + t,
            e + "/ffmpeg"@,
            e + "/../../binaries/ffmpeg-"@ + t,
            e + "/../../binaries/ffmpeg"@,
        ],
{
    reveal_strlit("/");
    reveal_strlit("ffmpeg-");
    reveal_strlit("ffmpeg");
    reveal_strlit("../../binaries");
    reveal_strlit("../../binaries/ffmpeg");
    reveal_strlit("/ffmpeg-");
    reveal_strlit("/ffmpeg");
    reveal_strlit("/../../binaries/ffmpeg-");
    reveal_strlit("/../../binaries/ffmpeg");
    let tn = "ffmpeg-"@ + t;
    assert(!has_prefix(tn, "/"@)) by {
        assert(tn.take(1)[0] != "/"@[0]);
    }
    assert(!has_prefix("ffmpeg"@, "/"@)) by {
        assert("ffmpeg"@.take(1)[0] != "/"@[0]);
    }
    assert(!has_prefix("../../binaries"@, "/"@)) by {
        assert("../../binaries"@.take(1)[0] != "/"@[0]);
    }
    assert(!has_prefix("../../binaries/ffmpeg"@, "/"@)) by {
        assert("../../binaries/ffmpeg"@.take(1)[0] != "/"@[0]);
    }
    let b = path_join(e, "../../binaries"@);
    assert(b == e + "/"@ + "../../binaries"@);
    assert(b.last() == 's');
    assert(e + "/"@ + tn =~= e + "/ffmpeg-"@ + t);
    assert(e + "/"@ + "ffmpeg"@ =~= e + "/ffmpeg"@);
    assert(b + "/"@ + tn =~= e + "/../../binaries/ffmpeg-"@ + t);
    assert(e + "/"@ + "../../binaries/ffmpeg"@ =~= e + "/../../binaries/ffmpeg"@);
}

/// The processor architectures that the application is built for.
#[derive(Debug, Clone, Copy, PartialEq, Eq)]
pub enum TargetArch {
    Aarch64,
    X86_64,
}

/// The target triple of the build that runs.
pub open spec fn target_triple(is_macos: bool, arch: TargetArch) -> Seq<char> {
    match (is_macos, arch) {
        (true, TargetArch::Aarch64) => "aarch64-apple-darwin"@,
        (true, TargetArch::X86_64) => "x86_64-apple-darwin"@,
        (false, TargetArch::Aarch64) => "aarch64-unknown-linux-gnu"@,
        (false, TargetArch::X86_64) => "x86_64-unknown-linux-gnu"@,
    }
}

/// The target triple that bundled helper binaries carry in their file names, for
/// a build on macOS (`is_macos`) or Linux, on architecture `arch`.
pub fn current_target_triple(is_macos: bool, arch: TargetArch) -> (r: &'static str)
    ensures
        r@ == target_triple(is_macos, arch),
{
    match (is_macos, arch) {
        (true, TargetArch::Aarch64) => "aarch64-apple-darwin",
        (true, TargetArch::X86_64) => "x86_64-apple-darwin",
        (false, TargetArch::Aarch64) => "aarch64-unknown-linux-gnu",
        (false, TargetArch::X86_64) => "x86_64-unknown-linux-gnu",
    }
}

/// The places where the bundled ffmpeg may be, in the order they are tried: beside
/// the executable under its target-suffixed name, then under its plain name, then
/// the same two in the development tree's `binaries` directory.
pub open spec fn ffmpeg_candidate_paths(exe_dir: Seq<char>, triple: Seq<char>) -> Seq<Seq<char>> {
    let triple_name = "ffmpeg-"@ + triple;
    seq![
        path_join(exe_dir, triple_name),
        path_join(exe_dir, "ffmpeg"@),
        path_join(path_join(exe_dir, "../../binaries"@), triple_name),
        path_join(exe_dir, "../../binaries/ffmpeg"@),
    ]
}

/// The candidate paths of the bundled ffmpeg for the executable's directory
/// `exe_dir` and the target triple `target_triple`; the first that exists is used.
pub fn ffmpeg_candidates(exe_dir: &str, target_triple: &str) -> (r: Vec<String>)
    ensures
        r.deep_view() == ffmpeg_candidate_paths(exe_dir@, target_triple@),
{
    let triple_name = String::from_str("ffmpeg-").concat(target_triple);
    let binaries = join_path(exe_dir, "../../binaries");
    let mut r: Vec<String> = Vec::new();
    r.push(join_path(exe_dir, triple_name.as_str()));
    r.push(join_path(exe_dir, "ffmpeg"));
    r.push(join_path(binaries.as_str(), triple_name.as_str()));
    r.push(join_path(exe_dir, "../../binaries/ffmpeg"));
    assert(r.deep_view() =~= ffmpeg_candidate_paths(exe_dir@, target_triple@));
    r
}

/// Whether a path given to reveal is blank, in which case the output folder is
/// opened instead.
pub fn is_blank_path(path: &str) -> (r: bool)
    ensures
        r == (trimmed(path@).len() == 0),
{
    trim(path).unicode_len() == 0
}

} // verus!
