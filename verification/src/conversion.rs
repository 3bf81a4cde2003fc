//! Conversion requests: their validation, the `yt-dlp` argument vector they
//! turn into, the job ids they run under, and the events reported about them.

use vstd::prelude::*;

use crate::jobs::has_job;
use crate::outside::{
    ascii_lowercase, is_ascii_text,lowercase, parse_url_scheme, text_result, to_lowercase, url_scheme_result};
use crate::progress::{DONE_PREFIX, PROGRESS_PREFIX};
use crate::text::{lemma_decimal_injective, decimal, push_decimal, same_text, trim, trimmed};

verus! {

/// What the user asked to convert.
#[derive(Debug, Clone, PartialEq, Eq)]
pub struct ConversionRequest {
    pub url: String,
    /// "mp3" or "mp4"
    pub format: String,
    /// "best", "2160", "1440", "1080", "720", "480", "360"
    pub quality: String,
}

/// Reported when a conversion job has been launched.
#[derive(Debug, Clone, PartialEq, Eq)]
pub struct ConversionStarted {
    pub job_id: String,
    pub url: String,
    pub format: String,
    pub quality: String,
}

/// Reported when a conversion job has finished well.
#[derive(Debug, Clone, PartialEq, Eq)]
pub struct ConversionComplete {
    pub job_id: String,
    pub file_path: Option<String>,
}

/// Reported when a conversion job has failed.
#[derive(Debug, Clone, PartialEq, Eq)]
pub struct ConversionError {
    pub job_id: String,
    pub message: String,
}

/// Reported when a conversion job was cancelled.
#[derive(Debug, Clone, PartialEq, Eq)]
pub struct ConversionCancelled {
    pub job_id: String,
}

/// The content of a [`ConversionRequest`].
pub struct RequestView {
    pub url: Seq<char>,
    pub format: Seq<char>,
    pub quality: Seq<char>,
}

impl View for ConversionRequest {
    type V = RequestView;

    open spec fn view(&self) -> RequestView {
        RequestView { url: self.url@, format: self.format@, quality: self.quality@ }
    }
}

/// A validation outcome, by content.
pub open spec fn checked_view(r: Result<ConversionRequest, String>) -> Result<RequestView, Seq<char>> {
    match r {
        Ok(q) => Ok(q@),
        Err(e) => Err(e@),
    }
}

/// The outcome of validation once the URL has been trimmed (and found non-empty),
/// parsed, and the format and quality lowercased.
pub open spec fn request_decision(
    url: Seq<char>,
    parsed: Result<Seq<char>, Seq<char>>,
    format: Seq<char>,
    quality: Seq<char>,
) -> Result<RequestView, Seq<char>> {
    match parsed {
        Err(e) => Err("Invalid URL: "@ + e),
        Ok(scheme) => if scheme != "http"@ && scheme != "https"@ {
            Err("URL must use http or https"@)
        } else if format != "mp3"@ && format != "mp4"@ {
            Err("Unsupported format: "@ + format)
        } else {
            Ok(RequestView { url, format, quality })
        },
    }
}

/// The outcome of validating a request as the user sent it.
pub open spec fn request_validation(request: RequestView) -> Result<RequestView, Seq<char>> {
    let url = trimmed(request.url);
    if url.len() == 0 {
        Err("URL is empty"@)
    } else {
        request_decision(
            url,
            url_scheme_result(url),
            lowercase(request.format),
            lowercase(request.quality),
        )
    }
}

/// A request is accepted only with a non-blank URL, given trimmed, that parses
/// with an http or https scheme, and with the format lowercased to `mp3` or `mp4`.
pub proof fn lemma_accepted_request(request: RequestView)
    ensures
        request_validation(request) matches Ok(v) ==> {
            &&& v.url == trimmed(request.url)
            &&& v.url.len() > 0
            &&& url_scheme_result(v.url) matches Ok(scheme) && (scheme == "http"@ || scheme
                == "https"@)
            &&& v.format == lowercase(request.format)
            &&& (v.format == "mp3"@ || v.format == "mp4"@)
            &&& v.quality == lowercase(request.quality)
        },
{
}

/// What validation accepts and rejects, over every request: a request is
/// accepted exactly when its trimmed URL is non-blank and parses with scheme
/// `http` or `https` and its lowercased format is `mp3` or `mp4`, whatever its
/// quality; it is then given back with the trimmed URL and the lowercased format
/// and quality. Otherwise the first failing check gives the message.
pub proof fn lemma_validation_complete(request: RequestView)
    ensures
        (trimmed(request.url).len() > 0 && (url_scheme_result(trimmed(request.url)) matches Ok(
            scheme,
        ) && (scheme == "http"@ || scheme == "https"@)) && (lowercase(request.format) == "mp3"@
            || lowercase(request.format) == "mp4"@) ==> (request_validation(request) == Ok::<
            RequestView,
            Seq<char>,
        >(
            RequestView {
                url: trimmed(request.url),
                format: lowercase(request.format),
                quality: lowercase(request.quality),
            },
        ))),
        (trimmed(request.url).len() == 0 ==> (request_validation(request) == Err::<
            RequestView,
            Seq<char>,
        >("URL is empty"@))),
        (trimmed(request.url).len() > 0 && (url_scheme_result(trimmed(request.url)) matches Err(
            e,
        )) ==> (request_validation(request) == Err::<RequestView, Seq<char>>(
            "Invalid URL: "@ + url_scheme_result(trimmed(request.url))->Err_0,
        ))),
        (trimmed(request.url).len() > 0 && (url_scheme_result(trimmed(request.url)) matches Ok(
            scheme,
        ) && scheme != "http"@ && scheme != "https"@) ==> (request_validation(request) == Err::<
            RequestView,
            Seq<char>,
        >("URL must use http or https"@))),
        (trimmed(request.url).len() > 0 && (url_scheme_result(trimmed(request.url)) matches Ok(
            scheme,
        ) && (scheme == "http"@ || scheme == "https"@)) && lowercase(request.format) != "mp3"@
            && lowercase(request.format) != "mp4"@ ==> (request_validation(request) == Err::<
            RequestView,
            Seq<char>,
        >("Unsupported format: "@ + lowercase(request.format)))),
{
}

/// Decides on a request whose URL has been trimmed and parsed (`parsed` is the
/// scheme, or the parser's error text) and whose format and quality are lowercased:
/// the URL must use http or https, and the format must be `mp3` or `mp4`.
pub fn decide_request(
    url: String,
    parsed: Result<String, String>,
    format: String,
    quality: String,
) -> (r: Result<ConversionRequest, String>)
    ensures
        checked_view(r) == request_decision(url@, text_result(parsed), format@, quality@),
{
    match parsed {
        Err(e) => Err(String::from_str("Invalid URL: ").concat(e.as_str())),
        Ok(scheme) => {
            if !same_text(scheme.as_str(), "http") && !same_text(scheme.as_str(), "https") {
                Err(String::from_str("URL must use http or https"))
            } else if !same_text(format.as_str(), "mp3") && !same_text(format.as_str(), "mp4") {
                Err(String::from_str("Unsupported format: ").concat(format.as_str()))
            } else {
                Ok(ConversionRequest { url, format, quality })
            }
        },
    }
}

/// Validates a request before anything is launched: the URL is trimmed and must be
/// non-empty and parse as an http or https URL; the format and quality are
/// lowercased, and the format must be `mp3` or `mp4`. Gives back the normalised
/// request, or the message that the user is shown.
pub fn validate_request(request: &ConversionRequest) -> (r: Result<ConversionRequest, String>)
    ensures
        checked_view(r) == request_validation(request@),
        is_ascii_text(request.format@) ==> lowercase(request.format@) == ascii_lowercase(
            request.format@,
        ),
        is_ascii_text(request.quality@) ==> lowercase(request.quality@) == ascii_lowercase(
            request.quality@,
        ),
{
    let format = to_lowercase(request.format.as_str());
    let quality = to_lowercase(request.quality.as_str());
    let url = trim(request.url.as_str());
    if url.unicode_len() == 0 {
        return Err(String::from_str("URL is empty"));
    }
    let parsed = parse_url_scheme(url);
    decide_request(String::from_str(url), parsed, format, quality)
}

/// The progress template, after the prefix: status, percentage, speed, time left,
/// downloaded and total bytes, separated by tabs.
pub open spec fn progress_template_fields() -> Seq<char> {
    "%(progress.status)s\t%(progress._percent_str)s\t%(progress._speed_str)s\t%(progress._eta_str)s\t%(progress.downloaded_bytes)s\t%(progress.total_bytes)s"@
}

/// The arguments that every conversion passes to `yt-dlp`.
pub open spec fn shared_args(output_dir: Seq<char>, ffmpeg_path: Seq<char>) -> Seq<Seq<char>> {
    seq![
        "--no-playlist"@,
        "--no-write-info-json"@,
        "--no-write-description"@,
        "--no-write-thumbnail"@,
        "--no-write-comments"@,
        "--newline"@,
        "--no-warnings"@,
        "--progress"@,
        "--progress-template"@,
        PROGRESS_PREFIX@ + progress_template_fields(),
        "--print"@,
        "after_move:"@ + DONE_PREFIX@ + "%(filepath)s"@,
        "--ffmpeg-location"@,
        ffmpeg_path,
        "--paths"@,
        "home:"@ + output_dir,
        "--output"@,
        "%(title).200B [%(id)s].%(ext)s"@,
        "--concurrent-fragments"@,
        "4"@,
    ]
}

/// The format-selector filter that caps the video height for a quality choice;
/// empty for "best" and anything unknown.
pub open spec fn height_filter(quality: Seq<char>) -> Seq<char> {
    if quality == "2160"@ {
        "[height<=2160]"@
    } else if quality == "1440"@ {
        "[height<=1440]"@
    } else if quality == "1080"@ {
        "[height<=1080]"@
    } else if quality == "720"@ {
        "[height<=720]"@
    } else if quality == "480"@ {
        "[height<=480]"@
    } else if quality == "360"@ {
        "[height<=360]"@
    } else {
        ""@
    }
}

/// The format selector for MP4: mp4 video with m4a audio, else any video with
/// audio, else the best single file, each under the height cap `h`.
pub open spec fn mp4_selector(h: Seq<char>) -> Seq<char> {
    "bestvideo"@ + h + "[ext=mp4]+bestaudio[ext=m4a]/bestvideo"@ + h + "+bestaudio/best"@ + h
}

/// The arguments specific to the output format.
pub open spec fn format_args(format: Seq<char>, quality: Seq<char>) -> Seq<Seq<char>> {
    if format == "mp3"@ {
        seq![
            "-f"@,
            "bestaudio[ext=m4a]/bestaudio/best"@,
            "-x"@,
            "--audio-format"@,
            "mp3"@,
            "--audio-quality"@,
            "2"@,
            "--embed-metadata"@,
            "--embed-thumbnail"@,
        ]
    } else if format == "mp4"@ {
        seq![
            "-f"@,
            mp4_selector(height_filter(quality)),
            "--merge-output-format"@,
            "mp4"@,
            "--embed-metadata"@,
            "--postprocessor-args"@,
            "VideoConvertor:-c:v h264_videotoolbox -b:v 6M -c:a aac -b:a 192k"@,
        ]
    } else {
        Seq::<Seq<char>>::empty()
    }
}

/// The whole `yt-dlp` argument vector: shared flags, format flags, then the URL.
pub open spec fn yt_dlp_args(
    url: Seq<char>,
    format: Seq<char>,
    quality: Seq<char>,
    output_dir: Seq<char>,
    ffmpeg_path: Seq<char>,
) -> Seq<Seq<char>> {
    shared_args(output_dir, ffmpeg_path) + format_args(format, quality) + seq![url]
}

/// The URL is always the last argument, after the shared flags, and an MP3
/// conversion asks only for audio streams.
pub proof fn lemma_args_shape(
    url: Seq<char>,
    format: Seq<char>,
    quality: Seq<char>,
    output_dir: Seq<char>,
    ffmpeg_path: Seq<char>,
)
    ensures
        yt_dlp_args(url, format, quality, output_dir, ffmpeg_path).last() == url,
        yt_dlp_args(url, format, quality, output_dir, ffmpeg_path).take(20) == shared_args(
            output_dir,
            ffmpeg_path,
        ),
        format == "mp3"@ ==> yt_dlp_args(url, format, quality, output_dir, ffmpeg_path)[21]
            == "bestaudio[ext=m4a]/bestaudio/best"@,
{
    let args = yt_dlp_args(url, format, quality, output_dir, ffmpeg_path);
    assert(args.take(20) =~= shared_args(output_dir, ffmpeg_path));
}

/// The height cap that a quality choice puts in the MP4 format selector:
/// `[height<=Q]` for the heights 2160, 1440, 1080, 720, 480 and 360, none for
/// anything else ("best" among them).
pub proof fn lemma_height_cap(quality: Seq<char>)
    ensures
        (quality == "2160"@ || quality == "1440"@ || quality == "1080"@ || quality == "720"@
            || quality == "480"@ || quality == "360"@) ==> height_filter(quality) == "[height<="@
            + quality + "]"@,
        !(quality == "2160"@ || quality == "1440"@ || quality == "1080"@ || quality == "720"@
            || quality == "480"@ || quality == "360"@) ==> height_filter(quality).len() == 0,
{
    reveal_strlit("[height<=");
    reveal_strlit("]");
    reveal_strlit("");
    reveal_strlit("2160");
    reveal_strlit("1440");
    reveal_strlit("1080");
    reveal_strlit("720");
    reveal_strlit("480");
    reveal_strlit("360");
    reveal_strlit("[height<=2160]");
    reveal_strlit("[height<=1440]");
    reveal_strlit("[height<=1080]");
    reveal_strlit("[height<=720]");
    reveal_strlit("[height<=480]");
    reveal_strlit("[height<=360]");
    if quality == "2160"@ {
        assert("[height<=2160]"@ =~= "[height<="@ + quality + "]"@);
    } else if quality == "1440"@ {
        assert("[height<=1440]"@ =~= "[height<="@ + quality + "]"@);
    } else if quality == "1080"@ {
        assert("[height<=1080]"@ =~= "[height<="@ + quality + "]"@);
    } else if quality == "720"@ {
        assert("[height<=720]"@ =~= "[height<="@ + quality + "]"@);
    } else if quality == "480"@ {
        assert("[height<=480]"@ =~= "[height<="@ + quality + "]"@);
    } else if quality == "360"@ {
        assert("[height<=360]"@ =~= "[height<="@ + quality + "]"@);
    }
}

/// The MP4 arguments, for every quality: 28 in all; after the 20 shared flags
/// come `-f` and the selector, which alone depends on the quality (mp4 video with
/// m4a audio, else any video with audio, else the best single file, each under
/// the height cap), then `--merge-output-format mp4`, metadata embedding, the
/// hardware-encoder post-processor arguments, and the URL.
pub proof fn lemma_mp4_args(
    url: Seq<char>,
    quality: Seq<char>,
    output_dir: Seq<char>,
    ffmpeg_path: Seq<char>,
)
    ensures
        yt_dlp_args(url, "mp4"@, quality, output_dir, ffmpeg_path).len() == 28,
        yt_dlp_args(url, "mp4"@, quality, output_dir, ffmpeg_path)[20] == "-f"@,
        yt_dlp_args(url, "mp4"@, quality, output_dir, ffmpeg_path)[21] == "bestvideo"@
            + height_filter(quality) + "[ext=mp4]+bestaudio[ext=m4a]/bestvideo"@ + height_filter(
            quality,
        ) + "+bestaudio/best"@ + height_filter(quality),
        yt_dlp_args(url, "mp4"@, quality, output_dir, ffmpeg_path)[22] == "--merge-output-format"@,
        yt_dlp_args(url, "mp4"@, quality, output_dir, ffmpeg_path)[23] == "mp4"@,
        yt_dlp_args(url, "mp4"@, quality, output_dir, ffmpeg_path)[24] == "--embed-metadata"@,
        yt_dlp_args(url, "mp4"@, quality, output_dir, ffmpeg_path)[25] == "--postprocessor-args"@,
        yt_dlp_args(url, "mp4"@, quality, output_dir, ffmpeg_path)[26]
            == "VideoConvertor:-c:v h264_videotoolbox -b:v 6M -c:a aac -b:a 192k"@,
        yt_dlp_args(url, "mp4"@, quality, output_dir, ffmpeg_path)[27] == url,
        forall|other: Seq<char>, i: int|
            0 <= i < 28 && i != 21 ==> #[trigger] yt_dlp_args(
                url,
                "mp4"@,
                other,
                output_dir,
                ffmpeg_path,
            )[i] == yt_dlp_args(url, "mp4"@, quality, output_dir, ffmpeg_path)[i],
{
    reveal_strlit("mp3");
    reveal_strlit("mp4");
    assert("mp4"@[2] != "mp3"@[2]);
}

/// The MP3 arguments, for every quality: 30 in all; after the 20 shared flags
/// come the audio-only selector, audio extraction to MP3 at VBR quality 2,
/// metadata and thumbnail embedding, and the URL. The quality plays no part.
pub proof fn lemma_mp3_args(
    url: Seq<char>,
    quality: Seq<char>,
    output_dir: Seq<char>,
    ffmpeg_path: Seq<char>,
)
    ensures
        yt_dlp_args(url, "mp3"@, quality, output_dir, ffmpeg_path).len() == 30,
        yt_dlp_args(url, "mp3"@, quality, output_dir, ffmpeg_path).subrange(20, 30) == seq![
            "-f"@,
            "bestaudio[ext=m4a]/bestaudio/best"@,
            "-x"@,
            "--audio-format"@,
            "mp3"@,
            "--audio-quality"@,
            "2"@,
            "--embed-metadata"@,
            "--embed-thumbnail"@,
            url,
        ],
        forall|other: Seq<char>|
            #[trigger] yt_dlp_args(url, "mp3"@, other, output_dir, ffmpeg_path) == yt_dlp_args(
                url,
                "mp3"@,
                quality,
                output_dir,
                ffmpeg_path,
            ),
{
    assert(yt_dlp_args(url, "mp3"@, quality, output_dir, ffmpeg_path).subrange(20, 30) =~= seq![
        "-f"@,
        "bestaudio[ext=m4a]/bestaudio/best"@,
        "-x"@,
        "--audio-format"@,
        "mp3"@,
        "--audio-quality"@,
        "2"@,
        "--embed-metadata"@,
        "--embed-thumbnail"@,
        url,
    ]);
}

/// The 20 flags that every conversion starts with, whatever its format and
/// quality: no playlist, no side files, one progress line per update in the
/// `RTPROG` template, the final path printed after moving with `RTDONE`, the
/// bundled ffmpeg, the output directory, the file name template, and four
/// concurrent fragments.
pub proof fn lemma_shared_flags(
    url: Seq<char>,
    format: Seq<char>,
    quality: Seq<char>,
    output_dir: Seq<char>,
    ffmpeg_path: Seq<char>,
)
    ensures
        yt_dlp_args(url, format, quality, output_dir, ffmpeg_path).len() >= 21,
        yt_dlp_args(url, format, quality, output_dir, ffmpeg_path).take(20) == seq![
            "--no-playlist"@,
            "--no-write-info-json"@,
            "--no-write-description"@,
            "--no-write-thumbnail"@,
            "--no-write-comments"@,
            "--newline"@,
            "--no-warnings"@,
            "--progress"@,
            "--progress-template"@,
            "RTPROG\t%(progress.status)s\t%(progress._percent_str)s\t%(progress._speed_str)s\t%(progress._eta_str)s\t%(progress.downloaded_bytes)s\t%(progress.total_bytes)s"@,
            "--print"@,
            "after_move:RTDONE\t%(filepath)s"@,
            "--ffmpeg-location"@,
            ffmpeg_path,
            "--paths"@,
            "home:"@ + output_dir,
            "--output"@,
            "%(title).200B [%(id)s].%(ext)s"@,
            "--concurrent-fragments"@,
            "4"@,
        ],
{
    reveal_strlit("RTPROG\t");
    reveal_strlit("RTDONE\t");
    reveal_strlit("after_move:");
    reveal_strlit("%(filepath)s");
    reveal_strlit("after_move:RTDONE\t%(filepath)s");
    reveal_strlit(
        "%(progress.status)s\t%(progress._percent_str)s\t%(progress._speed_str)s\t%(progress._eta_str)s\t%(progress.downloaded_bytes)s\t%(progress.total_bytes)s",
    );
    reveal_strlit(
        "RTPROG\t%(progress.status)s\t%(progress._percent_str)s\t%(progress._speed_str)s\t%(progress._eta_str)s\t%(progress.downloaded_bytes)s\t%(progress.total_bytes)s",
    );
    assert(PROGRESS_PREFIX@ + progress_template_fields() =~= "RTPROG\t%(progress.status)s\t%(progress._percent_str)s\t%(progress._speed_str)s\t%(progress._eta_str)s\t%(progress.downloaded_bytes)s\t%(progress.total_bytes)s"@);
    assert("after_move:"@ + DONE_PREFIX@ + "%(filepath)s"@ =~= "after_move:RTDONE\t%(filepath)s"@);
    let a = yt_dlp_args(url, format, quality, output_dir, ffmpeg_path);
    assert(a.take(20) =~= shared_args(output_dir, ffmpeg_path));
}

fn push_text(args: &mut Vec<String>, s: &str)
    ensures
        final(args).deep_view() == old(args).deep_view().push(s@),
{
    let ghost before = args.deep_view();
    args.push(String::from_str(s));
    assert(args.deep_view() =~= before.push(s@));
}

fn push_owned(args: &mut Vec<String>, s: String)
    ensures
        final(args).deep_view() == old(args).deep_view().push(s@),
{
    let ghost before = args.deep_view();
    let ghost v = s@;
    args.push(s);
    assert(args.deep_view() =~= before.push(v));
}

fn height_filter_text(quality: &str) -> (r: &'static str)
    ensures
        r@ == height_filter(quality@),
{
    if same_text(quality, "2160") {
        "[height<=2160]"
    } else if same_text(quality, "1440") {
        "[height<=1440]"
    } else if same_text(quality, "1080") {
        "[height<=1080]"
    } else if same_text(quality, "720") {
        "[height<=720]"
    } else if same_text(quality, "480") {
        "[height<=480]"
    } else if same_text(quality, "360") {
        "[height<=360]"
    } else {
        ""
    }
}

/// Builds the `yt-dlp` argument vector for a conversion: the shared flags (no
/// playlist, no side files, one progress line per update in the structured
/// template, the final path printed after moving, the bundled ffmpeg, the output
/// directory and file name template, four concurrent fragments), then the
/// format's flags, then the URL.
pub fn build_args(
    url: &str,
    format: &str,
    quality: &str,
    output_dir: &str,
    ffmpeg_path: &str,
) -> (r: Vec<String>)
    ensures
        r.deep_view() == yt_dlp_args(url@, format@, quality@, output_dir@, ffmpeg_path@),
{
    let mut args: Vec<String> = Vec::new();
    push_text(&mut args, "--no-playlist");
    push_text(&mut args, "--no-write-info-json");
    push_text(&mut args, "--no-write-description");
    push_text(&mut args, "--no-write-thumbnail");
    push_text(&mut args, "--no-write-comments");
    push_text(&mut args, "--newline");
    push_text(&mut args, "--no-warnings");
    push_text(&mut args, "--progress");
    push_text(&mut args, "--progress-template");
    push_owned(
        &mut args,
        String::from_str(PROGRESS_PREFIX).concat(
            "%(progress.status)s\t%(progress._percent_str)s\t%(progress._speed_str)s\t%(progress._eta_str)s\t%(progress.downloaded_bytes)s\t%(progress.total_bytes)s",
        ),
    );
    push_text(&mut args, "--print");
    push_owned(
        &mut args,
        String::from_str("after_move:").concat(DONE_PREFIX).concat("%(filepath)s"),
    );
    push_text(&mut args, "--ffmpeg-location");
    push_text(&mut args, ffmpeg_path);
    push_text(&mut args, "--paths");
    push_owned(&mut args, String::from_str("home:").concat(output_dir));
    push_text(&mut args, "--output");
    push_text(&mut args, "%(title).200B [%(id)s].%(ext)s");
    push_text(&mut args, "--concurrent-fragments");
    push_text(&mut args, "4");
    let ghost shared = args.deep_view();
    assert(shared =~= shared_args(output_dir@, ffmpeg_path@));

    if same_text(format, "mp3") {
        push_text(&mut args, "-f");
        push_text(&mut args, "bestaudio[ext=m4a]/bestaudio/best");
        push_text(&mut args, "-x");
        push_text(&mut args, "--audio-format");
        push_text(&mut args, "mp3");
        push_text(&mut args, "--audio-quality");
        push_text(&mut args, "2");
        push_text(&mut args, "--embed-metadata");
        push_text(&mut args, "--embed-thumbnail");
    } else if same_text(format, "mp4") {
        let h = height_filter_text(quality);
        let selector = String::from_str("bestvideo").concat(h).concat(
            "[ext=mp4]+bestaudio[ext=m4a]/bestvideo",
        ).concat(h).concat("+bestaudio/best").concat(h);
        push_text(&mut args, "-f");
        push_owned(&mut args, selector);
        push_text(&mut args, "--merge-output-format");
        push_text(&mut args, "mp4");
        push_text(&mut args, "--embed-metadata");
        push_text(&mut args, "--postprocessor-args");
        push_text(&mut args, "VideoConvertor:-c:v h264_videotoolbox -b:v 6M -c:a aac -b:a 192k");
    }
    assert(args.deep_view() =~= shared + format_args(format@, quality@));
    push_text(&mut args, url);
    assert(args.deep_view() =~= yt_dlp_args(url@, format@, quality@, output_dir@, ffmpeg_path@));
    args
}

/// The counter that job ids are drawn from; the first id is `job-1`.
#[derive(Debug)]
pub struct JobCounter {
    pub next: u64,
}

impl JobCounter {
    /// A counter whose first id is `job-1`.
    pub fn new() -> (r: JobCounter)
        ensures
            r.next == 1,
    {
        JobCounter { next: 1 }
    }
}

/// The id of the job numbered `n`.
pub open spec fn job_id_text(n: nat) -> Seq<char> {
    "job-"@ + decimal(n)
}

/// The counter after one draw: one up, wrapping at the top of `u64`.
pub open spec fn counter_step(n: u64) -> u64 {
    if n == u64::MAX {
        0
    } else {
        (n + 1) as u64
    }
}

/// The counter after `i` draws from `start`.
pub open spec fn counter_after(start: u64, i: nat) -> u64
    decreases i,
{
    if i == 0 {
        start
    } else {
        counter_step(counter_after(start, (i - 1) as nat))
    }
}

proof fn lemma_counter_after_one(i: nat)
    requires
        i < u64::MAX,
    ensures
        counter_after(1, i) == i + 1,
    decreases i,
{
    if i > 0 {
        lemma_counter_after_one((i - 1) as nat);
    }
}

/// Draws from a new counter: by [`next_job_id`]'s contract the draw numbered `i`
/// (from 0) gives `job_id_text(counter_after(1, i))`. Over `k < u64::MAX` draws,
/// the draw numbered `i` gives `job-<i+1>`, so the `k` ids are `job-1` to
/// `job-k`, each once.
pub proof fn lemma_draws_from_new_counter(k: nat)
    requires
        k < u64::MAX,
    ensures
        forall|i: nat| i < k ==> #[trigger] counter_after(1, i) == i + 1,
        forall|i: nat| i < k ==> job_id_text(#[trigger] counter_after(1, i) as nat) == job_id_text(i + 1),
        forall|i: nat, j: nat|
            i < j < k ==> job_id_text(#[trigger] counter_after(1, i) as nat) != job_id_text(
                #[trigger] counter_after(1, j) as nat,
            ),
{
    assert forall|i: nat| i < k implies #[trigger] counter_after(1, i) == i + 1 by {
        lemma_counter_after_one(i);
    }
    assert forall|i: nat, j: nat| i < j < k implies job_id_text(
        #[trigger] counter_after(1, i) as nat,
    ) != job_id_text(#[trigger] counter_after(1, j) as nat) by {
        lemma_counter_after_one(i);
        lemma_counter_after_one(j);
        lemma_job_ids_distinct(i + 1, j + 1);
    }
}

/// A drawn id is fresh: when every job in the table has the id of a number below
/// the counter, the table holds no job with the id the counter gives next.
pub proof fn lemma_drawn_id_fresh<C>(s: Seq<(Seq<char>, C)>, next: nat)
    requires
        forall|i: int|
            0 <= i < s.len() ==> exists|m: nat| m < next && #[trigger] s[i].0 == job_id_text(m),
    ensures
        !has_job(s, job_id_text(next)),
{
    if has_job(s, job_id_text(next)) {
        let i = choose|i: int| 0 <= i < s.len() && #[trigger] s[i].0 == job_id_text(next);
        let m = choose|m: nat| m < next && #[trigger] s[i].0 == job_id_text(m);
        lemma_job_ids_distinct(m, next);
    }
}

/// Different numbers give different job ids, so the ids drawn from a counter are
/// fresh until it wraps around.
pub proof fn lemma_job_ids_distinct(a: nat, b: nat)
    requires
        a != b,
    ensures
        job_id_text(a) != job_id_text(b),
{
    if job_id_text(a) == job_id_text(b) {
        assert(job_id_text(a).skip("job-"@.len() as int) =~= decimal(a));
        assert(job_id_text(b).skip("job-"@.len() as int) =~= decimal(b));
        lemma_decimal_injective(a, b);
    }
}

/// Draws a fresh job id, `job-<n>`, and advances the counter (wrapping at the
/// top of `u64`, as an atomic `fetch_add` does).
pub fn next_job_id(counter: &mut JobCounter) -> (r: String)
    ensures
        r@ == job_id_text(old(counter).next as nat),
        final(counter).next == counter_step(old(counter).next),
{
    let n = counter.next;
    counter.next = n.wrapping_add(1);
    let mut id = String::from_str("job-");
    push_decimal(&mut id, n);
    id
}

} // verus!
