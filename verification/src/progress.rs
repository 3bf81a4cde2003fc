//! Reading `yt-dlp`'s standard output: the structured progress lines that the
//! progress template asks for, and the informational lines of its post-processors.

use vstd::prelude::*;

use crate::text::{
    lemma_split_on_concat, lemma_split_on_without_sep, lemma_trimmed_idempotent, has_prefix, same_text, split, split_on, starts_with, strip_prefix, trim, trim_end_char,
    trim_end_matches, trimmed,
};

verus! {

/// One progress update for a conversion job.
///
/// `percent` holds the percentage as `yt-dlp` printed it, with the `%` sign and
/// surrounding blanks removed; it is read as a number where the event is shown.
#[derive(Debug, Clone, PartialEq, Eq)]
pub struct ProgressEvent {
    pub job_id: String,
    pub stage: String,
    pub percent: Option<String>,
    pub speed: Option<String>,
    pub eta: Option<String>,
    pub message: Option<String>,
}

/// The content of a [`ProgressEvent`].
pub struct ProgressView {
    pub job_id: Seq<char>,
    pub stage: Seq<char>,
    pub percent: Option<Seq<char>>,
    pub speed: Option<Seq<char>>,
    pub eta: Option<Seq<char>>,
    pub message: Option<Seq<char>>,
}

impl View for ProgressEvent {
    type V = ProgressView;

    open spec fn view(&self) -> ProgressView {
        ProgressView {
            job_id: self.job_id@,
            stage: self.stage@,
            percent: self.percent.deep_view(),
            speed: self.speed.deep_view(),
            eta: self.eta.deep_view(),
            message: self.message.deep_view(),
        }
    }
}

/// The view of an optional event.
pub open spec fn event_opt_view(e: Option<ProgressEvent>) -> Option<ProgressView> {
    match e {
        Some(ev) => Some(ev@),
        None => None,
    }
}

/// The start of every structured progress line (set through `--progress-template`).
pub const PROGRESS_PREFIX: &'static str = "RTPROG\t";

/// The start of the line that carries the final file path (set through `--print after_move:`).
pub const DONE_PREFIX: &'static str = "RTDONE\t";

/// A field value with blanks removed, or nothing when it is empty or a placeholder.
pub open spec fn cleaned(s: Option<Seq<char>>) -> Option<Seq<char>> {
    match s {
        None => None,
        Some(v) => {
            let t = trimmed(v);
            if t.len() == 0 || t == "NA"@ || t == "Unknown"@ {
                None
            } else {
                Some(t)
            }
        },
    }
}

/// The numeric text of a percentage field: blanks and the trailing `%` removed,
/// nothing when what is left is empty or `NA`.
pub open spec fn percent_text(s: Seq<char>) -> Option<Seq<char>> {
    let c = trimmed(trim_end_char(trimmed(s), '%'));
    if c.len() == 0 || c == "NA"@ {
        None
    } else {
        Some(c)
    }
}

/// The stage that a `yt-dlp` download status is reported as.
pub open spec fn stage_of(status: Seq<char>) -> Seq<char> {
    if status == "downloading"@ {
        "downloading"@
    } else if status == "finished"@ {
        "downloaded"@
    } else if status == "error"@ {
        "error"@
    } else {
        "downloading"@
    }
}

/// The event that a structured progress line stands for, if it is one.
pub open spec fn progress_line_event(job_id: Seq<char>, line: Seq<char>) -> Option<ProgressView> {
    if !has_prefix(line, PROGRESS_PREFIX@) {
        None
    } else {
        let parts = split_on(line.skip(PROGRESS_PREFIX@.len() as int), '\t');
        Some(
            ProgressView {
                job_id,
                stage: stage_of(trimmed(parts[0])),
                percent: percent_text(
                    if parts.len() > 1 {
                        parts[1]
                    } else {
                        Seq::<char>::empty()
                    },
                ),
                speed: cleaned(
                    if parts.len() > 2 {
                        Some(trimmed(parts[2]))
                    } else {
                        None
                    },
                ),
                eta: cleaned(
                    if parts.len() > 3 {
                        Some(trimmed(parts[3]))
                    } else {
                        None
                    },
                ),
                message: None,
            },
        )
    }
}

/// Whether a trimmed informational line comes from a post-processing step worth showing.
pub open spec fn is_postprocessing_line(t: Seq<char>) -> bool {
    ||| has_prefix(t, "[ExtractAudio]"@)
    ||| has_prefix(t, "[Merger]"@)
    ||| has_prefix(t, "[ffmpeg]"@)
    ||| has_prefix(t, "[EmbedThumbnail]"@)
    ||| has_prefix(t, "[Metadata]"@)
    ||| has_prefix(t, "[Fixup"@)
}

/// The post-processing event that an informational line stands for, if any.
pub open spec fn info_line_event(job_id: Seq<char>, line: Seq<char>) -> Option<ProgressView> {
    let t = trimmed(line);
    if t.len() == 0 || !is_postprocessing_line(t) {
        None
    } else {
        Some(
            ProgressView {
                job_id,
                stage: "postprocessing"@,
                percent: None,
                speed: None,
                eta: None,
                message: Some(t),
            },
        )
    }
}

/// Cleaning is idempotent, and what it keeps is never blank nor a placeholder.
pub proof fn lemma_cleaned_idempotent(s: Option<Seq<char>>)
    ensures
        cleaned(cleaned(s)) == cleaned(s),
        cleaned(s) matches Some(t) ==> t.len() > 0 && t != "NA"@ && t != "Unknown"@,
{
    if let Some(v) = s {
        lemma_trimmed_idempotent(v);
    }
}

/// What cleaning keeps: nothing of nothing; of a value, the value without
/// surrounding blanks, unless that is empty, `NA` or `Unknown`.
pub proof fn lemma_clean_values(v: Seq<char>)
    ensures
        cleaned(None) == None::<Seq<char>>,
        (trimmed(v).len() == 0 || trimmed(v) == "NA"@ || trimmed(v) == "Unknown"@) ==> cleaned(
            Some(v),
        ) == None::<Seq<char>>,
        !(trimmed(v).len() == 0 || trimmed(v) == "NA"@ || trimmed(v) == "Unknown"@) ==> cleaned(
            Some(v),
        ) == Some(trimmed(v)),
{
}

/// Only structured progress lines are read as progress: a line is an event
/// exactly when it starts with [`PROGRESS_PREFIX`].
pub proof fn lemma_progress_lines_only(job_id: Seq<char>, line: Seq<char>)
    ensures
        progress_line_event(job_id, line) is Some <==> has_prefix(line, PROGRESS_PREFIX@),
{
}

/// Post-processing lines are reported, and only they: a line whose trimmed text
/// begins with `[ExtractAudio]`, `[Merger]`, `[ffmpeg]`, `[EmbedThumbnail]`,
/// `[Metadata]` or `[Fixup` is a `postprocessing` event for the job, with no
/// figures and the trimmed line as its message; any other line is no event.
pub proof fn lemma_postprocessing_lines(job_id: Seq<char>, line: Seq<char>)
    ensures
        (has_prefix(trimmed(line), "[ExtractAudio]"@) || has_prefix(trimmed(line), "[Merger]"@)
            || has_prefix(trimmed(line), "[ffmpeg]"@) || has_prefix(
            trimmed(line),
            "[EmbedThumbnail]"@,
        ) || has_prefix(trimmed(line), "[Metadata]"@) || has_prefix(trimmed(line), "[Fixup"@))
            ==> (info_line_event(job_id, line) == Some(
            ProgressView {
                job_id,
                stage: "postprocessing"@,
                percent: None,
                speed: None,
                eta: None,
                message: Some(trimmed(line)),
            },
        )),
        !(has_prefix(trimmed(line), "[ExtractAudio]"@) || has_prefix(trimmed(line), "[Merger]"@)
            || has_prefix(trimmed(line), "[ffmpeg]"@) || has_prefix(
            trimmed(line),
            "[EmbedThumbnail]"@,
        ) || has_prefix(trimmed(line), "[Metadata]"@) || has_prefix(trimmed(line), "[Fixup"@))
            ==> (info_line_event(job_id, line) is None),
{
    reveal_strlit("[ExtractAudio]");
    reveal_strlit("[Merger]");
    reveal_strlit("[ffmpeg]");
    reveal_strlit("[EmbedThumbnail]");
    reveal_strlit("[Metadata]");
    reveal_strlit("[Fixup");
}

/// How a structured progress line reads, field by field: for a line made of
/// [`PROGRESS_PREFIX`] and the status, percentage, speed and time-left fields
/// separated by tabs, the event is for the job; its stage is `downloaded` for the
/// status `finished`, `error` for `error` and `downloading` for anything else;
/// its percentage is the field without blanks and `%` signs, none when that is
/// empty or `NA`; its speed and time left are the fields without blanks, none
/// when empty, `NA` or `Unknown`; it has no message.
pub proof fn lemma_progress_line_fields(
    job_id: Seq<char>,
    line: Seq<char>,
    status: Seq<char>,
    pct: Seq<char>,
    speed: Seq<char>,
    eta: Seq<char>,
)
    requires
        line == PROGRESS_PREFIX@ + status + seq!['\t'] + pct + seq!['\t'] + speed + seq!['\t']
            + eta,
        !status.contains('\t'),
        !pct.contains('\t'),
        !speed.contains('\t'),
        !eta.contains('\t'),
    ensures
        progress_line_event(job_id, line) is Some,
        progress_line_event(job_id, line)->0.job_id == job_id,
        trimmed(status) == "finished"@ ==> progress_line_event(job_id, line)->0.stage
            == "downloaded"@,
        trimmed(status) == "error"@ ==> progress_line_event(job_id, line)->0.stage == "error"@,
        trimmed(status) != "finished"@ && trimmed(status) != "error"@ ==> progress_line_event(
            job_id,
            line,
        )->0.stage == "downloading"@,
        (trimmed(trim_end_char(trimmed(pct), '%')).len() == 0 || trimmed(
            trim_end_char(trimmed(pct), '%'),
        ) == "NA"@) ==> progress_line_event(job_id, line)->0.percent is None,
        !(trimmed(trim_end_char(trimmed(pct), '%')).len() == 0 || trimmed(
            trim_end_char(trimmed(pct), '%'),
        ) == "NA"@) ==> progress_line_event(job_id, line)->0.percent == Some(
            trimmed(trim_end_char(trimmed(pct), '%')),
        ),
        (trimmed(speed).len() == 0 || trimmed(speed) == "NA"@ || trimmed(speed) == "Unknown"@)
            ==> progress_line_event(job_id, line)->0.speed is None,
        !(trimmed(speed).len() == 0 || trimmed(speed) == "NA"@ || trimmed(speed) == "Unknown"@)
            ==> progress_line_event(job_id, line)->0.speed == Some(trimmed(speed)),
        (trimmed(eta).len() == 0 || trimmed(eta) == "NA"@ || trimmed(eta) == "Unknown"@)
            ==> progress_line_event(job_id, line)->0.eta is None,
        !(trimmed(eta).len() == 0 || trimmed(eta) == "NA"@ || trimmed(eta) == "Unknown"@)
            ==> progress_line_event(job_id, line)->0.eta == Some(trimmed(eta)),
        progress_line_event(job_id, line)->0.message is None,
{
    let p = PROGRESS_PREFIX@;
    let tab = seq!['\t'];
    let a = status + tab + pct;
    let b = a + tab + speed;
    let rest = b + tab + eta;
    assert(line =~= p + rest);
    assert(line.take(p.len() as int) =~= p);
    assert(line.skip(p.len() as int) =~= rest);
    lemma_split_on_without_sep(status, '\t');
    lemma_split_on_without_sep(pct, '\t');
    lemma_split_on_without_sep(speed, '\t');
    lemma_split_on_without_sep(eta, '\t');
    lemma_split_on_concat(status, pct, '\t');
    lemma_split_on_concat(a, speed, '\t');
    lemma_split_on_concat(b, eta, '\t');
    assert(split_on(rest, '\t') =~= seq![status, pct, speed, eta]);
    lemma_trimmed_idempotent(speed);
    lemma_trimmed_idempotent(eta);
    reveal_strlit("finished");
    reveal_strlit("downloading");
    reveal_strlit("error");
    assert("finished"@.len() != "downloading"@.len());
    assert("error"@.len() != "downloading"@.len());
    assert("error"@.len() != "finished"@.len());
}

/// Removes blanks around a field value; `None` for an empty value and for the
/// placeholders `NA` and `Unknown` that `yt-dlp` prints when it has no figure.
pub fn clean(s: Option<String>) -> (r: Option<String>)
    ensures
        r.deep_view() == cleaned(s.deep_view()),
{
    match s {
        None => None,
        Some(v) => {
            let t = trim(v.as_str());
            if t.unicode_len() == 0 || same_text(t, "NA") || same_text(t, "Unknown") {
                None
            } else {
                Some(String::from_str(t))
            }
        },
    }
}

/// The numeric text of a percentage field such as ` 42.5%`; `None` when it is
/// empty or `NA`.
pub fn parse_percent(s: &str) -> (r: Option<String>)
    ensures
        r.deep_view() == percent_text(s@),
{
    let c = trim(trim_end_matches(trim(s), '%'));
    if c.unicode_len() == 0 || same_text(c, "NA") {
        None
    } else {
        Some(String::from_str(c))
    }
}

fn stage_name(status: &str) -> (r: String)
    ensures
        r@ == stage_of(status@),
{
    if same_text(status, "downloading") {
        String::from_str("downloading")
    } else if same_text(status, "finished") {
        String::from_str("downloaded")
    } else if same_text(status, "error") {
        String::from_str("error")
    } else {
        String::from_str("downloading")
    }
}

/// Parses a structured `RTPROG\t...` progress line of job `job_id` into an event.
/// Returns `None` exactly for lines that do not start with [`PROGRESS_PREFIX`].
pub fn parse_progress_line(job_id: &str, line: &str) -> (r: Option<ProgressEvent>)
    ensures
        event_opt_view(r) == progress_line_event(job_id@, line@),
{
    let rest = match strip_prefix(line, PROGRESS_PREFIX) {
        Some(rest) => rest,
        None => return None,
    };
    let parts = split(rest, '\t');
    let status = trim(parts[0]);
    let percent_raw: &str = if parts.len() > 1 {
        parts[1]
    } else {
        proof { reveal_strlit(""); }
        ""
    };
    let speed = if parts.len() > 2 {
        Some(String::from_str(trim(parts[2])))
    } else {
        None
    };
    let eta = if parts.len() > 3 {
        Some(String::from_str(trim(parts[3])))
    } else {
        None
    };
    let percent = parse_percent(percent_raw);
    let stage = stage_name(status);
    assert(percent_raw@ == (if parts.len() > 1 {
        split_on(line@.skip(PROGRESS_PREFIX@.len() as int), '\t')[1]
    } else {
        Seq::<char>::empty()
    }));
    Some(
        ProgressEvent {
            job_id: String::from_str(job_id),
            stage,
            percent,
            speed: clean(speed),
            eta: clean(eta),
            message: None,
        },
    )
}

/// Turns an informational `yt-dlp` line from a post-processing step (audio
/// extraction, merging, ffmpeg, thumbnail or metadata embedding, fix-ups) into a
/// `postprocessing` event carrying the trimmed line; `None` for any other line.
pub fn classify_info_line(job_id: &str, line: &str) -> (r: Option<ProgressEvent>)
    ensures
        event_opt_view(r) == info_line_event(job_id@, line@),
{
    let t = trim(line);
    if t.unicode_len() == 0 {
        return None;
    }
    let interesting = starts_with(t, "[ExtractAudio]") || starts_with(t, "[Merger]")
        || starts_with(t, "[ffmpeg]") || starts_with(t, "[EmbedThumbnail]") || starts_with(
        t,
        "[Metadata]",
    ) || starts_with(t, "[Fixup");
    if !interesting {
        return None;
    }
    Some(
        ProgressEvent {
            job_id: String::from_str(job_id),
            stage: String::from_str("postprocessing"),
            percent: None,
            speed: None,
            eta: None,
            message: Some(String::from_str(t)),
        },
    )
}

} // verus!
