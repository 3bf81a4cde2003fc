//! Following a running `yt-dlp` job: what each piece of its output means, the
//! bounded tail of its error output, and how its end is reported.

use vstd::prelude::*;

use crate::conversion::{ConversionCancelled, ConversionComplete, ConversionError};
use crate::jobs::{
    has_job, job_value, lemma_cancel_idempotent, lemma_insert_then_remove,
    lemma_without_leaves_no_job, with_job, without_job,
};
use crate::progress::{
    classify_info_line, info_line_event, parse_progress_line, progress_line_event, ProgressEvent,
    ProgressView, DONE_PREFIX, PROGRESS_PREFIX,
};
use crate::text::{
    decimal, lemma_joined_ends, lemma_split_joined_lines, lemma_split_on_without_sep, trim_end,
    trim_start, lemma_split_on_concat, has_prefix, join, joined, push_signed_decimal, signed_decimal, split, split_on, starts_with,
    strip_prefix, trim, trim_end_char, trim_end_matches, trimmed,
};

verus! {

/// The most error-output lines that are kept for the failure message.
pub const STDERR_TAIL_LIMIT: usize = 8;

/// What one line of standard output does.
pub enum LineEffect {
    /// Nothing to report.
    Nothing,
    /// The final path of the converted file.
    Path(Seq<char>),
    /// A progress event to report.
    Event(ProgressView),
}

/// What one line of standard output does, once trailing carriage returns are gone:
/// an `RTDONE` line with a non-blank path records the path, an `RTPROG` line is a
/// progress event, and any other line may be a post-processing event.
pub open spec fn line_effect(job_id: Seq<char>, raw_line: Seq<char>) -> LineEffect {
    let line = trim_end_char(raw_line, '\r');
    if line.len() == 0 {
        LineEffect::Nothing
    } else if has_prefix(line, DONE_PREFIX@) {
        let path = trimmed(line.skip(DONE_PREFIX@.len() as int));
        if path.len() == 0 {
            LineEffect::Nothing
        } else {
            LineEffect::Path(path)
        }
    } else if has_prefix(line, PROGRESS_PREFIX@) {
        match progress_line_event(job_id, line) {
            Some(e) => LineEffect::Event(e),
            None => LineEffect::Nothing,
        }
    } else {
        match info_line_event(job_id, line) {
            Some(e) => LineEffect::Event(e),
            None => LineEffect::Nothing,
        }
    }
}

/// The events that the lines report, in order.
pub open spec fn line_events(job_id: Seq<char>, lines: Seq<Seq<char>>) -> Seq<ProgressView>
    decreases lines.len(),
{
    if lines.len() == 0 {
        Seq::<ProgressView>::empty()
    } else {
        let before = line_events(job_id, lines.drop_last());
        match line_effect(job_id, lines.last()) {
            LineEffect::Event(e) => before.push(e),
            _ => before,
        }
    }
}

/// The final path after the lines: the last one they record, else `start`.
pub open spec fn path_after_lines(
    job_id: Seq<char>,
    lines: Seq<Seq<char>>,
    start: Option<Seq<char>>,
) -> Option<Seq<char>>
    decreases lines.len(),
{
    if lines.len() == 0 {
        start
    } else {
        match line_effect(job_id, lines.last()) {
            LineEffect::Path(p) => Some(p),
            _ => path_after_lines(job_id, lines.drop_last(), start),
        }
    }
}

proof fn lemma_lines_concat(job_id: Seq<char>, l1: Seq<Seq<char>>, l2: Seq<Seq<char>>, start: Option<Seq<char>>)
    ensures
        line_events(job_id, l1 + l2) == line_events(job_id, l1) + line_events(job_id, l2),
        path_after_lines(job_id, l1 + l2, start) == path_after_lines(
            job_id,
            l2,
            path_after_lines(job_id, l1, start),
        ),
    decreases l2.len(),
{
    if l2.len() == 0 {
        assert(l1 + l2 =~= l1);
        assert(line_events(job_id, l1) + line_events(job_id, l2) =~= line_events(job_id, l1));
    } else {
        lemma_lines_concat(job_id, l1, l2.drop_last(), start);
        assert((l1 + l2).drop_last() =~= l1 + l2.drop_last());
        assert((l1 + l2).last() == l2.last());
        let a = line_events(job_id, l1);
        let b = line_events(job_id, l2.drop_last());
        match line_effect(job_id, l2.last()) {
            LineEffect::Event(e) => {
                assert((a + b).push(e) =~= a + b.push(e));
            },
            _ => {},
        }
    }
}

/// Output may arrive in chunks that hold several lines: a chunk made of `a`, a
/// newline and `b` reports the events of `a` and then those of `b`, and leaves the
/// final path as handling `a` and then `b` would.
pub proof fn lemma_chunk_at_newline(
    job_id: Seq<char>,
    a: Seq<char>,
    b: Seq<char>,
    start: Option<Seq<char>>,
)
    ensures
        line_events(job_id, split_on(a + seq!['\n'] + b, '\n')) == line_events(
            job_id,
            split_on(a, '\n'),
        ) + line_events(job_id, split_on(b, '\n')),
        path_after_lines(job_id, split_on(a + seq!['\n'] + b, '\n'), start) == path_after_lines(
            job_id,
            split_on(b, '\n'),
            path_after_lines(job_id, split_on(a, '\n'), start),
        ),
{
    lemma_split_on_concat(a, b, '\n');
    lemma_lines_concat(job_id, split_on(a, '\n'), split_on(b, '\n'), start);
}

/// An `RTDONE` line records its whole path: for a path text `p` with no line
/// break in it and not blank, output made of [`DONE_PREFIX`] and `p` (with or
/// without a closing newline) reports no event and leaves the final path as
/// `p` with its surrounding blanks removed, inner spaces kept.
pub proof fn lemma_done_line_records_path(job_id: Seq<char>, p: Seq<char>, start: Option<Seq<char>>)
    requires
        !p.contains('\n'),
        !p.contains('\r'),
        trimmed(p).len() > 0,
    ensures
        path_after_lines(job_id, split_on(DONE_PREFIX@ + p, '\n'), start) == Some(trimmed(p)),
        line_events(job_id, split_on(DONE_PREFIX@ + p, '\n')).len() == 0,
        path_after_lines(job_id, split_on(DONE_PREFIX@ + p + seq!['\n'], '\n'), start) == Some(
            trimmed(p),
        ),
        line_events(job_id, split_on(DONE_PREFIX@ + p + seq!['\n'], '\n')).len() == 0,
{
    reveal_strlit("RTDONE\t");
    let d = DONE_PREFIX@;
    let line = d + p;
    assert(p.len() > 0) by {
        if p.len() == 0 {
            assert(trim_start(p) == p);
            assert(trim_end(p) == p);
        }
    }
    assert(!line.contains('\n')) by {
        if line.contains('\n') {
            let i = choose|i: int| 0 <= i < line.len() && line[i] == '\n';
            if i >= d.len() {
                assert(p[i - d.len()] == '\n');
            }
        }
    }
    assert(line.last() == p[p.len() - 1]);
    assert(trim_end_char(line, '\r') == line);
    assert(line.take(d.len() as int) =~= d);
    assert(line.skip(d.len() as int) =~= p);
    assert(line_effect(job_id, line) == LineEffect::Path(trimmed(p)));
    lemma_split_on_without_sep(line, '\n');
    let ls = split_on(line, '\n');
    assert(ls.drop_last() =~= Seq::<Seq<char>>::empty());
    lemma_split_on_concat(line, Seq::<char>::empty(), '\n');
    assert(line + seq!['\n'] + Seq::<char>::empty() =~= line + seq!['\n']);
    let ls2 = split_on(line + seq!['\n'], '\n');
    assert(ls2 =~= seq![line, Seq::<char>::empty()]);
    assert(ls2.drop_last() =~= ls);
    assert(trim_end_char(Seq::<char>::empty(), '\r') == Seq::<char>::empty());
    assert(line_effect(job_id, Seq::<char>::empty()) == LineEffect::Nothing);
    assert(line_events(job_id, Seq::<Seq<char>>::empty()).len() == 0);
    assert(line_events(job_id, ls) == line_events(job_id, ls.drop_last()));
    assert(line_events(job_id, ls).len() == 0);
    assert(line_events(job_id, ls2) == line_events(job_id, ls2.drop_last()));
}

/// A structured progress line is reported as its progress event and nothing
/// else: for a line starting with [`PROGRESS_PREFIX`], with no line break in
/// it, the output reports exactly the event that the line reads as, and the final
/// path is left as it was.
pub proof fn lemma_progress_line_reported(job_id: Seq<char>, line: Seq<char>, start: Option<
    Seq<char>,
>)
    requires
        has_prefix(line, PROGRESS_PREFIX@),
        !line.contains('\n'),
        !line.contains('\r'),
    ensures
        line_events(job_id, split_on(line, '\n')) == seq![
            progress_line_event(job_id, line)->0,
        ],
        path_after_lines(job_id, split_on(line, '\n'), start) == start,
{
    reveal_strlit("RTDONE\t");
    reveal_strlit("RTPROG\t");
    assert(line.len() > 0);
    assert(line.last() == line[line.len() - 1]);
    assert(line.last() != '\r');
    assert(trim_end_char(line, '\r') == line);
    assert(line.take(PROGRESS_PREFIX@.len() as int)[2] == line[2]);
    assert(line[2] == 'P');
    assert(!has_prefix(line, DONE_PREFIX@)) by {
        if has_prefix(line, DONE_PREFIX@) {
            assert(line.take(DONE_PREFIX@.len() as int)[2] == line[2]);
        }
    }
    assert(line_effect(job_id, line) == LineEffect::Event(progress_line_event(job_id, line)->0));
    lemma_split_on_without_sep(line, '\n');
    let ls = split_on(line, '\n');
    assert(ls.drop_last() =~= Seq::<Seq<char>>::empty());
    assert(line_events(job_id, Seq::<Seq<char>>::empty()).len() == 0);
    assert(line_events(job_id, ls) =~= seq![progress_line_event(job_id, line)->0]);
    assert(path_after_lines(job_id, ls, start) == path_after_lines(job_id, ls.drop_last(), start));
}

/// The views of a sequence of events.
pub open spec fn events_view(v: Seq<ProgressEvent>) -> Seq<ProgressView> {
    v.map_values(|e: ProgressEvent| e@)
}

fn line_effect_exec(job_id: &str, raw_line: &str) -> (r: (Option<String>, Option<ProgressEvent>))
    ensures
        match line_effect(job_id@, raw_line@) {
            LineEffect::Nothing => r.0 is None && r.1 is None,
            LineEffect::Path(p) => r.0.deep_view() == Some(p) && r.1 is None,
            LineEffect::Event(e) => r.0 is None && (r.1 matches Some(ev) && ev@ == e),
        },
{
    let line = trim_end_matches(raw_line, '\r');
    if line.unicode_len() == 0 {
        return (None, None);
    }
    if let Some(rest) = strip_prefix(line, DONE_PREFIX) {
        let path = trim(rest);
        if path.unicode_len() == 0 {
            (None, None)
        } else {
            (Some(String::from_str(path)), None)
        }
    } else if starts_with(line, PROGRESS_PREFIX) {
        (None, parse_progress_line(job_id, line))
    } else {
        (None, classify_info_line(job_id, line))
    }
}

/// Handles one chunk read from `yt-dlp`'s standard output, which may hold several
/// lines: splits it at every newline and drops trailing carriage returns, records
/// the final path from an `RTDONE` line in `final_path`, and gives back, in
/// order, the progress events of the `RTPROG` lines and of the post-processing
/// lines.
pub fn handle_stdout_line(job_id: &str, raw: &str, final_path: &mut Option<String>) -> (r: Vec<
    ProgressEvent,
>)
    ensures
        events_view(r@) == line_events(job_id@, split_on(raw@, '\n')),
        final(final_path).deep_view() == path_after_lines(
            job_id@,
            split_on(raw@, '\n'),
            old(final_path).deep_view(),
        ),
{
    let lines = split(raw, '\n');
    let ghost ls = lines.deep_view();
    let ghost start = final_path.deep_view();
    let mut out: Vec<ProgressEvent> = Vec::new();
    let mut i: usize = 0;
    assert(ls.take(0) =~= Seq::<Seq<char>>::empty());
    assert(events_view(out@) =~= Seq::<ProgressView>::empty());
    while i < lines.len()
        invariant
            ls == lines.deep_view(),
            i <= lines.len(),
            events_view(out@) == line_events(job_id@, ls.take(i as int)),
            final_path.deep_view() == path_after_lines(job_id@, ls.take(i as int), start),
        decreases lines.len() - i,
    {
        proof {
            assert(ls.take(i + 1).drop_last() =~= ls.take(i as int));
            assert(ls.take(i + 1).last() == lines[i as int]@);
        }
        let (path, event) = line_effect_exec(job_id, lines[i]);
        let ghost before = out@;
        if let Some(p) = path {
            *final_path = Some(p);
        }
        if let Some(ev) = event {
            out.push(ev);
            assert(events_view(out@) =~= events_view(before).push(out@.last()@));
        }
        i = i + 1;
    }
    assert(ls.take(lines.len() as int) =~= ls);
    out
}

/// The error-output tail after one more line: the trimmed line is appended unless
/// it is blank, and when that makes the tail longer than the limit, its oldest
/// line is dropped.
pub open spec fn tail_after_stderr(tail: Seq<Seq<char>>, line: Seq<char>) -> Seq<Seq<char>> {
    let t = trimmed(line);
    if t.len() == 0 {
        tail
    } else if tail.push(t).len() > STDERR_TAIL_LIMIT {
        tail.push(t).drop_first()
    } else {
        tail.push(t)
    }
}

/// The error-output tail stays bounded: a tail within the limit is still within
/// it after another line, and a non-blank line becomes its newest entry. Below 8
/// lines nothing is dropped; at 8 or more exactly the oldest line is dropped.
pub proof fn lemma_stderr_tail_bounded(tail: Seq<Seq<char>>, line: Seq<char>)
    ensures
        trimmed(line).len() > 0 && tail.len() < 8 ==> tail_after_stderr(tail, line) == tail.push(
            trimmed(line),
        ),
        trimmed(line).len() > 0 && tail.len() >= 8 ==> tail_after_stderr(tail, line)
            == tail.subrange(1, tail.len() as int).push(trimmed(line)),
        tail.len() <= STDERR_TAIL_LIMIT ==> tail_after_stderr(tail, line).len()
            <= STDERR_TAIL_LIMIT,
        trimmed(line).len() > 0 ==> tail_after_stderr(tail, line).last() == trimmed(line),
        trimmed(line).len() == 0 ==> tail_after_stderr(tail, line) == tail,
{
    if trimmed(line).len() > 0 && tail.len() >= 8 {
        assert(tail.push(trimmed(line)).drop_first() =~= tail.subrange(1, tail.len() as int).push(
            trimmed(line),
        ));
    }
}

/// Records one line of `yt-dlp`'s error output in the bounded tail that the
/// failure message is made of.
pub fn push_stderr_line(tail: &mut Vec<String>, line: &str)
    ensures
        final(tail).deep_view() == tail_after_stderr(old(tail).deep_view(), line@),
{
    let t = trim(line);
    if t.unicode_len() == 0 {
        return;
    }
    let ghost before = tail.deep_view();
    tail.push(String::from_str(t));
    assert(tail.deep_view() =~= before.push(t@));
    if tail.len() > STDERR_TAIL_LIMIT {
        let ghost full = tail.deep_view();
        tail.remove(0);
        assert(tail.deep_view() =~= full.drop_first());
    }
}

/// The line recorded for a failure of the subprocess itself.
pub open spec fn subprocess_error_line(err: Seq<char>) -> Seq<char> {
    "subprocess error: "@ + err
}

/// Records a failure of the subprocess itself in the error tail. Unlike error
/// output, this line is kept however long the tail is.
pub fn push_subprocess_error(tail: &mut Vec<String>, err: &str)
    ensures
        final(tail).deep_view() == old(tail).deep_view().push(subprocess_error_line(err@)),
{
    let ghost before = tail.deep_view();
    tail.push(String::from_str("subprocess error: ").concat(err));
    assert(tail.deep_view() =~= before.push(subprocess_error_line(err@)));
}

/// How the end of a job is reported.
#[derive(Debug, Clone, PartialEq, Eq)]
pub enum TerminationOutcome {
    /// The job had been cancelled: its cancellation is reported now, in place of
    /// a completion or a failure.
    Cancelled(ConversionCancelled),
    /// The job succeeded: a last progress event, then the completion.
    Completed { progress: ProgressEvent, complete: ConversionComplete },
    /// The job failed.
    Failed(ConversionError),
}

/// The exit code, with -1 standing for a process that ended without one.
pub open spec fn exit_code(code: Option<i32>) -> int {
    match code {
        Some(c) => c as int,
        None => -1,
    }
}

/// The last progress event of a successful job.
pub open spec fn finished_event(job_id: Seq<char>) -> ProgressView {
    ProgressView {
        job_id,
        stage: "finished"@,
        percent: Some("100"@),
        speed: None,
        eta: None,
        message: Some("Done"@),
    }
}

/// The message of a failed job: its error-output tail, one line each, or, when
/// there is none, its exit code.
pub open spec fn failure_message(code: Option<i32>, tail: Seq<Seq<char>>) -> Seq<char> {
    if tail.len() == 0 {
        "yt-dlp exited with code "@ + signed_decimal(exit_code(code))
    } else {
        joined(tail, "\n"@)
    }
}

/// The content of an end report.
pub enum EndReport {
    Cancelled { job_id: Seq<char> },
    Completed { progress: ProgressView, job_id: Seq<char>, file_path: Option<Seq<char>> },
    Failed { job_id: Seq<char>, message: Seq<char> },
}

/// The content of a [`TerminationOutcome`].
pub open spec fn outcome_report(r: TerminationOutcome) -> EndReport {
    match r {
        TerminationOutcome::Cancelled(c) => EndReport::Cancelled { job_id: c.job_id@ },
        TerminationOutcome::Completed { progress, complete } => EndReport::Completed {
            progress: progress@,
            job_id: complete.job_id@,
            file_path: complete.file_path.deep_view(),
        },
        TerminationOutcome::Failed(e) => EndReport::Failed { job_id: e.job_id@, message: e.message@ },
    }
}

/// How the end of job `job_id` is reported: as cancelled when it was no longer in
/// the table of running jobs, as completed when it exited with code 0, and as
/// failed otherwise.
pub open spec fn end_report(
    job_id: Seq<char>,
    was_registered: bool,
    code: Option<i32>,
    tail: Seq<Seq<char>>,
    final_path: Option<Seq<char>>,
) -> EndReport {
    if !was_registered {
        EndReport::Cancelled { job_id }
    } else if exit_code(code) == 0 {
        EndReport::Completed { progress: finished_event(job_id), job_id, file_path: final_path }
    } else {
        EndReport::Failed { job_id, message: failure_message(code, tail) }
    }
}

/// How a job's end is reported, case by case: a job no longer in the table is
/// reported cancelled; one that exited with code 0 is reported completed with
/// the path it printed, after a last event at stage `finished`, 100 percent,
/// message `Done`; one that exited otherwise is reported failed, with its exit
/// code (-1 when it has none) when it left no error output.
pub proof fn lemma_end_report_cases(
    job_id: Seq<char>,
    was_registered: bool,
    code: Option<i32>,
    tail: Seq<Seq<char>>,
    final_path: Option<Seq<char>>,
)
    ensures
        (!was_registered ==> (end_report(job_id, was_registered, code, tail, final_path) == (
        EndReport::Cancelled { job_id }))),
        (was_registered && code == Some(0i32) ==> (end_report(
            job_id,
            was_registered,
            code,
            tail,
            final_path,
        ) == (EndReport::Completed {
            progress: (ProgressView {
                job_id,
                stage: "finished"@,
                percent: Some("100"@),
                speed: None,
                eta: None,
                message: Some("Done"@),
            }),
            job_id,
            file_path: final_path,
        }))),
        (was_registered && code != Some(0i32) ==> (end_report(
            job_id,
            was_registered,
            code,
            tail,
            final_path,
        ) is Failed)),
        (was_registered && code == None::<i32> && tail.len() == 0 ==> (end_report(
            job_id,
            was_registered,
            code,
            tail,
            final_path,
        ) == (EndReport::Failed { job_id, message: "yt-dlp exited with code -1"@ }))),
        (was_registered && tail.len() == 0 && (code matches Some(c) && c > 0) ==> (end_report(
            job_id,
            was_registered,
            code,
            tail,
            final_path,
        ) == (EndReport::Failed {
            job_id,
            message: "yt-dlp exited with code "@ + decimal(code->0 as nat),
        }))),
{
    if was_registered && code is None && tail.len() == 0 {
        reveal_strlit("yt-dlp exited with code -1");
        reveal_strlit("yt-dlp exited with code ");
        assert(decimal(1) == seq!['1']);
        assert("yt-dlp exited with code "@ + signed_decimal(-1) =~= "yt-dlp exited with code -1"@);
    }
}

/// A failed job with error output is reported with all of it: the message begins
/// with the oldest line and ends with the newest, and when no line holds a
/// newline, splitting the message at newlines gives back exactly the lines, in
/// order.
pub proof fn lemma_failure_keeps_tail(
    job_id: Seq<char>,
    code: Option<i32>,
    tail: Seq<Seq<char>>,
    final_path: Option<Seq<char>>,
)
    requires
        code != Some(0i32),
        tail.len() >= 1,
    ensures
        (end_report(job_id, true, code, tail, final_path) is Failed),
        (end_report(job_id, true, code, tail, final_path) matches EndReport::Failed {
            job_id: j,
            message: m,
        } ==> ({
            &&& j == job_id
            &&& m.len() >= tail.last().len()
            &&& m.skip(m.len() - tail.last().len()) == tail.last()
            &&& m.len() >= tail[0].len()
            &&& m.take(tail[0].len() as int) == tail[0]
            &&& (forall|i: int| 0 <= i < tail.len() ==> !(#[trigger] tail[i]).contains('\n'))
                ==> split_on(m, '\n') == tail
        })),
{
    lemma_joined_ends(tail, "\n"@);
    if forall|i: int| 0 <= i < tail.len() ==> !(#[trigger] tail[i]).contains('\n') {
        lemma_split_joined_lines(tail);
    }
}

/// The table after `n` removals of job `k`.
pub open spec fn after_removals<C>(s: Seq<(Seq<char>, C)>, k: Seq<char>, n: nat) -> Seq<
    (Seq<char>, C),
>
    decreases n,
{
    if n == 0 {
        s
    } else {
        without_job(after_removals(s, k, (n - 1) as nat), k)
    }
}

proof fn lemma_after_removals<C>(s: Seq<(Seq<char>, C)>, k: Seq<char>, c: C, n: nat)
    requires
        n >= 1,
    ensures
        after_removals(with_job(s, k, c), k, n) == without_job(s, k),
    decreases n,
{
    lemma_insert_then_remove(s, k, c);
    if n > 1 {
        lemma_after_removals(s, k, c, (n - 1) as nat);
        lemma_cancel_idempotent(s, k);
    } else {
        assert(after_removals(with_job(s, k, c), k, 0) == with_job(s, k, c));
    }
}

/// One end report per job. Once job `k` is put in the table with handle `c`, the
/// first removal of `k` (by a cancellation, or by the job's end) hands back `c`
/// and every later removal finds nothing. So when the job ends after `cancels`
/// cancellations, its end is reported as cancelled exactly when there was at
/// least one, and as completed or failed exactly when there was none; and the
/// table holds no job `k` afterwards.
pub proof fn lemma_one_end_report<C>(
    s: Seq<(Seq<char>, C)>,
    k: Seq<char>,
    c: C,
    cancels: nat,
    code: Option<i32>,
    tail: Seq<Seq<char>>,
    final_path: Option<Seq<char>>,
)
    ensures
        job_value(with_job(s, k, c), k) == Some(c),
        forall|i: nat|
            i >= 1 ==> job_value(#[trigger] after_removals(with_job(s, k, c), k, i), k) is None,
        cancels >= 1 <==> end_report(
            k,
            job_value(after_removals(with_job(s, k, c), k, cancels), k) is Some,
            code,
            tail,
            final_path,
        ) is Cancelled,
        !has_job(after_removals(with_job(s, k, c), k, cancels + 1), k),
{
    lemma_insert_then_remove(s, k, c);
    lemma_cancel_idempotent(s, k);
    assert forall|i: nat| i >= 1 implies job_value(
        #[trigger] after_removals(with_job(s, k, c), k, i),
        k,
    ) is None by {
        lemma_after_removals(s, k, c, i);
    }
    lemma_after_removals(s, k, c, cancels + 1);
    lemma_without_leaves_no_job(s, k);
    if cancels >= 1 {
        lemma_after_removals(s, k, c, cancels);
    }
}

/// How the end of job `job_id` is reported. `was_registered` tells whether the job
/// was still in the table of running jobs when it ended (a cancelled job was
/// taken out of it, and its cancellation is reported here); `code` is the exit code; `stderr_tail` the
/// recent error output; `final_path` the path that the job printed.
pub fn handle_terminated(
    job_id: &str,
    was_registered: bool,
    code: Option<i32>,
    stderr_tail: &[String],
    final_path: Option<String>,
) -> (r: TerminationOutcome)
    ensures
        outcome_report(r) == end_report(
            job_id@,
            was_registered,
            code,
            stderr_tail.deep_view(),
            final_path.deep_view(),
        ),
{
    if !was_registered {
        return TerminationOutcome::Cancelled(ConversionCancelled { job_id: String::from_str(job_id) });
    }
    let c: i32 = match code {
        Some(c) => c,
        None => -1,
    };
    if c == 0 {
        let progress = ProgressEvent {
            job_id: String::from_str(job_id),
            stage: String::from_str("finished"),
            percent: Some(String::from_str("100")),
            speed: None,
            eta: None,
            message: Some(String::from_str("Done")),
        };
        let complete = ConversionComplete { job_id: String::from_str(job_id), file_path: final_path };
        TerminationOutcome::Completed { progress, complete }
    } else {
        let message = if stderr_tail.len() == 0 {
            let mut m = String::from_str("yt-dlp exited with code ");
            push_signed_decimal(&mut m, c);
            m
        } else {
            join(stderr_tail, "\n")
        };
        TerminationOutcome::Failed(ConversionError { job_id: String::from_str(job_id), message })
    }
}

/// An event of the running `yt-dlp` process, with its output read as text.
#[derive(Debug, Clone, PartialEq, Eq)]
pub enum MonitorEvent {
    Stdout(String),
    Stderr(String),
    Error(String),
    Terminated,
    Other,
}

/// What the caller does after an event.
#[derive(Debug, Clone, PartialEq, Eq)]
pub enum MonitorAction {
    /// Report these progress events and wait for the next process event.
    Emit(Vec<ProgressEvent>),
    /// The process has ended: report the end with [`handle_terminated`] and stop.
    Finish,
}

/// What is known of a running job from its output so far.
pub struct Monitor {
    pub stderr_tail: Vec<String>,
    pub final_path: Option<String>,
}

impl Monitor {
    /// Nothing seen yet.
    pub fn new() -> (r: Monitor)
        ensures
            r.stderr_tail@.len() == 0,
            r.final_path is None,
    {
        Monitor { stderr_tail: Vec::new(), final_path: None }
    }

    /// Takes in one process event of job `job_id` and says what to do next.
    pub fn on_event(&mut self, job_id: &str, event: MonitorEvent) -> (r: MonitorAction)
        ensures
            match event {
                MonitorEvent::Stdout(raw) => {
                    &&& (r matches MonitorAction::Emit(evs) && events_view(evs@) == line_events(
                        job_id@,
                        split_on(raw@, '\n'),
                    ))
                    &&& final(self).final_path.deep_view() == path_after_lines(
                        job_id@,
                        split_on(raw@, '\n'),
                        old(self).final_path.deep_view(),
                    )
                    &&& final(self).stderr_tail.deep_view() == old(self).stderr_tail.deep_view()
                },
                MonitorEvent::Stderr(line) => {
                    &&& (r matches MonitorAction::Emit(evs) && evs@.len() == 0)
                    &&& final(self).final_path == old(self).final_path
                    &&& final(self).stderr_tail.deep_view() == tail_after_stderr(
                        old(self).stderr_tail.deep_view(),
                        line@,
                    )
                },
                MonitorEvent::Error(err) => {
                    &&& (r matches MonitorAction::Emit(evs) && evs@.len() == 0)
                    &&& final(self).final_path == old(self).final_path
                    &&& final(self).stderr_tail.deep_view() == old(
                        self,
                    ).stderr_tail.deep_view().push(subprocess_error_line(err@))
                },
                MonitorEvent::Terminated => {
                    &&& r is Finish
                    &&& final(self).final_path == old(self).final_path
                    &&& final(self).stderr_tail.deep_view() == old(self).stderr_tail.deep_view()
                },
                MonitorEvent::Other => {
                    &&& (r matches MonitorAction::Emit(evs) && evs@.len() == 0)
                    &&& final(self).final_path == old(self).final_path
                    &&& final(self).stderr_tail.deep_view() == old(self).stderr_tail.deep_view()
                },
            },
    {
        match event {
            MonitorEvent::Stdout(raw) => {
                let evs = handle_stdout_line(job_id, raw.as_str(), &mut self.final_path);
                MonitorAction::Emit(evs)
            },
            MonitorEvent::Stderr(line) => {
                push_stderr_line(&mut self.stderr_tail, line.as_str());
                MonitorAction::Emit(Vec::new())
            },
            MonitorEvent::Error(err) => {
                push_subprocess_error(&mut self.stderr_tail, err.as_str());
                MonitorAction::Emit(Vec::new())
            },
            MonitorEvent::Terminated => MonitorAction::Finish,
            MonitorEvent::Other => MonitorAction::Emit(Vec::new()),
        }
    }
}

} // verus!
