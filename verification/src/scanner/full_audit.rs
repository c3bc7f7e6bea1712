//! "Check everything": one pass over every connected source, then duplicate
//! analysis.

use vstd::prelude::*;
use crate::scanner::lemma_source_type_names_parse;
use crate::text::{concat2, owned, str_eq};

verus! {

#[derive(Debug, Clone)]
pub struct FullAuditProgress {
    pub job_id: String,
    pub status: String,
    pub phase: String,
    pub message: String,
    pub sources_total: i64,
    pub sources_done: i64,
    pub current_source_name: Option<String>,
    pub current_file: Option<String>,
    pub files_processed: i64,
    pub files_total: i64,
    pub error_message: Option<String>,
}

#[derive(Debug, Clone, Copy)]
pub struct FullAuditOptions {
    pub include_google_drive: bool,
    pub include_google_photos: bool,
    pub include_gmail: bool,
    pub include_this_pc: bool,
    pub include_phone: bool,
}

impl Default for FullAuditOptions {
    fn default() -> (r: Self)
        ensures
            r.include_google_drive && r.include_google_photos && r.include_gmail && r.include_this_pc && r.include_phone,
    {
        Self {
            include_google_drive: true,
            include_google_photos: true,
            include_gmail: true,
            include_this_pc: true,
            include_phone: true,
        }
    }
}

/// How a source is named while it is checked.
pub open spec fn display_name_spec(source_type: Seq<char>, name: Seq<char>) -> Seq<char> {
    if source_type == "google_drive"@ {
        "Google Drive — "@ + name
    } else if source_type == "google_photos"@ {
        "Google Photos — "@ + name
    } else if source_type == "gmail_attachments"@ {
        "Gmail attachments — "@ + name
    } else if source_type == "android_mtp"@ {
        "Your phone — "@ + name
    } else if source_type == "phone_import"@ {
        "Phone backup folder — "@ + name
    } else if source_type == "local"@ {
        "This PC — "@ + name
    } else {
        name
    }
}

pub fn source_display_name(source_type: &str, name: &str) -> (r: String)
    ensures
        r@ == display_name_spec(source_type@, name@),
{
    if str_eq(source_type, "google_drive") {
        concat2("Google Drive — ", name)
    } else if str_eq(source_type, "google_photos") {
        concat2("Google Photos — ", name)
    } else if str_eq(source_type, "gmail_attachments") {
        concat2("Gmail attachments — ", name)
    } else if str_eq(source_type, "android_mtp") {
        concat2("Your phone — ", name)
    } else if str_eq(source_type, "phone_import") {
        concat2("Phone backup folder — ", name)
    } else if str_eq(source_type, "local") {
        concat2("This PC — ", name)
    } else {
        owned(name)
    }
}

/// What the user is told while a source is checked.
pub open spec fn phase_label_spec(source_type: Seq<char>) -> Seq<char> {
    if source_type == "google_drive"@ {
        "Checking Google Drive"@
    } else if source_type == "google_photos"@ {
        "Checking Google Photos"@
    } else if source_type == "gmail_attachments"@ {
        "Checking Gmail attachments"@
    } else if source_type == "android_mtp"@ {
        "Checking your phone"@
    } else if source_type == "phone_import"@ {
        "Checking phone backup folder"@
    } else if source_type == "local"@ {
        "Checking this PC"@
    } else {
        "Checking files"@
    }
}

pub fn phase_label(source_type: &str) -> (r: &'static str)
    ensures
        r@ == phase_label_spec(source_type@),
{
    if str_eq(source_type, "google_drive") {
        "Checking Google Drive"
    } else if str_eq(source_type, "google_photos") {
        "Checking Google Photos"
    } else if str_eq(source_type, "gmail_attachments") {
        "Checking Gmail attachments"
    } else if str_eq(source_type, "android_mtp") {
        "Checking your phone"
    } else if str_eq(source_type, "phone_import") {
        "Checking phone backup folder"
    } else if str_eq(source_type, "local") {
        "Checking this PC"
    } else {
        "Checking files"
    }
}

/// The progress message while a source is checked.
pub fn phase_message(source_type: &str) -> (r: String)
    ensures
        r@ == phase_label_spec(source_type@) + "…"@,
{
    concat2(phase_label(source_type), "…")
}

/// Whether a full check includes sources of this type; types the options do
/// not mention are always included.
pub open spec fn included(options: FullAuditOptions, source_type: Seq<char>) -> bool {
    if source_type == "google_drive"@ {
        options.include_google_drive
    } else if source_type == "google_photos"@ {
        options.include_google_photos
    } else if source_type == "gmail_attachments"@ {
        options.include_gmail
    } else if source_type == "local"@ {
        options.include_this_pc
    } else if source_type == "android_mtp"@ || source_type == "phone_import"@ {
        options.include_phone
    } else {
        true
    }
}

pub fn include_source(options: &FullAuditOptions, source_type: &str) -> (r: bool)
    ensures
        r == included(*options, source_type@),
{
    if str_eq(source_type, "google_drive") {
        options.include_google_drive
    } else if str_eq(source_type, "google_photos") {
        options.include_google_photos
    } else if str_eq(source_type, "gmail_attachments") {
        options.include_gmail
    } else if str_eq(source_type, "local") {
        options.include_this_pc
    } else if str_eq(source_type, "android_mtp") || str_eq(source_type, "phone_import") {
        options.include_phone
    } else {
        true
    }
}

/// Each source type follows its own switch: Google Drive the Drive option,
/// Google Photos the Photos option, Gmail attachments the Gmail option, this
/// PC the PC option, and both phone source types (over USB and the phone
/// backup folder) the phone option.
pub proof fn law_each_source_follows_its_own_option(options: FullAuditOptions)
    ensures
        included(options, "google_drive"@) == options.include_google_drive,
        included(options, "google_photos"@) == options.include_google_photos,
        included(options, "gmail_attachments"@) == options.include_gmail,
        included(options, "local"@) == options.include_this_pc,
        included(options, "android_mtp"@) == options.include_phone,
        included(options, "phone_import"@) == options.include_phone,
{
    lemma_source_type_names_parse();
}

/// A connected source: id, source type and name.
pub type SourceRow = (String, String, String);

/// The sources a full check visits, in the given order.
pub open spec fn selected_sources(rows: Seq<SourceRow>, options: FullAuditOptions) -> Seq<SourceRow>
    decreases rows.len(),
{
    if rows.len() == 0 {
        Seq::empty()
    } else if included(options, rows.last().1@) {
        selected_sources(rows.drop_last(), options).push(rows.last())
    } else {
        selected_sources(rows.drop_last(), options)
    }
}

/// Keeps the sources that the options include, in order.
pub fn select_audit_sources(rows: Vec<SourceRow>, options: &FullAuditOptions) -> (r: Vec<SourceRow>)
    ensures
        r@ == selected_sources(rows@, *options),
{
    let mut r: Vec<SourceRow> = Vec::new();
    let mut rest = rows;
    let ghost all = rest@;
    // Walk from the end to move each row out without copying it.
    let mut kept_rev: Vec<SourceRow> = Vec::new();
    assert(all.take(all.len() as int) =~= all);
    assert(kept_rev@.reverse() =~= Seq::<SourceRow>::empty());
    assert(selected_sources(all, *options) =~= selected_sources(all, *options) + kept_rev@.reverse());
    while rest.len() > 0
        invariant
            rest@ == all.take(rest@.len() as int),
            rest@.len() <= all.len(),
            selected_sources(all, *options) == selected_sources(rest@, *options) + kept_rev@.reverse(),
        decreases rest@.len(),
    {
        let ghost before = rest@;
        let row = rest.pop().unwrap();
        assert(rest@ =~= before.drop_last());
        assert(all.take(rest@.len() as int) =~= before.drop_last());
        if include_source(options, row.1.as_str()) {
            proof {
                assert(kept_rev@.push(row).reverse() =~= seq![row] + kept_rev@.reverse());
                assert(selected_sources(before, *options) == selected_sources(rest@, *options).push(row));
                assert(selected_sources(rest@, *options).push(row) + kept_rev@.reverse() =~= selected_sources(rest@, *options) + (seq![row] + kept_rev@.reverse()));
            }
            kept_rev.push(row);
        }
    }
    assert(selected_sources(rest@, *options) =~= Seq::<SourceRow>::empty());
    while kept_rev.len() > 0
        invariant
            selected_sources(all, *options) == r@ + kept_rev@.reverse(),
        decreases kept_rev@.len(),
    {
        let ghost before = kept_rev@;
        let row = kept_rev.pop().unwrap();
        proof {
            assert(before =~= kept_rev@.push(row));
            assert(kept_rev@.push(row).reverse() =~= seq![row] + kept_rev@.reverse());
            assert(r@ + (seq![row] + kept_rev@.reverse()) =~= r@.push(row) + kept_rev@.reverse());
        }
        r.push(row);
    }
    assert(kept_rev@.reverse() =~= Seq::<SourceRow>::empty());
    assert(r@ =~= r@ + kept_rev@.reverse());
    r
}

/// What a full check does after scanning one source.
#[derive(Debug)]
pub enum AuditScanOutcome {
    /// The scan succeeded: go on.
    Continue,
    /// A phone, Google Photos or Gmail scan failed: note it and go on.
    Skip(String),
    /// Any other failure ends the check.
    Fail(String),
}

/// Sources whose failure does not end a full check.
pub open spec fn skippable(source_type: Seq<char>) -> bool {
    source_type == "android_mtp"@ || source_type == "google_photos"@ || source_type == "gmail_attachments"@
}

pub fn after_source_scan(source_type: &str, result: Result<(), String>) -> (r: AuditScanOutcome)
    ensures
        result is Ok ==> r is Continue,
        result matches Err(e) ==> if skippable(source_type@) {
            r matches AuditScanOutcome::Skip(m) && m == e
        } else {
            r matches AuditScanOutcome::Fail(m) && m == e
        },
{
    match result {
        Ok(()) => AuditScanOutcome::Continue,
        Err(e) => if str_eq(source_type, "android_mtp") || str_eq(source_type, "google_photos") || str_eq(
            source_type,
            "gmail_attachments",
        ) {
            AuditScanOutcome::Skip(e)
        } else {
            AuditScanOutcome::Fail(e)
        },
    }
}

/// Records a full check's progress in `slot`.
pub fn update_audit_progress(
    slot: &mut Option<FullAuditProgress>,
    job_id: &str,
    status: &str,
    phase: &str,
    message: &str,
    sources_done: i64,
    sources_total: i64,
    current_source_name: Option<String>,
    current_file: Option<String>,
    files_processed: i64,
    files_total: i64,
    error_message: Option<&str>,
)
    ensures
        *final(slot) matches Some(p) && {
            &&& p.job_id@ == job_id@
            &&& p.status@ == status@
            &&& p.phase@ == phase@
            &&& p.message@ == message@
            &&& p.sources_done == sources_done
            &&& p.sources_total == sources_total
            &&& p.current_source_name == current_source_name
            &&& p.current_file == current_file
            &&& p.files_processed == files_processed
            &&& p.files_total == files_total
            &&& match error_message {
                Some(e) => p.error_message matches Some(m) && m@ == e@,
                None => p.error_message is None,
            }
        },
{
    let err = match error_message {
        Some(e) => Some(owned(e)),
        None => None,
    };
    *slot = Some(FullAuditProgress {
        job_id: owned(job_id),
        status: owned(status),
        phase: owned(phase),
        message: owned(message),
        sources_total,
        sources_done,
        current_source_name,
        current_file,
        files_processed,
        files_total,
        error_message: err,
    });
}

/// The message when a step of the check fails.
pub fn problem_message(display: &str) -> (r: String)
    ensures
        r@ == "Problem while checking "@ + display@,
{
    concat2("Problem while checking ", display)
}

/// Whether a progress record carries these values (no file counts and no
/// current file: a full check reports per source).
pub open spec fn progress_is(
    p: FullAuditProgress,
    job_id: Seq<char>,
    status: Seq<char>,
    phase: Seq<char>,
    message: Seq<char>,
    sources_done: int,
    sources_total: int,
    current_source_name: Option<Seq<char>>,
    error_message: Option<Seq<char>>,
) -> bool {
    &&& p.job_id@ == job_id
    &&& p.status@ == status
    &&& p.phase@ == phase
    &&& p.message@ == message
    &&& p.sources_done == sources_done
    &&& p.sources_total == sources_total
    &&& opt_seq(p.current_source_name) == current_source_name
    &&& p.current_file is None
    &&& p.files_processed == 0
    &&& p.files_total == 0
    &&& opt_seq(p.error_message) == error_message
}

/// The view of an optional string.
pub open spec fn opt_seq(v: Option<String>) -> Option<Seq<char>> {
    match v {
        Some(s) => Some(s@),
        None => None,
    }
}

fn progress(
    job_id: &str,
    status: &str,
    phase: &str,
    message: &str,
    sources_done: i64,
    sources_total: i64,
    current_source_name: Option<String>,
    error_message: Option<String>,
) -> (r: FullAuditProgress)
    ensures
        progress_is(
            r,
            job_id@,
            status@,
            phase@,
            message@,
            sources_done as int,
            sources_total as int,
            opt_seq(current_source_name),
            opt_seq(error_message),
        ),
{
    FullAuditProgress {
        job_id: owned(job_id),
        status: owned(status),
        phase: owned(phase),
        message: owned(message),
        sources_total,
        sources_done,
        current_source_name,
        current_file: None,
        files_processed: 0,
        files_total: 0,
        error_message,
    }
}

/// A full check under way: the sources it visits, in order, and how many of
/// them are behind it.
#[derive(Debug)]
pub struct AuditRun {
    pub job_id: String,
    pub sources: Vec<SourceRow>,
    pub next: usize,
}

/// What a full check does next.
#[derive(Debug)]
pub enum AuditAction {
    /// Scan the source at this position, then report the result to `audit_after_scan`.
    Scan(usize),
    /// The scan of the source at this position failed but the check goes on:
    /// record the failure with this message, then ask `audit_next`.
    Skipped(usize, String),
    /// The scan of the source at this position failed and ends the check with
    /// this error (after recording the failure).
    Failed(usize, String),
    /// The source was scanned: ask `audit_next`.
    Next,
    /// Every source was scanned: find duplicates and recovery candidates, then
    /// finish with `audit_complete`.
    Analyze,
    /// The check ends with this result.
    Stop(Result<(), String>),
}

/// One step of a full check: the progress to publish, if any, and what to do.
#[derive(Debug)]
pub struct AuditStep {
    pub progress: Option<FullAuditProgress>,
    pub action: AuditAction,
}

pub open spec fn starting_message() -> Seq<char> {
    "Getting ready to check all your photos and videos…"@
}

pub open spec fn nothing_to_check_message() -> Seq<char> {
    "Nothing to check yet — connect Google Drive and pick a folder on this PC in Setup."@
}

pub open spec fn connect_first_message() -> Seq<char> {
    "Connect Google Drive and your PC folder first (use Setup)."@
}

pub open spec fn analyzing_message() -> Seq<char> {
    "Finding duplicates and calculating how much Google Drive space you can free up…"@
}

pub open spec fn all_done_message() -> Seq<char> {
    "All done! Scroll down to see your results and proof."@
}

/// Whether a run is well formed: its position is within its sources and their
/// number fits the progress counters.
pub open spec fn run_ok(run: AuditRun) -> bool {
    &&& run.next <= run.sources@.len()
    &&& run.sources@.len() <= i64::MAX
}

/// Starts a full check: the sources to visit are the connected ones (`rows`,
/// in checking order) that the options include; the first progress says so.
pub fn audit_start(job_id: String, rows: Vec<SourceRow>, options: &FullAuditOptions) -> (r: (AuditRun, FullAuditProgress))
    requires
        rows@.len() <= i64::MAX,
    ensures
        r.0.job_id == job_id,
        r.0.sources@ == selected_sources(rows@, *options),
        r.0.next == 0,
        run_ok(r.0),
        progress_is(r.1, job_id@, "running"@, "starting"@, starting_message(), 0, r.0.sources@.len() as int, None, None),
{
    let ghost all = rows@;
    let sources = select_audit_sources(rows, options);
    proof {
        lemma_selected_len(all, *options);
    }
    let total = sources.len() as i64;
    let p = progress(job_id.as_str(), "running", "starting", "Getting ready to check all your photos and videos…", 0, total, None, None);
    (AuditRun { job_id, sources, next: 0 }, p)
}

/// A selection never holds more sources than it was picked from.
pub proof fn lemma_selected_len(rows: Seq<SourceRow>, options: FullAuditOptions)
    ensures
        selected_sources(rows, options).len() <= rows.len(),
    decreases rows.len(),
{
    if rows.len() > 0 {
        lemma_selected_len(rows.drop_last(), options);
    }
}

/// The step at the top of each source: a check with no sources fails; after
/// the last source it analyzes; a cancel request stops it; otherwise it scans
/// the next source.
pub fn audit_next(run: &AuditRun, cancelled: bool) -> (r: AuditStep)
    requires
        run_ok(*run),
    ensures
        ({
            let n = run.sources@.len();
            let i = run.next as int;
            let job = run.job_id@;
            if n == 0 {
                &&& r.progress matches Some(p) && progress_is(
                    p, job, "failed"@, "starting"@, nothing_to_check_message(), 0, 0, None, Some("No sources connected"@))
                &&& r.action matches AuditAction::Stop(Err(e)) && e@ == connect_first_message()
            } else if i == n {
                &&& r.progress matches Some(p) && progress_is(p, job, "running"@, "analyzing"@, analyzing_message(), n as int, n as int, None, None)
                &&& r.action is Analyze
            } else if cancelled {
                &&& r.progress matches Some(p) && progress_is(p, job, "cancelled"@, "cancelled"@, "Check stopped."@, i, n as int, None, None)
                &&& r.action matches AuditAction::Stop(Ok(()))
            } else {
                let (_id, t, name) = run.sources@[i];
                &&& r.progress matches Some(p) && progress_is(
                    p, job, "running"@, t@, phase_label_spec(t@) + "…"@, i, n as int,
                    Some(display_name_spec(t@, name@)), None)
                &&& r.action == AuditAction::Scan(run.next)
            }
        }),
{
    let n = run.sources.len();
    let total = n as i64;
    let job = run.job_id.as_str();
    if n == 0 {
        let p = progress(
            job,
            "failed",
            "starting",
            "Nothing to check yet — connect Google Drive and pick a folder on this PC in Setup.",
            0,
            0,
            None,
            Some(owned("No sources connected")),
        );
        return AuditStep {
            progress: Some(p),
            action: AuditAction::Stop(Err(owned("Connect Google Drive and your PC folder first (use Setup).")))
        };
    }
    if run.next == n {
        let p = progress(
            job,
            "running",
            "analyzing",
            "Finding duplicates and calculating how much Google Drive space you can free up…",
            total,
            total,
            None,
            None,
        );
        return AuditStep { progress: Some(p), action: AuditAction::Analyze };
    }
    let done = run.next as i64;
    if cancelled {
        let p = progress(job, "cancelled", "cancelled", "Check stopped.", done, total, None, None);
        return AuditStep { progress: Some(p), action: AuditAction::Stop(Ok(())) };
    }
    let source_type = run.sources[run.next].1.as_str();
    let name = run.sources[run.next].2.as_str();
    let display = source_display_name(source_type, name);
    let message = phase_message(source_type);
    let p = progress(job, "running", source_type, message.as_str(), done, total, Some(display), None);
    AuditStep { progress: Some(p), action: AuditAction::Scan(run.next) }
}

/// The step after a source was scanned: success moves on; a failure on a
/// phone, Google Photos or Gmail is recorded and the check moves on; any other
/// failure ends the check with that error.
pub fn audit_after_scan(run: &mut AuditRun, result: Result<(), String>) -> (r: AuditStep)
    requires
        run_ok(*old(run)),
        old(run).next < old(run).sources@.len(),
    ensures
        run_ok(*final(run)),
        final(run).job_id == old(run).job_id,
        final(run).sources == old(run).sources,
        ({
            let i = old(run).next as int;
            let n = old(run).sources@.len() as int;
            let (_id, t, name) = old(run).sources@[i];
            match result {
                Ok(()) => {
                    &&& final(run).next == old(run).next + 1
                    &&& r.progress is None
                    &&& r.action is Next
                },
                Err(e) => if skippable(t@) {
                    &&& final(run).next == old(run).next + 1
                    &&& r.progress is None
                    &&& r.action == AuditAction::Skipped(old(run).next, e)
                } else {
                    &&& final(run).next == old(run).next
                    &&& r.progress matches Some(p) && progress_is(
                        p, old(run).job_id@, "failed"@, t@, "Problem while checking "@ + display_name_spec(t@, name@),
                        i, n, Some(display_name_spec(t@, name@)), Some(e@))
                    &&& r.action == AuditAction::Failed(old(run).next, e)
                },
            }
        }),
{
    let i = run.next;
    let total = run.sources.len() as i64;
    let outcome = after_source_scan(run.sources[i].1.as_str(), result);
    match outcome {
        AuditScanOutcome::Continue => {
            run.next = i + 1;
            AuditStep { progress: None, action: AuditAction::Next }
        },
        AuditScanOutcome::Skip(e) => {
            run.next = i + 1;
            AuditStep { progress: None, action: AuditAction::Skipped(i, e) }
        },
        AuditScanOutcome::Fail(e) => {
            let source_type = run.sources[i].1.as_str();
            let display = source_display_name(source_type, run.sources[i].2.as_str());
            let message = problem_message(display.as_str());
            let err = e.clone();
            let p = progress(
                run.job_id.as_str(),
                "failed",
                source_type,
                message.as_str(),
                i as i64,
                total,
                Some(display),
                Some(err),
            );
            AuditStep { progress: Some(p), action: AuditAction::Failed(i, e) }
        },
    }
}

/// The last progress of a check that went through every source.
pub fn audit_complete(run: &AuditRun) -> (r: FullAuditProgress)
    requires
        run_ok(*run),
    ensures
        progress_is(
            r,
            run.job_id@,
            "completed"@,
            "done"@,
            all_done_message(),
            run.sources@.len() as int,
            run.sources@.len() as int,
            None,
            None,
        ),
{
    let total = run.sources.len() as i64;
    progress(
        run.job_id.as_str(),
        "completed",
        "done",
        "All done! Scroll down to see your results and proof.",
        total,
        total,
        None,
        None,
    )
}

} // verus!
