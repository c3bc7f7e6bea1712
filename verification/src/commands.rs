//! The decisions behind the app's commands: what the user sees and what a
//! command is allowed to do.

use vstd::prelude::*;
use crate::config::AppConfig;
use crate::scanner::{lemma_source_type_names_parse, parse_source_type, Confidence, FileRecord, SourceType};
use crate::scanner::full_audit::FullAuditOptions;
use crate::scanner::mtp::MtpDevice;
use crate::scanner::vault::VaultCopyOutcome;
use crate::text::{
    concat2, concat3, owned, replace_char, replace_char_spec, spec_trim, uppercase_of, str_eq, to_uppercase, trim,
};

verus! {

#[derive(Debug, Clone)]
pub struct DashboardStats {
    pub recoverable_bytes: i64,
    pub recoverable_count: i64,
    pub total_files: i64,
    pub duplicate_groups: i64,
    pub sources_connected: i64,
    pub vault_path: Option<String>,
}

#[derive(Debug, Clone)]
pub struct RecoverySample {
    pub filename: String,
    pub size_bytes: i64,
    pub drive_file_id: String,
    pub copy_already_on_pc: Option<String>,
    pub copy_location_label: Option<String>,
}

#[derive(Debug, Clone)]
pub struct RecoveryReport {
    pub recoverable_bytes: i64,
    pub recoverable_count: i64,
    pub sample_files: Vec<RecoverySample>,
    pub safety_note: String,
}

#[derive(Debug, Clone)]
pub struct AuditRecommendations {
    pub google_drive_duplicate_bytes: i64,
    pub google_drive_duplicate_count: i64,
    pub google_drive_only_bytes: i64,
    pub google_drive_only_count: i64,
    pub phone_only_bytes: i64,
    pub phone_only_count: i64,
    pub google_photos_count: i64,
    pub gmail_attachment_bytes: i64,
    pub gmail_attachment_count: i64,
    pub total_files_checked: i64,
    pub proof_samples: Vec<RecoverySample>,
    pub summary_plain: String,
}

#[derive(Debug, Clone, Copy)]
pub struct SetupStatus {
    pub welcome_done: bool,
    pub local_added: bool,
    pub drive_connected: bool,
    pub android_connected: bool,
    pub first_scan_done: bool,
    pub vault_set: bool,
    pub wizard_completed: bool,
    pub wizard_skipped: bool,
}

#[derive(Debug, Clone)]
pub struct WizardStatus {
    pub completed: bool,
    pub skipped: bool,
    pub completed_at: Option<String>,
    pub vault_path: Option<String>,
    pub google_configured: bool,
    pub drive_connected: bool,
    pub drive_email: Option<String>,
    pub android_connected: bool,
    pub android_device_name: Option<String>,
    pub local_source_count: i64,
    pub first_scan_done: bool,
}

#[derive(Debug, Clone)]
pub struct CopyResult {
    pub copied_count: i64,
    pub skipped_count: i64,
    pub verified_count: i64,
    pub failed_count: i64,
    pub dry_run: bool,
    pub destination: String,
}

/// The phrase the user must type before files are really moved to Trash.
pub open spec fn confirmation_phrase() -> Seq<char> {
    "MOVE TO TRASH"@
}

/// Whether the typed confirmation is the phrase (surrounding blanks and letter
/// case do not matter).
pub open spec fn confirmed(confirmation: Seq<char>) -> bool {
    uppercase_of(spec_trim(confirmation)) == confirmation_phrase()
}

/// A move to Trash goes ahead only as a dry run or after the confirmation
/// phrase was typed.
pub fn check_trash_confirmation(dry_run: bool, confirmation: &str) -> (r: Result<(), String>)
    ensures
        r is Ok <==> (dry_run || confirmed(confirmation@)),
        r matches Err(e) ==> e@ == "Type MOVE TO TRASH exactly to confirm."@,
        !dry_run && confirmation@.len() == 0 ==> r is Err,
{
    if !dry_run {
        let typed = to_uppercase(trim(confirmation));
        proof {
            reveal_strlit("MOVE TO TRASH");
        }
        if !str_eq(typed.as_str(), "MOVE TO TRASH") {
            return Err(owned("Type MOVE TO TRASH exactly to confirm."));
        }
    }
    Ok(())
}

/// What to do with one file that exists in one place only.
#[derive(Debug)]
pub enum CopyAction {
    /// Leave it.
    Skip,
    /// Download it from Google Drive (file id).
    Download(String),
    /// Copy it from this PC or phone.
    CopyLocal(SourceType),
}

/// Which unique files are saved: Drive files with an id when Drive is included,
/// phone files when phones are, PC files when the PC is; never Google Photos or
/// Gmail, nor files of an unknown source type.
pub open spec fn copy_action_spec(
    source_type: Seq<char>,
    has_drive_id: bool,
    include_drive: bool,
    include_phone: bool,
    include_pc: bool,
) -> Option<SourceType> {
    match parse_source_type(source_type) {
        Some(SourceType::GoogleDrive) => if include_drive && has_drive_id { Some(SourceType::GoogleDrive) } else { None },
        Some(SourceType::AndroidMtp) => if include_phone { Some(SourceType::AndroidMtp) } else { None },
        Some(SourceType::PhoneImport) => if include_phone { Some(SourceType::PhoneImport) } else { None },
        Some(SourceType::Local) => if include_pc { Some(SourceType::Local) } else { None },
        _ => None,
    }
}

pub fn copy_action(
    source_type: &str,
    drive_file_id: &Option<String>,
    include_drive: bool,
    include_phone: bool,
    include_pc: bool,
) -> (r: CopyAction)
    ensures
        match copy_action_spec(source_type@, drive_file_id is Some, include_drive, include_phone, include_pc) {
            None => r is Skip,
            Some(SourceType::GoogleDrive) => r matches CopyAction::Download(id) && id == drive_file_id->0,
            Some(t) => r matches CopyAction::CopyLocal(x) && x == t,
        },
{
    let t = match SourceType::from_str(source_type) {
        Some(t) => t,
        None => return CopyAction::Skip,
    };
    let allowed = match t {
        SourceType::GoogleDrive => include_drive,
        SourceType::AndroidMtp | SourceType::PhoneImport => include_phone,
        SourceType::Local => include_pc,
        SourceType::GooglePhotos | SourceType::GmailAttachments => return CopyAction::Skip,
    };
    if !allowed {
        return CopyAction::Skip;
    }
    if t == SourceType::GoogleDrive {
        match drive_file_id {
            Some(id) => CopyAction::Download(id.clone()),
            None => CopyAction::Skip,
        }
    } else {
        CopyAction::CopyLocal(t)
    }
}

/// Each source type is saved under its own switch: Google Drive files with an
/// id when Drive is included, files from a phone (over USB or in the phone
/// backup folder) when phones are, whatever the PC switch says, PC files when
/// the PC is; Google Photos and Gmail files never.
pub proof fn law_copy_follows_source_switches(
    has_drive_id: bool,
    include_drive: bool,
    include_phone: bool,
    include_pc: bool,
)
    ensures
        copy_action_spec("google_drive"@, has_drive_id, include_drive, include_phone, include_pc) == if include_drive
            && has_drive_id {
            Some(SourceType::GoogleDrive)
        } else {
            None
        },
        copy_action_spec("android_mtp"@, has_drive_id, include_drive, include_phone, include_pc) == if include_phone {
            Some(SourceType::AndroidMtp)
        } else {
            None
        },
        copy_action_spec("phone_import"@, has_drive_id, include_drive, include_phone, include_pc) == if include_phone {
            Some(SourceType::PhoneImport)
        } else {
            None
        },
        copy_action_spec("local"@, has_drive_id, include_drive, include_phone, include_pc) == if include_pc {
            Some(SourceType::Local)
        } else {
            None
        },
        copy_action_spec("google_photos"@, has_drive_id, include_drive, include_phone, include_pc) is None,
        copy_action_spec("gmail_attachments"@, has_drive_id, include_drive, include_phone, include_pc) is None,
{
    lemma_source_type_names_parse();
}

/// Counts of a copy to the vault.
#[derive(Debug, Clone, Copy)]
pub struct CopyTally {
    pub copied: i64,
    pub skipped: i64,
    pub verified: i64,
    pub failed: i64,
}

/// The tally after a file with this outcome: verified copies count as copied
/// and verified.
pub open spec fn tally_after(t: CopyTally, outcome: VaultCopyOutcome) -> CopyTally {
    match outcome {
        VaultCopyOutcome::Skipped => CopyTally { skipped: (t.skipped + 1) as i64, ..t },
        VaultCopyOutcome::Copied => CopyTally { copied: (t.copied + 1) as i64, ..t },
        VaultCopyOutcome::Verified => CopyTally { copied: (t.copied + 1) as i64, verified: (t.verified + 1) as i64, ..t },
    }
}

/// The tally after a file that was left alone.
pub open spec fn tally_after_skip(t: CopyTally) -> CopyTally {
    CopyTally { skipped: (t.skipped + 1) as i64, ..t }
}

/// The tally after a file whose copy failed.
pub open spec fn tally_after_failure(t: CopyTally) -> CopyTally {
    CopyTally { failed: (t.failed + 1) as i64, ..t }
}

impl CopyTally {
    pub fn new() -> (r: Self)
        ensures
            r.copied == 0 && r.skipped == 0 && r.verified == 0 && r.failed == 0,
    {
        CopyTally { copied: 0, skipped: 0, verified: 0, failed: 0 }
    }

    /// Counts a file that was left alone.
    pub fn record_skip(&mut self)
        requires
            old(self).skipped < i64::MAX,
        ensures
            *final(self) == tally_after_skip(*old(self)),
    {
        self.skipped = self.skipped + 1;
    }

    /// Counts a file whose copy failed.
    pub fn record_failure(&mut self)
        requires
            old(self).failed < i64::MAX,
        ensures
            *final(self) == tally_after_failure(*old(self)),
    {
        self.failed = self.failed + 1;
    }

    /// Counts a file's outcome: verified copies count as copied and verified.
    pub fn record(&mut self, outcome: VaultCopyOutcome)
        requires
            old(self).copied < i64::MAX,
            old(self).skipped < i64::MAX,
            old(self).verified < i64::MAX,
        ensures
            *final(self) == tally_after(*old(self), outcome),
    {
        match outcome {
            VaultCopyOutcome::Skipped => self.skipped = self.skipped + 1,
            VaultCopyOutcome::Copied => self.copied = self.copied + 1,
            VaultCopyOutcome::Verified => {
                self.copied = self.copied + 1;
                self.verified = self.verified + 1;
            },
        }
    }

    pub fn into_result(self, dry_run: bool, destination: String) -> (r: CopyResult)
        ensures
            r.copied_count == self.copied,
            r.skipped_count == self.skipped,
            r.verified_count == self.verified,
            r.failed_count == self.failed,
            r.dry_run == dry_run,
            r.destination == destination,
    {
        CopyResult {
            copied_count: self.copied,
            skipped_count: self.skipped,
            verified_count: self.verified,
            failed_count: self.failed,
            dry_run,
            destination,
        }
    }
}

/// The verified copies are among the copied ones: a fresh tally has none,
/// and recording an outcome, a skip or a failure keeps `verified` at most
/// `copied`.
pub proof fn law_tally_verified_within_copied(t: CopyTally, outcome: VaultCopyOutcome)
    requires
        t.verified <= t.copied,
        t.copied < i64::MAX,
        t.verified < i64::MAX,
        t.skipped < i64::MAX,
        t.failed < i64::MAX,
    ensures
        tally_after(t, outcome).verified <= tally_after(t, outcome).copied,
        tally_after_skip(t).verified <= tally_after_skip(t).copied,
        tally_after_failure(t).verified <= tally_after_failure(t).copied,
{
}

/// The `LIKE` pattern that finds a path inside a stored JSON text: the path with
/// each `\` doubled, between `%` signs.
pub open spec fn like_pattern_spec(path: Seq<char>) -> Seq<char> {
    "%"@ + replace_char_spec(path, '\\', "\\\\"@) + "%"@
}

pub fn like_pattern(path: &str) -> (r: String)
    ensures
        r@ == like_pattern_spec(path@),
{
    let escaped = replace_char(path, '\\', "\\\\");
    concat3("%", escaped.as_str(), "%")
}

/// The final part of a path (`Path::file_name`), when it has one that is text.
pub uninterp spec fn spec_file_name(path: Seq<char>) -> Option<Seq<char>>;

/// `Path::new(path).file_name()` as text.
#[verifier::external_body]
fn path_file_name(path: &str) -> (r: Option<String>)
    ensures
        match r {
            Some(n) => spec_file_name(path@) == Some(n@),
            None => spec_file_name(path@) is None,
        },
{
    std::path::Path::new(path).file_name().and_then(|n| n.to_str()).map(String::from)
}

/// The name of a new PC folder source: the given one, else the folder's own
/// name, else "Local Folder".
pub fn local_source_name(name: Option<String>, path: &str) -> (r: String)
    ensures
        match name {
            Some(n) => r == n,
            None => match spec_file_name(path@) {
                Some(f) => r@ == f,
                None => r@ == "Local Folder"@,
            },
        },
{
    match name {
        Some(n) => n,
        None => match path_file_name(path) {
            Some(f) => f,
            None => owned("Local Folder"),
        },
    }
}

/// The name of a connected phone: the given one, else "device (storage)".
pub fn android_display_name(device_name: Option<String>, device: &MtpDevice) -> (r: String)
    ensures
        match device_name {
            Some(n) => r == n,
            None => r@ == device.name@ + " ("@ + device.storage_name@ + ")"@,
        },
{
    match device_name {
        Some(n) => n,
        None => {
            let mut r = concat3(device.name.as_str(), " (", device.storage_name.as_str());
            r.append(")");
            r
        },
    }
}

/// Whether a progress record answers a request for `job_id` (any job when none
/// is named).
pub fn progress_matches(job_id: &Option<String>, active_job_id: &str) -> (r: bool)
    ensures
        match job_id {
            Some(j) => r == (j@ == active_job_id@),
            None => r,
        },
{
    match job_id {
        Some(j) => str_eq(j.as_str(), active_job_id),
        None => true,
    }
}

/// The vault folder in use: the one in `config.json`, else the stored setting.
pub fn effective_vault(config_vault: Option<String>, setting: Option<String>) -> (r: Option<String>)
    ensures
        r == (if config_vault is Some { config_vault } else { setting }),
{
    match config_vault {
        Some(v) => Some(v),
        None => setting,
    }
}

/// The setting key that records a finished setup step.
pub fn setup_step_key(step: &str) -> (r: String)
    ensures
        r@ == "setup_"@ + step@,
{
    concat2("setup_", step)
}

/// Setup progress from the configuration and the counts the database holds:
/// PC or phone-backup folders, phones, Google tokens and completed scans, and
/// whether the database records a vault folder.
pub fn setup_status(
    cfg: &AppConfig,
    local_sources: i64,
    android_sources: i64,
    google_tokens: i64,
    completed_scans: i64,
    vault_setting: bool,
) -> (r: SetupStatus)
    ensures
        r.welcome_done == (cfg.wizard_completed_at is Some || cfg.wizard_skipped),
        r.local_added == (local_sources > 0),
        r.drive_connected == (google_tokens > 0),
        r.android_connected == (android_sources > 0),
        r.first_scan_done == (completed_scans > 0),
        r.vault_set == (cfg.vault_path is Some || vault_setting),
        r.wizard_completed == cfg.wizard_completed_at is Some,
        r.wizard_skipped == cfg.wizard_skipped,
{
    SetupStatus {
        welcome_done: cfg.wizard_done(),
        local_added: local_sources > 0,
        drive_connected: google_tokens > 0,
        android_connected: android_sources > 0,
        first_scan_done: completed_scans > 0,
        vault_set: cfg.vault_path.is_some() || vault_setting,
        wizard_completed: cfg.wizard_completed_at.is_some(),
        wizard_skipped: cfg.wizard_skipped,
    }
}

/// Options of a full check: every part is included unless switched off.
pub fn audit_options(
    include_google_drive: Option<bool>,
    include_google_photos: Option<bool>,
    include_gmail: Option<bool>,
    include_this_pc: Option<bool>,
    include_phone: Option<bool>,
) -> (r: FullAuditOptions)
    ensures
        r.include_google_drive == (include_google_drive != Some(false)),
        r.include_google_photos == (include_google_photos != Some(false)),
        r.include_gmail == (include_gmail != Some(false)),
        r.include_this_pc == (include_this_pc != Some(false)),
        r.include_phone == (include_phone != Some(false)),
{
    FullAuditOptions {
        include_google_drive: match include_google_drive { Some(b) => b, None => true },
        include_google_photos: match include_google_photos { Some(b) => b, None => true },
        include_gmail: match include_gmail { Some(b) => b, None => true },
        include_this_pc: match include_this_pc { Some(b) => b, None => true },
        include_phone: match include_phone { Some(b) => b, None => true },
    }
}

/// The plain-language summary of a full check; `dup_gb` is the recoverable
/// size already written in GB.
pub open spec fn summary_spec(dup_count: i64, total_checked: i64, dup_gb: Seq<char>) -> Seq<char> {
    if dup_count > 0 {
        "You can free up about "@ + dup_gb + " GB on Google Drive — "@ + crate::text::signed_decimal(dup_count as int)
            + " files are already saved on your PC or phone."@
    } else if total_checked == 0 {
        "Run a full check first to see your results."@
    } else {
        "No exact duplicates found between Google Drive and your PC/phone yet. Files only on Google Drive can still be copied to your PC folder."@
    }
}

pub fn recommendation_summary(dup_count: i64, total_checked: i64, dup_gb: &str) -> (r: String)
    ensures
        r@ == summary_spec(dup_count, total_checked, dup_gb@),
{
    if dup_count > 0 {
        let n = crate::text::i64_to_decimal(dup_count);
        let mut r = concat3("You can free up about ", dup_gb, " GB on Google Drive — ");
        r.append(n.as_str());
        r.append(" files are already saved on your PC or phone.");
        r
    } else if total_checked == 0 {
        owned("Run a full check first to see your results.")
    } else {
        owned("No exact duplicates found between Google Drive and your PC/phone yet. Files only on Google Drive can still be copied to your PC folder.")
    }
}

/// The note shown with the recovery report.
pub open spec fn safety_note_spec() -> Seq<char> {
    "These files are on Google Drive AND already saved on your PC or phone (we checked — same file fingerprint). Deduper never deletes anything for you. You can remove the Google Drive copies yourself to free space, or wait for a future \"Move to Google Drive Trash\" button with your OK."@
}

pub fn safety_note() -> (r: String)
    ensures
        r@ == safety_note_spec(),
{
    owned("These files are on Google Drive AND already saved on your PC or phone (we checked — same file fingerprint). Deduper never deletes anything for you. You can remove the Google Drive copies yourself to free space, or wait for a future \"Move to Google Drive Trash\" button with your OK.")
}

} // verus!

verus! {

/// One proof line of the recovery report: a Drive file, where its copy lives
/// on this machine (see `resolve_local_path`) and which source holds it.
pub fn recovery_sample(
    filename: String,
    size_bytes: i64,
    drive_file_id: String,
    source_type: &str,
    source_name: &str,
    config_path: &Option<String>,
    config_storage_path: &Option<String>,
    relative_path: &str,
    direct_exists: bool,
) -> (r: RecoverySample)
    ensures
        r.filename == filename,
        r.size_bytes == size_bytes,
        r.drive_file_id == drive_file_id,
        exists|sep: char|
            crate::text::is_path_separator(sep) && #[trigger] crate::scanner::vault::resolve_local_path_spec(
                source_type@,
                crate::scanner::vault::opt_view(*config_path),
                crate::scanner::vault::opt_view(*config_storage_path),
                relative_path@,
                direct_exists,
                sep,
            ) == crate::scanner::vault::opt_view(r.copy_already_on_pc),
        r.copy_location_label matches Some(l) && l@ == crate::scanner::vault::source_label_spec(source_type@, source_name@),
{
    let local = crate::scanner::vault::resolve_local_path(source_type, config_path, config_storage_path, relative_path, direct_exists);
    RecoverySample {
        filename,
        size_bytes,
        drive_file_id,
        copy_already_on_pc: local,
        copy_location_label: Some(crate::scanner::vault::source_label(source_type, source_name)),
    }
}

} // verus!

verus! {

/// A set of files that a report figure counts.
#[derive(Debug, Clone, Copy, PartialEq, Eq, Structural)]
pub enum FileBucket {
    /// Google Drive files that exist nowhere else.
    DriveOnly,
    /// Phone files (over USB or in a phone backup folder) that exist nowhere else.
    PhoneOnly,
    /// Every file from Google Photos.
    Photos,
    /// Every Gmail attachment.
    Gmail,
    /// Every file.
    All,
}

/// Whether a file of this source type and confidence belongs to the bucket.
pub open spec fn in_bucket(b: FileBucket, source_type: Seq<char>, c: Confidence) -> bool {
    match b {
        FileBucket::DriveOnly => source_type == "google_drive"@ && c == Confidence::Unique,
        FileBucket::PhoneOnly => (source_type == "android_mtp"@ || source_type == "phone_import"@) && c
            == Confidence::Unique,
        FileBucket::Photos => source_type == "google_photos"@,
        FileBucket::Gmail => source_type == "gmail_attachments"@,
        FileBucket::All => true,
    }
}

/// How many of the first `n` files (with their source types) are in the bucket.
pub open spec fn bucket_count(files: Seq<FileRecord>, types: Seq<String>, b: FileBucket, n: int) -> nat
    decreases n,
{
    if n <= 0 {
        0
    } else {
        bucket_count(files, types, b, n - 1) + if in_bucket(b, types[n - 1]@, files[n - 1].confidence) {
            1nat
        } else {
            0nat
        }
    }
}

/// The total size of the first `n` files that are in the bucket.
pub open spec fn bucket_sum(files: Seq<FileRecord>, types: Seq<String>, b: FileBucket, n: int) -> int
    decreases n,
{
    if n <= 0 {
        0
    } else {
        bucket_sum(files, types, b, n - 1) + if in_bucket(b, types[n - 1]@, files[n - 1].confidence) {
            files[n - 1].size_bytes as int
        } else {
            0int
        }
    }
}

/// Whether adding up those sizes in file order stays within `i64` at every
/// step (SQLite's `SUM` fails with an overflow otherwise).
pub open spec fn bucket_sum_fits(files: Seq<FileRecord>, types: Seq<String>, b: FileBucket, n: int) -> bool
    decreases n,
{
    if n <= 0 {
        true
    } else {
        &&& bucket_sum_fits(files, types, b, n - 1)
        &&& in_bucket(b, types[n - 1]@, files[n - 1].confidence) ==> i64::MIN <= bucket_sum(files, types, b, n)
            <= i64::MAX
    }
}

/// Which files each report figure counts: every Google Photos file and every
/// Gmail attachment whatever their match, every file for the total, and only
/// unmatched (`Unique`) files for the Drive-only and phone-only figures.
pub proof fn law_bucket_membership(source_type: Seq<char>, c: Confidence)
    ensures
        in_bucket(FileBucket::Photos, source_type, c) == (source_type == "google_photos"@),
        in_bucket(FileBucket::Gmail, source_type, c) == (source_type == "gmail_attachments"@),
        in_bucket(FileBucket::All, source_type, c),
        in_bucket(FileBucket::DriveOnly, source_type, c) == (source_type == "google_drive"@ && c
            == Confidence::Unique),
        in_bucket(FileBucket::PhoneOnly, source_type, c) == ((source_type == "android_mtp"@ || source_type
            == "phone_import"@) && c == Confidence::Unique),
{
}

/// The Google Photos, Gmail and total figures do not depend on how files were
/// matched: two file lists with the same source types give the same count.
pub proof fn law_bucket_count_ignores_matching(
    files1: Seq<FileRecord>,
    files2: Seq<FileRecord>,
    types: Seq<String>,
    b: FileBucket,
    n: int,
)
    requires
        b == FileBucket::Photos || b == FileBucket::Gmail || b == FileBucket::All,
    ensures
        bucket_count(files1, types, b, n) == bucket_count(files2, types, b, n),
    decreases n,
{
    if n > 0 {
        law_bucket_membership(types[n - 1]@, files1[n - 1].confidence);
        law_bucket_membership(types[n - 1]@, files2[n - 1].confidence);
        law_bucket_count_ignores_matching(files1, files2, types, b, n - 1);
    }
}

fn is_in_bucket(b: FileBucket, source_type: &str, c: Confidence) -> (r: bool)
    ensures
        r == in_bucket(b, source_type@, c),
{
    let unique = match c {
        Confidence::Unique => true,
        _ => false,
    };
    match b {
        FileBucket::DriveOnly => str_eq(source_type, "google_drive") && unique,
        FileBucket::PhoneOnly => (str_eq(source_type, "android_mtp") || str_eq(source_type, "phone_import"))
            && unique,
        FileBucket::Photos => str_eq(source_type, "google_photos"),
        FileBucket::Gmail => str_eq(source_type, "gmail_attachments"),
        FileBucket::All => true,
    }
}

proof fn lemma_bucket_count_le(files: Seq<FileRecord>, types: Seq<String>, b: FileBucket, n: int)
    requires
        n >= 0,
    ensures
        bucket_count(files, types, b, n) <= n,
    decreases n,
{
    if n > 0 {
        lemma_bucket_count_le(files, types, b, n - 1);
    }
}

/// How many files are in the bucket (`types[i]` is the source type of `files[i]`).
pub fn count_in_bucket(files: &Vec<FileRecord>, types: &Vec<String>, b: FileBucket) -> (r: i64)
    requires
        types@.len() == files@.len(),
        files@.len() <= i64::MAX,
    ensures
        r == bucket_count(files@, types@, b, files@.len() as int),
{
    let mut c: i64 = 0;
    let mut i: usize = 0;
    while i < files.len()
        invariant
            types@.len() == files@.len(),
            files@.len() <= i64::MAX,
            i <= files@.len(),
            c == bucket_count(files@, types@, b, i as int),
        decreases files.len() - i,
    {
        proof {
            lemma_bucket_count_le(files@, types@, b, i as int);
        }
        if is_in_bucket(b, types[i].as_str(), files[i].confidence) {
            c = c + 1;
        }
        i += 1;
    }
    c
}

/// The total size of the files in the bucket, or an overflow error when the
/// running total leaves `i64`.
pub fn bytes_in_bucket(files: &Vec<FileRecord>, types: &Vec<String>, b: FileBucket) -> (r: Result<i64, String>)
    requires
        types@.len() == files@.len(),
    ensures
        match r {
            Ok(s) => bucket_sum_fits(files@, types@, b, files@.len() as int) && s == bucket_sum(
                files@,
                types@,
                b,
                files@.len() as int,
            ),
            Err(e) => !bucket_sum_fits(files@, types@, b, files@.len() as int) && e@ == "integer overflow"@,
        },
{
    let mut s: i64 = 0;
    let mut i: usize = 0;
    while i < files.len()
        invariant
            types@.len() == files@.len(),
            i <= files@.len(),
            bucket_sum_fits(files@, types@, b, i as int),
            s == bucket_sum(files@, types@, b, i as int),
        decreases files.len() - i,
    {
        if is_in_bucket(b, types[i].as_str(), files[i].confidence) {
            match s.checked_add(files[i].size_bytes) {
                Some(t) => s = t,
                None => {
                    proof {
                        lemma_fits_stops(files@, types@, b, i as int + 1, files@.len() as int);
                    }
                    return Err(owned("integer overflow"));
                },
            }
        }
        i += 1;
    }
    Ok(s)
}

/// Once the running total has left `i64`, it does not fit for any longer prefix.
proof fn lemma_fits_stops(files: Seq<FileRecord>, types: Seq<String>, b: FileBucket, k: int, n: int)
    requires
        1 <= k <= n,
        !bucket_sum_fits(files, types, b, k),
    ensures
        !bucket_sum_fits(files, types, b, n),
    decreases n - k,
{
    if k < n {
        lemma_fits_stops(files, types, b, k, n - 1);
    }
}

} // verus!

verus! {

/// How a connected phone's source is recorded: the source already kept for
/// its storage is updated, otherwise a new source is added (and the
/// connection is logged).
#[derive(Debug, PartialEq, Eq)]
pub enum PhoneSourceWrite {
    /// Update the source with this id.
    Update(String),
    /// Add a new source.
    Insert,
}

pub fn phone_source_write(existing_id: Option<String>) -> (r: PhoneSourceWrite)
    ensures
        match existing_id {
            Some(id) => r == PhoneSourceWrite::Update(id),
            None => r == PhoneSourceWrite::Insert,
        },
{
    match existing_id {
        Some(id) => PhoneSourceWrite::Update(id),
        None => PhoneSourceWrite::Insert,
    }
}

/// How many recovery candidates are safe, in `rows` of (size, safe).
pub open spec fn safe_count(rows: Seq<(i64, bool)>, n: int) -> nat
    decreases n,
{
    if n <= 0 {
        0
    } else {
        safe_count(rows, n - 1) + if rows[n - 1].1 { 1nat } else { 0nat }
    }
}

/// The total size of the safe recovery candidates among the first `n` rows.
pub open spec fn safe_bytes(rows: Seq<(i64, bool)>, n: int) -> int
    decreases n,
{
    if n <= 0 {
        0
    } else {
        safe_bytes(rows, n - 1) + if rows[n - 1].1 { rows[n - 1].0 as int } else { 0int }
    }
}

/// Whether adding up those sizes in row order stays within `i64` at every step.
pub open spec fn safe_bytes_fit(rows: Seq<(i64, bool)>, n: int) -> bool
    decreases n,
{
    if n <= 0 {
        true
    } else {
        &&& safe_bytes_fit(rows, n - 1)
        &&& rows[n - 1].1 ==> i64::MIN <= safe_bytes(rows, n) <= i64::MAX
    }
}

proof fn lemma_safe_count_le(rows: Seq<(i64, bool)>, n: int)
    requires
        n >= 0,
    ensures
        safe_count(rows, n) <= n,
    decreases n,
{
    if n > 0 {
        lemma_safe_count_le(rows, n - 1);
    }
}

proof fn lemma_safe_fit_stops(rows: Seq<(i64, bool)>, k: int, n: int)
    requires
        1 <= k <= n,
        !safe_bytes_fit(rows, k),
    ensures
        !safe_bytes_fit(rows, n),
    decreases n - k,
{
    if k < n {
        lemma_safe_fit_stops(rows, k, n - 1);
    }
}

/// How many recovery candidates are safe to move to Trash, in `rows` of
/// (size, safe).
pub fn safe_candidate_count(rows: &Vec<(i64, bool)>) -> (r: i64)
    requires
        rows@.len() <= i64::MAX,
    ensures
        r == safe_count(rows@, rows@.len() as int),
{
    let mut count: i64 = 0;
    let mut i: usize = 0;
    while i < rows.len()
        invariant
            rows@.len() <= i64::MAX,
            i <= rows@.len(),
            count == safe_count(rows@, i as int),
        decreases rows.len() - i,
    {
        proof {
            lemma_safe_count_le(rows@, i as int);
        }
        if rows[i].1 {
            count = count + 1;
        }
        i += 1;
    }
    count
}

/// The total size of the recovery candidates that are safe to move to Trash,
/// or an overflow error when that total leaves `i64`.
pub fn safe_candidate_bytes(rows: &Vec<(i64, bool)>) -> (r: Result<i64, String>)
    ensures
        match r {
            Ok(bytes) => safe_bytes_fit(rows@, rows@.len() as int) && bytes == safe_bytes(rows@, rows@.len() as int),
            Err(e) => !safe_bytes_fit(rows@, rows@.len() as int) && e@ == "integer overflow"@,
        },
{
    let mut bytes: i64 = 0;
    let mut i: usize = 0;
    while i < rows.len()
        invariant
            i <= rows@.len(),
            safe_bytes_fit(rows@, i as int),
            bytes == safe_bytes(rows@, i as int),
        decreases rows.len() - i,
    {
        let (size, safe) = rows[i];
        if safe {
            match bytes.checked_add(size) {
                Some(t) => bytes = t,
                None => {
                    proof {
                        lemma_safe_fit_stops(rows@, i as int + 1, rows@.len() as int);
                    }
                    return Err(owned("integer overflow"));
                },
            }
        }
        i += 1;
    }
    Ok(bytes)
}

/// Whether `r` lists the positions of the largest sizes, largest first: as
/// many as `limit` allows, each position once, and no position left out has a
/// larger size than the last one listed.
pub open spec fn largest_first(sizes: Seq<i64>, limit: int, r: Seq<usize>) -> bool {
    &&& r.len() == if limit < sizes.len() { limit } else { sizes.len() as int }
    &&& forall|k: int| 0 <= k < r.len() ==> (#[trigger] r[k]) < sizes.len()
    &&& forall|a: int, b: int| 0 <= a < b < r.len() ==> r[a] != r[b]
    &&& forall|a: int, b: int| 0 <= a < b < r.len() ==> sizes[r[a] as int] >= sizes[r[b] as int]
    &&& forall|j: int|
        0 <= j < sizes.len() && r.len() > 0 && !r.contains(j as usize) ==> #[trigger] sizes[j] <= sizes[r.last() as int]
}

/// The positions of the `limit` largest sizes, largest first; among equal
/// sizes the earlier position comes first. The report's proof samples are
/// the largest safe candidates chosen this way.
pub fn largest_first_indices(sizes: &Vec<i64>, limit: usize) -> (r: Vec<usize>)
    ensures
        largest_first(sizes@, limit as int, r@),
{
    let n = sizes.len();
    let mut order: Vec<usize> = Vec::new();
    let mut i: usize = 0;
    while i < n
        invariant
            n == sizes@.len(),
            i <= n,
            order@.len() == i,
            forall|k: int| 0 <= k < order@.len() ==> (#[trigger] order@[k]) < i,
            forall|a: int, b: int| 0 <= a < b < order@.len() ==> order@[a] != order@[b],
            forall|a: int, b: int| 0 <= a < b < order@.len() ==> sizes@[order@[a] as int] >= sizes@[order@[b] as int],
            forall|j: usize| j < i ==> #[trigger] order@.contains(j),
        decreases n - i,
    {
        let mut p: usize = 0;
        while p < order.len() && sizes[order[p]] >= sizes[i]
            invariant
                n == sizes@.len(),
                i < n,
                p <= order@.len(),
                forall|k: int| 0 <= k < order@.len() ==> (#[trigger] order@[k]) < i,
                forall|q: int| 0 <= q < p ==> sizes@[(#[trigger] order@[q]) as int] >= sizes@[i as int],
            decreases order@.len() - p,
        {
            p += 1;
        }
        let ghost old_order = order@;
        proof {
            old_order.insert_ensures(p as int, i);
        }
        order.insert(p, i);
        proof {
            let o = order@;
            assert forall|a: int, b: int| 0 <= a < b < o.len() implies sizes@[o[a] as int] >= sizes@[o[b] as int] by {
                if b < p {
                } else if b == p {
                    assert(o[a] == old_order[a]);
                } else if a < p {
                    assert(o[b] == old_order[b - 1]);
                    assert(o[a] == old_order[a]);
                } else if a == p {
                    assert(o[b] == old_order[b - 1]);
                    assert(sizes@[old_order[p as int] as int] < sizes@[i as int]);
                    if b - 1 > p {
                        assert(sizes@[old_order[p as int] as int] >= sizes@[old_order[b - 1] as int]);
                    }
                } else {
                    assert(o[b] == old_order[b - 1]);
                    assert(o[a] == old_order[a - 1]);
                }
            }
            assert forall|a: int, b: int| 0 <= a < b < o.len() implies o[a] != o[b] by {
                if a < p && b > p {
                    assert(o[b] == old_order[b - 1]);
                } else if a > p {
                    assert(o[a] == old_order[a - 1]);
                    assert(o[b] == old_order[b - 1]);
                } else if a == p {
                    assert(o[b] == old_order[b - 1]);
                    assert(old_order[b - 1] < i);
                } else if b == p {
                    assert(old_order[a] < i);
                }
            }
            assert forall|k: int| 0 <= k < o.len() implies (#[trigger] o[k]) < i + 1 by {
                if k < p {
                } else if k > p {
                    assert(o[k] == old_order[k - 1]);
                }
            }
            assert forall|j: usize| j < i + 1 implies #[trigger] o.contains(j) by {
                if j == i {
                    assert(o[p as int] == i);
                } else {
                    assert(old_order.contains(j));
                    let m = choose|m: int| 0 <= m < old_order.len() && old_order[m] == j;
                    if m < p {
                        assert(o[m] == old_order[m]);
                    } else {
                        assert(o[m + 1] == old_order[m]);
                    }
                }
            }
        }
        i += 1;
    }
    let k: usize = if limit < n { limit } else { n };
    let mut r: Vec<usize> = Vec::new();
    let mut t: usize = 0;
    while t < k
        invariant
            k <= n,
            n == sizes@.len(),
            order@.len() == n,
            t <= k,
            r@ == order@.take(t as int),
        decreases k - t,
    {
        r.push(order[t]);
        t += 1;
        assert(r@ =~= order@.take(t as int));
    }
    proof {
        let o = order@;
        assert forall|j: int| 0 <= j < n && r@.len() > 0 && !r@.contains(j as usize) implies #[trigger] sizes@[j] <= sizes@[r@.last() as int] by {
            assert(o.contains(j as usize));
            let m = choose|m: int| 0 <= m < o.len() && o[m] == j as usize;
            if m < k {
                assert(r@[m] == o[m]);
            }
            assert(r@.last() == o[k - 1]);
        }
    }
    r
}

} // verus!
