//! Source kinds, per-file records and the media filter shared by every scanner.

pub mod engine;
pub mod vault;
pub mod local;
pub mod mtp;
pub mod gmail;
pub mod photos;
pub mod drive;
pub mod full_audit;



use vstd::prelude::*;
use crate::text::{str_eq, after_last, after_last_char, lowercase_of, to_lowercase, starts_with, has_prefix};

verus! {

/// Where a file was found.
#[derive(Debug, Clone, Copy, PartialEq, Eq, Structural)]
pub enum SourceType {
    Local,
    GoogleDrive,
    GooglePhotos,
    GmailAttachments,
    AndroidMtp,
    PhoneImport,
}

/// The stored name of a source type.
pub open spec fn source_type_name(t: SourceType) -> Seq<char> {
    match t {
        SourceType::Local => "local"@,
        SourceType::GoogleDrive => "google_drive"@,
        SourceType::GooglePhotos => "google_photos"@,
        SourceType::GmailAttachments => "gmail_attachments"@,
        SourceType::AndroidMtp => "android_mtp"@,
        SourceType::PhoneImport => "phone_import"@,
    }
}

/// The source type a stored name denotes, if any.
pub open spec fn parse_source_type(s: Seq<char>) -> Option<SourceType> {
    if s == "local"@ {
        Some(SourceType::Local)
    } else if s == "google_drive"@ {
        Some(SourceType::GoogleDrive)
    } else if s == "google_photos"@ {
        Some(SourceType::GooglePhotos)
    } else if s == "gmail_attachments"@ {
        Some(SourceType::GmailAttachments)
    } else if s == "android_mtp"@ {
        Some(SourceType::AndroidMtp)
    } else if s == "phone_import"@ {
        Some(SourceType::PhoneImport)
    } else {
        None
    }
}

impl SourceType {
    pub fn as_str(&self) -> (r: &'static str)
        ensures
            r@ == source_type_name(*self),
    {
        match self {
            SourceType::Local => "local",
            SourceType::GoogleDrive => "google_drive",
            SourceType::GooglePhotos => "google_photos",
            SourceType::GmailAttachments => "gmail_attachments",
            SourceType::AndroidMtp => "android_mtp",
            SourceType::PhoneImport => "phone_import",
        }
    }

    pub fn from_str(s: &str) -> (r: Option<SourceType>)
        ensures
            r == parse_source_type(s@),
    {
        if str_eq(s, "local") {
            Some(SourceType::Local)
        } else if str_eq(s, "google_drive") {
            Some(SourceType::GoogleDrive)
        } else if str_eq(s, "google_photos") {
            Some(SourceType::GooglePhotos)
        } else if str_eq(s, "gmail_attachments") {
            Some(SourceType::GmailAttachments)
        } else if str_eq(s, "android_mtp") {
            Some(SourceType::AndroidMtp)
        } else if str_eq(s, "phone_import") {
            Some(SourceType::PhoneImport)
        } else {
            None
        }
    }
}

/// Reading back the stored name of a source type gives that source type.
pub proof fn lemma_source_type_roundtrip(t: SourceType)
    ensures
        parse_source_type(source_type_name(t)) == Some(t),
{
    reveal_strlit("local");
    reveal_strlit("google_drive");
    reveal_strlit("google_photos");
    reveal_strlit("gmail_attachments");
    reveal_strlit("android_mtp");
    reveal_strlit("phone_import");
    assert("google_drive"@ != "local"@) by {
        assert("google_drive"@[0] != "local"@[0]);
    }
    assert("google_photos"@ != "local"@) by {
        assert("google_photos"@[0] != "local"@[0]);
    }
    assert("google_photos"@ != "google_drive"@) by {
        assert("google_photos"@[7] != "google_drive"@[7]);
    }
    assert("gmail_attachments"@ != "local"@) by {
        assert("gmail_attachments"@[0] != "local"@[0]);
    }
    assert("gmail_attachments"@ != "google_drive"@) by {
        assert("gmail_attachments"@[1] != "google_drive"@[1]);
    }
    assert("gmail_attachments"@ != "google_photos"@) by {
        assert("gmail_attachments"@[1] != "google_photos"@[1]);
    }
    assert("android_mtp"@ != "local"@) by {
        assert("android_mtp"@[0] != "local"@[0]);
    }
    assert("android_mtp"@ != "google_drive"@) by {
        assert("android_mtp"@[0] != "google_drive"@[0]);
    }
    assert("android_mtp"@ != "google_photos"@) by {
        assert("android_mtp"@[0] != "google_photos"@[0]);
    }
    assert("android_mtp"@ != "gmail_attachments"@) by {
        assert("android_mtp"@[0] != "gmail_attachments"@[0]);
    }
    assert("phone_import"@ != "local"@) by {
        assert("phone_import"@[0] != "local"@[0]);
    }
    assert("phone_import"@ != "google_drive"@) by {
        assert("phone_import"@[0] != "google_drive"@[0]);
    }
    assert("phone_import"@ != "google_photos"@) by {
        assert("phone_import"@[0] != "google_photos"@[0]);
    }
    assert("phone_import"@ != "gmail_attachments"@) by {
        assert("phone_import"@[0] != "gmail_attachments"@[0]);
    }
    assert("phone_import"@ != "android_mtp"@) by {
        assert("phone_import"@[0] != "android_mtp"@[0]);
    }
}

/// Each stored source type name reads back as its own source type, so the
/// six names are pairwise different.
pub proof fn lemma_source_type_names_parse()
    ensures
        parse_source_type("local"@) == Some(SourceType::Local),
        parse_source_type("google_drive"@) == Some(SourceType::GoogleDrive),
        parse_source_type("google_photos"@) == Some(SourceType::GooglePhotos),
        parse_source_type("gmail_attachments"@) == Some(SourceType::GmailAttachments),
        parse_source_type("android_mtp"@) == Some(SourceType::AndroidMtp),
        parse_source_type("phone_import"@) == Some(SourceType::PhoneImport),
{
    lemma_source_type_roundtrip(SourceType::Local);
    lemma_source_type_roundtrip(SourceType::GoogleDrive);
    lemma_source_type_roundtrip(SourceType::GooglePhotos);
    lemma_source_type_roundtrip(SourceType::GmailAttachments);
    lemma_source_type_roundtrip(SourceType::AndroidMtp);
    lemma_source_type_roundtrip(SourceType::PhoneImport);
}

/// A name that parses as a source type is that source type's stored name.
pub proof fn lemma_source_type_parse_inverse(s: Seq<char>)
    ensures
        parse_source_type(s) matches Some(t) ==> source_type_name(t) == s,
{
}

/// How sure the library is that a file has a copy elsewhere.
#[derive(Debug, Clone, Copy, PartialEq, Eq, Structural)]
pub enum Confidence {
    VerifiedDuplicate,
    LikelyDuplicate,
    Unique,
    Unknown,
}

/// The stored name of a confidence level.
pub open spec fn confidence_name(c: Confidence) -> Seq<char> {
    match c {
        Confidence::VerifiedDuplicate => "verified_duplicate"@,
        Confidence::LikelyDuplicate => "likely_duplicate"@,
        Confidence::Unique => "unique"@,
        Confidence::Unknown => "unknown"@,
    }
}

/// The confidence level a stored name denotes; any other text reads as `Unknown`.
pub open spec fn parse_confidence(s: Seq<char>) -> Confidence {
    if s == "verified_duplicate"@ {
        Confidence::VerifiedDuplicate
    } else if s == "likely_duplicate"@ {
        Confidence::LikelyDuplicate
    } else if s == "unique"@ {
        Confidence::Unique
    } else {
        Confidence::Unknown
    }
}

impl Confidence {
    pub fn as_str(&self) -> (r: &'static str)
        ensures
            r@ == confidence_name(*self),
    {
        match self {
            Confidence::VerifiedDuplicate => "verified_duplicate",
            Confidence::LikelyDuplicate => "likely_duplicate",
            Confidence::Unique => "unique",
            Confidence::Unknown => "unknown",
        }
    }

    pub fn from_str(s: &str) -> (r: Confidence)
        ensures
            r == parse_confidence(s@),
    {
        if str_eq(s, "verified_duplicate") {
            Confidence::VerifiedDuplicate
        } else if str_eq(s, "likely_duplicate") {
            Confidence::LikelyDuplicate
        } else if str_eq(s, "unique") {
            Confidence::Unique
        } else {
            Confidence::Unknown
        }
    }
}

/// Reading back the stored name of a confidence level gives that level.
pub proof fn lemma_confidence_roundtrip(c: Confidence)
    ensures
        parse_confidence(confidence_name(c)) == c,
{
    reveal_strlit("verified_duplicate");
    reveal_strlit("likely_duplicate");
    reveal_strlit("unique");
    reveal_strlit("unknown");
    assert("likely_duplicate"@ != "verified_duplicate"@) by {
        assert("likely_duplicate"@[0] != "verified_duplicate"@[0]);
    }
    assert("unique"@ != "verified_duplicate"@) by {
        assert("unique"@[0] != "verified_duplicate"@[0]);
    }
    assert("unique"@ != "likely_duplicate"@) by {
        assert("unique"@[0] != "likely_duplicate"@[0]);
    }
    assert("unknown"@ != "verified_duplicate"@) by {
        assert("unknown"@[0] != "verified_duplicate"@[0]);
    }
    assert("unknown"@ != "likely_duplicate"@) by {
        assert("unknown"@[0] != "likely_duplicate"@[0]);
    }
    assert("unknown"@ != "unique"@) by {
        assert("unknown"@[2] != "unique"@[2]);
    }
}

/// One file as the library stores it.
#[derive(Debug, Clone)]
pub struct FileRecord {
    pub id: String,
    pub source_id: String,
    pub relative_path: String,
    pub filename: String,
    pub size_bytes: i64,
    pub mime_type: Option<String>,
    pub modified_at: Option<String>,
    pub content_hash: Option<String>,
    pub md5_checksum: Option<String>,
    pub drive_file_id: Option<String>,
    pub confidence: Confidence,
}

/// Progress of one source scan.
#[derive(Debug, Clone)]
pub struct ScanProgress {
    pub job_id: String,
    pub source_id: String,
    pub status: String,
    pub total_files: i64,
    pub processed_files: i64,
    pub hashed_files: i64,
    pub current_file: Option<String>,
    pub error_message: Option<String>,
}

/// One file that a scanner listed. `modified_at` is an RFC 3339 time in UTC and
/// `local_path` a path on this machine.
#[derive(Debug, Clone)]
pub struct ScannedItem {
    pub relative_path: String,
    pub filename: String,
    pub size_bytes: u64,
    pub mime_type: Option<String>,
    pub modified_at: Option<String>,
    pub content_hash: Option<String>,
    pub md5_checksum: Option<String>,
    pub drive_file_id: Option<String>,
    pub local_path: Option<String>,
}

/// File extensions (lower case) that the library treats as photos, videos or documents.
pub const MEDIA_EXTENSIONS: [&'static str; 40] = [
    "jpg", "jpeg", "png", "gif", "webp", "heic", "heif", "bmp", "tif", "tiff", "raw", "cr2",
    "nef", "arw", "dng",
    "mp4", "mov", "avi", "mkv", "wmv", "flv", "webm", "m4v", "3gp", "mts", "m2ts",
    "pdf", "doc", "docx", "xls", "xlsx", "ppt", "pptx", "txt", "rtf", "odt", "ods", "odp",
    "csv", "md",
];

} // verus!

verus! {

/// Whether `e` is one of `MEDIA_EXTENSIONS`.
pub open spec fn is_media_extension(e: Seq<char>) -> bool {
    exists|i: int| 0 <= i < MEDIA_EXTENSIONS@.len() && (#[trigger] MEDIA_EXTENSIONS@[i])@ == e
}

/// Whether a file name's extension (the text after its last `.`, lower-cased)
/// is a media extension.
pub open spec fn is_media_name(name: Seq<char>) -> bool {
    is_media_extension(lowercase_of(after_last(name, '.')))
}

/// Whether `e` is one of `MEDIA_EXTENSIONS`.
pub fn media_extension_listed(e: &str) -> (r: bool)
    ensures
        r == is_media_extension(e@),
{
    let mut i: usize = 0;
    while i < 40
        invariant
            i <= 40,
            MEDIA_EXTENSIONS@.len() == 40,
            forall|j: int| 0 <= j < i ==> (#[trigger] MEDIA_EXTENSIONS@[j])@ != e@,
        decreases 40 - i,
    {
        if str_eq(MEDIA_EXTENSIONS[i], e) {
            return true;
        }
        i += 1;
    }
    false
}

/// Whether a file name looks like a photo, video or document, by extension.
pub fn is_media_file(name: &str) -> (r: bool)
    ensures
        r == is_media_name(name@),
{
    let ext = after_last_char(name, '.');
    let lower = to_lowercase(ext.as_str());
    media_extension_listed(lower.as_str())
}

/// Whether a MIME type names an image or a video.
pub open spec fn is_visual_mime(m: Seq<char>) -> bool {
    has_prefix(m, "image/"@) || has_prefix(m, "video/"@)
}

/// Whether a cloud listing entry counts as media: by its name, or else by an
/// image or video MIME type.
pub open spec fn is_cloud_media(name: Seq<char>, mime: Option<Seq<char>>) -> bool {
    is_media_name(name) || (mime matches Some(m) && is_visual_mime(m))
}

/// Whether a cloud listing entry counts as media (its name has a media extension,
/// or its MIME type starts with `image/` or `video/`).
pub fn is_cloud_media_entry(name: &str, mime: &Option<String>) -> (r: bool)
    ensures
        r == is_cloud_media(name@, match mime { Some(m) => Some(m@), None => None }),
{
    if is_media_file(name) {
        return true;
    }
    match mime {
        Some(m) => starts_with(m.as_str(), "image/") || starts_with(m.as_str(), "video/"),
        None => false,
    }
}

} // verus!

verus! {

/// What `chrono` makes of an RFC 3339 time (`None` when the text is not one):
/// the instant as seconds and nanoseconds since the Unix epoch, and the same
/// instant in UTC written back in RFC 3339.
pub uninterp spec fn spec_rfc3339(s: Seq<char>) -> Option<(i64, u32, Seq<char>)>;

/// `DateTime::parse_from_rfc3339(s)`, read as `timestamp()`,
/// `timestamp_subsec_nanos()` and, moved to UTC, `to_rfc3339()`.
#[verifier::external_body]
pub(crate) fn parse_rfc3339(s: &str) -> (r: Option<(i64, u32, String)>)
    ensures
        match r {
            Some((secs, nanos, utc)) => spec_rfc3339(s@) == Some((secs, nanos, utc@)),
            None => spec_rfc3339(s@) is None,
        },
{
    chrono::DateTime::parse_from_rfc3339(s).ok().map(
        |t| (t.timestamp(), t.timestamp_subsec_nanos(), t.with_timezone(&chrono::Utc).to_rfc3339()),
    )
}

/// An optional RFC 3339 time, moved to UTC; a time that does not parse is dropped.
pub open spec fn utc_time_of(s: Option<Seq<char>>) -> Option<Seq<char>> {
    match s {
        Some(t) => match spec_rfc3339(t) {
            Some((_secs, _nanos, utc)) => Some(utc),
            None => None,
        },
        None => None,
    }
}

pub fn utc_time(s: &Option<String>) -> (r: Option<String>)
    ensures
        match r {
            Some(t) => utc_time_of(opt_str(*s)) == Some(t@),
            None => utc_time_of(opt_str(*s)) is None,
        },
{
    match s {
        Some(t) => match parse_rfc3339(t.as_str()) {
            Some((_secs, _nanos, utc)) => Some(utc),
            None => None,
        },
        None => None,
    }
}

/// The view of an optional string.
pub open spec fn opt_str(v: Option<String>) -> Option<Seq<char>> {
    match v {
        Some(s) => Some(s@),
        None => None,
    }
}

} // verus!
