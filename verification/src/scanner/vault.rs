//! Saving files that exist only in one place into the user's PC vault folder.

use vstd::prelude::*;
use crate::scanner::{is_media_file, is_media_name, SourceType};
use crate::hash::{normalize_md5, normalized_md5};
use crate::text::{
    concat2, concat3, is_path_separator, owned, path_join, push_char, replace_char, replace_char_spec,
    main_separator, spec_path_join, split_char, split_spec, str_eq, strings_match,
};

verus! {

#[derive(Debug, Clone)]
pub struct VaultCopyResult {
    pub copied_count: i64,
    pub skipped_count: i64,
    pub verified_count: i64,
    pub failed_count: i64,
    pub dry_run: bool,
    pub destination: String,
}

/// What happened to one file.
#[derive(Debug, Clone, Copy, PartialEq, Eq, Structural)]
pub enum VaultCopyOutcome {
    Copied,
    Verified,
    Skipped,
}

/// Human-readable label for where a file lives.
pub open spec fn source_label_spec(source_type: Seq<char>, name: Seq<char>) -> Seq<char> {
    if source_type == "google_drive"@ {
        "Google Drive ("@ + name + ")"@
    } else if source_type == "google_photos"@ {
        "Google Photos ("@ + name + ")"@
    } else if source_type == "gmail_attachments"@ {
        "Gmail attachments ("@ + name + ")"@
    } else if source_type == "android_mtp"@ {
        "Your phone ("@ + name + ")"@
    } else if source_type == "phone_import"@ {
        "Phone backup folder ("@ + name + ")"@
    } else if source_type == "local"@ {
        "This PC ("@ + name + ")"@
    } else {
        name
    }
}

/// Human-readable label for where a file lives.
pub fn source_label(source_type: &str, name: &str) -> (r: String)
    ensures
        r@ == source_label_spec(source_type@, name@),
{
    if str_eq(source_type, "google_drive") {
        concat3("Google Drive (", name, ")")
    } else if str_eq(source_type, "google_photos") {
        concat3("Google Photos (", name, ")")
    } else if str_eq(source_type, "gmail_attachments") {
        concat3("Gmail attachments (", name, ")")
    } else if str_eq(source_type, "android_mtp") {
        concat3("Your phone (", name, ")")
    } else if str_eq(source_type, "phone_import") {
        concat3("Phone backup folder (", name, ")")
    } else if str_eq(source_type, "local") {
        concat3("This PC (", name, ")")
    } else {
        owned(name)
    }
}

/// The vault subfolder for files from each kind of source that can be saved.
pub open spec fn vault_subfolder_spec(t: SourceType) -> Seq<char> {
    match t {
        SourceType::GoogleDrive => "from-google-drive"@,
        SourceType::AndroidMtp => "from-phone"@,
        SourceType::PhoneImport => "from-phone-backup"@,
        _ => "from-this-pc"@,
    }
}

/// Whether files of this kind of source are ever saved to the vault (Google
/// Photos and Gmail attachments never are).
pub open spec fn vault_source(t: SourceType) -> bool {
    t != SourceType::GooglePhotos && t != SourceType::GmailAttachments
}

pub fn vault_subfolder(source_type: &SourceType) -> (r: &'static str)
    requires
        vault_source(*source_type),
    ensures
        r@ == vault_subfolder_spec(*source_type),
{
    match source_type {
        SourceType::GoogleDrive => "from-google-drive",
        SourceType::AndroidMtp => "from-phone",
        SourceType::PhoneImport => "from-phone-backup",
        _ => "from-this-pc",
    }
}

/// A relative path with `/` turned into the platform's separator.
pub open spec fn native_relative(relative_path: Seq<char>, sep: char) -> Seq<char> {
    replace_char_spec(relative_path, '/', seq![sep])
}

/// Where a scanned file lives on this machine: under the folder of a PC or
/// phone-backup source; for a phone, the listed path itself when it exists
/// (`direct_exists`), else under the phone's storage path; nowhere for cloud
/// sources. `config_path` and `config_storage_path` are the source's `path`
/// and `storage_path` settings.
pub open spec fn resolve_local_path_spec(
    source_type: Seq<char>,
    config_path: Option<Seq<char>>,
    config_storage_path: Option<Seq<char>>,
    relative_path: Seq<char>,
    direct_exists: bool,
    sep: char,
) -> Option<Seq<char>> {
    if source_type == "local"@ || source_type == "phone_import"@ {
        match config_path {
            Some(root) => Some(spec_path_join(root, native_relative(relative_path, sep))),
            None => None,
        }
    } else if source_type == "android_mtp"@ {
        if direct_exists {
            Some(relative_path)
        } else {
            match config_storage_path {
                Some(root) => Some(spec_path_join(root, native_relative(relative_path, sep))),
                None => None,
            }
        }
    } else {
        None
    }
}

fn native_relative_exec(relative_path: &str, sep: char) -> (r: String)
    ensures
        r@ == native_relative(relative_path@, sep),
{
    let mut sep_text = String::new();
    push_char(&mut sep_text, sep);
    assert(sep_text@ =~= seq![sep]);
    replace_char(relative_path, '/', sep_text.as_str())
}

/// Resolve the on-disk path for a scanned file (not Drive — those must be downloaded).
pub fn resolve_local_path(
    source_type: &str,
    config_path: &Option<String>,
    config_storage_path: &Option<String>,
    relative_path: &str,
    direct_exists: bool,
) -> (r: Option<String>)
    ensures
        exists|sep: char|
            is_path_separator(sep) && #[trigger] resolve_local_path_spec(
                source_type@,
                opt_view(*config_path),
                opt_view(*config_storage_path),
                relative_path@,
                direct_exists,
                sep,
            ) == opt_view(r),
{
    let sep = main_separator();
    let ghost expected = resolve_local_path_spec(
        source_type@,
        opt_view(*config_path),
        opt_view(*config_storage_path),
        relative_path@,
        direct_exists,
        sep,
    );
    let r = resolve_with(source_type, config_path, config_storage_path, relative_path, direct_exists, sep);
    assert(expected == opt_view(r));
    r
}

fn resolve_with(
    source_type: &str,
    config_path: &Option<String>,
    config_storage_path: &Option<String>,
    relative_path: &str,
    direct_exists: bool,
    sep: char,
) -> (r: Option<String>)
    ensures
        resolve_local_path_spec(source_type@, opt_view(*config_path), opt_view(*config_storage_path), relative_path@, direct_exists, sep) == opt_view(r),
{
    if str_eq(source_type, "local") || str_eq(source_type, "phone_import") {
        match config_path {
            Some(root) => {
                let rel = native_relative_exec(relative_path, sep);
                Some(path_join(root.as_str(), rel.as_str()))
            },
            None => None,
        }
    } else if str_eq(source_type, "android_mtp") {
        if direct_exists {
            return Some(owned(relative_path));
        }
        match config_storage_path {
            Some(root) => {
                let rel = native_relative_exec(relative_path, sep);
                Some(path_join(root.as_str(), rel.as_str()))
            },
            None => None,
        }
    } else {
        None
    }
}

/// The view of an optional string.
pub open spec fn opt_view(v: Option<String>) -> Option<Seq<char>> {
    match v {
        Some(s) => Some(s@),
        None => None,
    }
}

/// Whether a path piece may stand in the vault: not empty, `.` or `..`.
pub open spec fn plain_component(p: Seq<char>) -> bool {
    p.len() > 0 && p != "."@ && p != ".."@
}

/// The plain pieces of a path, in order.
pub open spec fn keep_plain(parts: Seq<Seq<char>>) -> Seq<Seq<char>>
    decreases parts.len(),
{
    if parts.len() == 0 {
        Seq::empty()
    } else {
        let prev = keep_plain(parts.drop_last());
        if plain_component(parts.last()) {
            prev.push(parts.last())
        } else {
            prev
        }
    }
}

/// The path pieces under which a file is saved in the vault: the relative path
/// (or the file name when there is none) with `\` read as `/`, cut at `/`, with
/// empty, `.` and `..` pieces dropped; the file name alone when nothing is left.
pub open spec fn sanitized_parts(relative_path: Seq<char>, filename: Seq<char>) -> Seq<Seq<char>> {
    let raw = if relative_path.len() == 0 {
        filename
    } else {
        replace_char_spec(relative_path, '\\', "/"@)
    };
    let parts = keep_plain(split_spec(raw, '/'));
    if parts.len() == 0 {
        seq![filename]
    } else {
        parts
    }
}

fn is_plain_component(p: &str) -> (r: bool)
    ensures
        r == plain_component(p@),
{
    !p.is_empty() && !str_eq(p, ".") && !str_eq(p, "..")
}

/// The path pieces under which a file is saved in the vault.
pub fn sanitize_vault_relative(relative_path: &str, filename: &str) -> (r: Vec<String>)
    ensures
        strings_match(r@, sanitized_parts(relative_path@, filename@)),
{
    let raw = if relative_path.is_empty() {
        owned(filename)
    } else {
        replace_char(relative_path, '\\', "/")
    };
    let pieces = split_char(raw.as_str(), '/');
    let ghost sp = split_spec(raw@, '/');
    let mut parts: Vec<String> = Vec::new();
    let mut i: usize = 0;
    while i < pieces.len()
        invariant
            strings_match(pieces@, sp),
            i <= pieces@.len(),
            strings_match(parts@, keep_plain(sp.take(i as int))),
        decreases pieces.len() - i,
    {
        assert(sp.take(i + 1).drop_last() =~= sp.take(i as int));
        let keep = is_plain_component(pieces[i].as_str());
        if keep {
            parts.push(pieces[i].clone());
        }
        i += 1;
    }
    assert(sp.take(pieces@.len() as int) =~= sp);
    if parts.len() == 0 {
        parts.push(owned(filename));
        assert(strings_match(parts@, seq![filename@]));
    }
    parts
}

/// The pieces of the vault path never climb out of the vault: apart from a file
/// name that stands alone because nothing else was left, every piece is
/// non-empty, is neither `.` nor `..`, and holds no `/`.
pub proof fn law_vault_parts_stay_inside(relative_path: Seq<char>, filename: Seq<char>)
    ensures
        sanitized_parts(relative_path, filename) == seq![filename] || forall|k: int|
            0 <= k < sanitized_parts(relative_path, filename).len() ==> plain_component(
                #[trigger] sanitized_parts(relative_path, filename)[k],
            ) && !sanitized_parts(relative_path, filename)[k].contains('/'),
{
    let raw = if relative_path.len() == 0 {
        filename
    } else {
        replace_char_spec(relative_path, '\\', "/"@)
    };
    lemma_split_pieces_no_sep(raw, '/');
    lemma_keep_plain_sound(split_spec(raw, '/'));
}

/// No piece of `split_spec(s, c)` contains `c`.
pub proof fn lemma_split_pieces_no_sep(s: Seq<char>, c: char)
    ensures
        forall|k: int| 0 <= k < split_spec(s, c).len() ==> !(#[trigger] split_spec(s, c)[k]).contains(c),
    decreases s.len(),
{
    crate::text::lemma_split_nonempty(s, c);
    if s.len() > 0 {
        lemma_split_pieces_no_sep(s.drop_last(), c);
        crate::text::lemma_split_nonempty(s.drop_last(), c);
        let prev = split_spec(s.drop_last(), c);
        if s.last() != c {
            assert forall|k: int| 0 <= k < split_spec(s, c).len() implies !(#[trigger] split_spec(s, c)[k]).contains(c) by {
                if k == prev.len() - 1 {
                    let piece = prev.last().push(s.last());
                    if piece.contains(c) {
                        let m = choose|m: int| 0 <= m < piece.len() && piece[m] == c;
                        if m < prev.last().len() {
                            assert(prev.last()[m] == c);
                            assert(prev[prev.len() - 1].contains(c));
                        }
                    }
                }
            }
        } else {
            assert forall|k: int| 0 <= k < split_spec(s, c).len() implies !(#[trigger] split_spec(s, c)[k]).contains(c) by {
                if k == prev.len() {
                    assert(split_spec(s, c)[k] =~= Seq::<char>::empty());
                }
            }
        }
    }
}

/// `keep_plain` keeps only plain pieces, each taken from its input.
pub proof fn lemma_keep_plain_sound(parts: Seq<Seq<char>>)
    ensures
        forall|k: int| 0 <= k < keep_plain(parts).len() ==> plain_component(#[trigger] keep_plain(parts)[k]) && parts.contains(keep_plain(parts)[k]),
    decreases parts.len(),
{
    if parts.len() > 0 {
        lemma_keep_plain_sound(parts.drop_last());
        let prev = keep_plain(parts.drop_last());
        assert forall|k: int| 0 <= k < keep_plain(parts).len() implies plain_component(#[trigger] keep_plain(parts)[k]) && parts.contains(keep_plain(parts)[k]) by {
            if k < prev.len() {
                let x = prev[k];
                assert(parts.drop_last().contains(x));
                let m = choose|m: int| 0 <= m < parts.drop_last().len() && parts.drop_last()[m] == x;
                assert(parts[m] == x);
            } else {
                assert(parts[parts.len() - 1] == parts.last());
            }
        }
    }
}

} // verus!

verus! {

/// Paths joined one after another onto `base`.
pub open spec fn join_all(base: Seq<char>, parts: Seq<Seq<char>>) -> Seq<char>
    decreases parts.len(),
{
    if parts.len() == 0 {
        base
    } else {
        spec_path_join(join_all(base, parts.drop_last()), parts.last())
    }
}

/// Where a file is saved in the vault: the vault folder, the source kind's
/// subfolder, then the file's sanitized relative path.
pub open spec fn vault_destination_spec(
    vault_root: Seq<char>,
    source_type: SourceType,
    relative_path: Seq<char>,
    filename: Seq<char>,
) -> Seq<char> {
    spec_path_join(
        spec_path_join(vault_root, vault_subfolder_spec(source_type)),
        join_all(Seq::empty(), sanitized_parts(relative_path, filename)),
    )
}

/// Where a file is saved in the vault.
pub fn vault_destination(vault_root: &str, source_type: &SourceType, relative_path: &str, filename: &str) -> (r: String)
    requires
        vault_source(*source_type),
    ensures
        r@ == vault_destination_spec(vault_root@, *source_type, relative_path@, filename@),
{
    let sub = vault_subfolder(source_type);
    let parts = sanitize_vault_relative(relative_path, filename);
    let ghost sp = sanitized_parts(relative_path@, filename@);
    let mut rel = String::new();
    let mut i: usize = 0;
    while i < parts.len()
        invariant
            strings_match(parts@, sp),
            i <= parts@.len(),
            rel@ == join_all(Seq::empty(), sp.take(i as int)),
        decreases parts.len() - i,
    {
        assert(sp.take(i + 1).drop_last() =~= sp.take(i as int));
        rel = path_join(rel.as_str(), parts[i].as_str());
        i += 1;
    }
    assert(sp.take(parts@.len() as int) =~= sp);
    let base = path_join(vault_root, sub);
    path_join(base.as_str(), rel.as_str())
}

/// Decides a local copy before anything is written: skip a file that is gone or
/// whose identical copy is already in the vault (`same_copy_exists`: the
/// destination exists and has the source's MD5); on a dry run count it as
/// copied; otherwise go on and copy (`None`).
pub fn vault_copy_precheck(src_exists: bool, same_copy_exists: bool, dry_run: bool) -> (r: Option<VaultCopyOutcome>)
    ensures
        !src_exists ==> r == Some(VaultCopyOutcome::Skipped),
        src_exists && same_copy_exists ==> r == Some(VaultCopyOutcome::Skipped),
        src_exists && !same_copy_exists && dry_run ==> r == Some(VaultCopyOutcome::Copied),
        src_exists && !same_copy_exists && !dry_run ==> r is None,
{
    if !src_exists {
        return Some(VaultCopyOutcome::Skipped);
    }
    if same_copy_exists {
        return Some(VaultCopyOutcome::Skipped);
    }
    if dry_run {
        return Some(VaultCopyOutcome::Copied);
    }
    None
}

/// The message given when a copy does not match its source.
pub open spec fn verification_failed_message(filename: Seq<char>) -> Seq<char> {
    "Copy verification failed for "@ + filename + " — file was not saved"@
}

/// Checks a finished copy: it counts as verified only when the copy's MD5 equals
/// the source's; otherwise the copy is refused.
pub fn vault_copy_verdict(src_md5: &str, dest_md5: &str, filename: &str) -> (r: Result<VaultCopyOutcome, String>)
    ensures
        src_md5@ == dest_md5@ ==> r == Ok::<VaultCopyOutcome, String>(VaultCopyOutcome::Verified),
        src_md5@ != dest_md5@ ==> (r matches Err(m) && m@ == verification_failed_message(filename@)),
{
    if str_eq(src_md5, dest_md5) {
        Ok(VaultCopyOutcome::Verified)
    } else {
        Err(concat3("Copy verification failed for ", filename, " — file was not saved"))
    }
}

/// Checks a finished Google Drive download: it counts as verified only when
/// Drive reported an MD5 checksum and it, normalized, equals the MD5 of the
/// saved file; otherwise the download is refused.
pub fn download_verdict(drive_md5: &Option<String>, saved_md5: &str, filename: &str) -> (r: Result<VaultCopyOutcome, String>)
    ensures
        r is Ok <==> (drive_md5 matches Some(m) && normalized_md5(m@) == saved_md5@),
        r is Ok ==> r == Ok::<VaultCopyOutcome, String>(VaultCopyOutcome::Verified),
        r matches Err(m) ==> m@ == verification_failed_message(filename@),
{
    let matches = match drive_md5 {
        Some(m) => {
            let n = normalize_md5(m.as_str());
            str_eq(n.as_str(), saved_md5)
        },
        None => false,
    };
    if matches {
        Ok(VaultCopyOutcome::Verified)
    } else {
        Err(concat3("Copy verification failed for ", filename, " — file was not saved"))
    }
}

/// Decides a Google Drive download before anything is fetched: skip when the
/// destination exists, count a dry run as copied, otherwise download (`None`).
pub fn drive_download_precheck(dest_exists: bool, dry_run: bool) -> (r: Option<VaultCopyOutcome>)
    ensures
        dest_exists ==> r == Some(VaultCopyOutcome::Skipped),
        !dest_exists && dry_run ==> r == Some(VaultCopyOutcome::Copied),
        !dest_exists && !dry_run ==> r is None,
{
    if dest_exists {
        Some(VaultCopyOutcome::Skipped)
    } else if dry_run {
        Some(VaultCopyOutcome::Copied)
    } else {
        None
    }
}

pub fn is_media_filename(name: &str) -> (r: bool)
    ensures
        r == is_media_name(name@),
{
    is_media_file(name)
}

} // verus!
