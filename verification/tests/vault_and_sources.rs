use deduper::scanner::vault::download_verdict;
use deduper::scanner::drive::{drive_item, DriveFile};
use deduper::scanner::gmail::{
    attachment_item, gmail_page_step, message_attachments, MessageDetail, MessagePart, MessagePayload, PartBody,
    MAX_MESSAGES,
};
use deduper::scanner::photos::{photos_content_hash, photos_item, PhotosMediaItem, PhotosMetadata};
use deduper::scanner::vault::{
    drive_download_precheck, is_media_filename, resolve_local_path, sanitize_vault_relative, source_label,
    vault_copy_precheck, vault_copy_verdict, vault_destination, vault_subfolder, VaultCopyOutcome,
};
use deduper::scanner::SourceType;

#[test]
fn vault_paths_never_climb_out() {
    assert_eq!(sanitize_vault_relative("a\\..\\b/./c.jpg", "c.jpg"), vec!["a", "b", "c.jpg"]);
    assert_eq!(sanitize_vault_relative("../../x.jpg", "x.jpg"), vec!["x.jpg"]);
    assert_eq!(sanitize_vault_relative("", "photo.jpg"), vec!["photo.jpg"]);
    assert_eq!(sanitize_vault_relative("//", "f.png"), vec!["f.png"]);
    assert_eq!(sanitize_vault_relative("", ".."), vec![".."]);
}

#[test]
fn vault_destination_uses_subfolders() {
    assert_eq!(vault_subfolder(&SourceType::GoogleDrive), "from-google-drive");
    assert_eq!(vault_subfolder(&SourceType::PhoneImport), "from-phone-backup");
    let d = vault_destination("/vault", &SourceType::Local, "2020/a.jpg", "a.jpg");
    assert_eq!(d, std::path::Path::new("/vault").join("from-this-pc").join("2020").join("a.jpg").to_string_lossy());
}

#[test]
fn labels_for_sources() {
    assert_eq!(source_label("google_drive", "Me"), "Google Drive (Me)");
    assert_eq!(source_label("phone_import", "B"), "Phone backup folder (B)");
    assert_eq!(source_label("other", "X"), "X");
}

#[test]
fn local_paths_of_scanned_files() {
    let sep = std::path::MAIN_SEPARATOR;
    assert_eq!(
        resolve_local_path("local", &Some("/root".into()), &None, "a/b.jpg", false),
        Some(format!("/root{sep}a{sep}b.jpg"))
    );
    assert_eq!(resolve_local_path("local", &None, &None, "a/b.jpg", false), None);
    assert_eq!(resolve_local_path("android_mtp", &None, &Some("/s".into()), "x.jpg", true), Some("x.jpg".into()));
    assert_eq!(resolve_local_path("android_mtp", &None, &Some("/s".into()), "x.jpg", false), Some(format!("/s{sep}x.jpg")));
    assert_eq!(resolve_local_path("google_drive", &Some("/r".into()), &None, "x", false), None);
}

#[test]
fn copy_decisions() {
    assert_eq!(vault_copy_precheck(false, false, false), Some(VaultCopyOutcome::Skipped));
    assert_eq!(vault_copy_precheck(true, true, false), Some(VaultCopyOutcome::Skipped));
    assert_eq!(vault_copy_precheck(true, false, true), Some(VaultCopyOutcome::Copied));
    assert_eq!(vault_copy_precheck(true, false, false), None);
    assert_eq!(vault_copy_verdict("ab", "ab", "x.jpg"), Ok(VaultCopyOutcome::Verified));
    assert_eq!(
        vault_copy_verdict("ab", "cd", "x.jpg"),
        Err("Copy verification failed for x.jpg — file was not saved".to_string())
    );
    assert_eq!(drive_download_precheck(true, true), Some(VaultCopyOutcome::Skipped));
    assert_eq!(drive_download_precheck(false, true), Some(VaultCopyOutcome::Copied));
    assert_eq!(drive_download_precheck(false, false), None);
    assert!(is_media_filename("a.HEIC"));
}

fn part(name: Option<&str>, size: Option<u64>, nested: Option<Vec<MessagePart>>) -> MessagePart {
    MessagePart {
        filename: name.map(String::from),
        body: Some(PartBody { attachment_id: None, size }),
        parts: nested,
        mime_type: None,
    }
}

#[test]
fn gmail_attachments_depth_first() {
    const MB: u64 = 1024 * 1024;
    let inner = vec![part(Some(" deep.mov "), Some(6 * MB), None), part(Some("small.jpg"), Some(MB), None)];
    let parts = vec![part(Some("big.pdf"), Some(5 * MB), Some(inner)), part(Some(""), Some(9 * MB), None)];
    let detail = MessageDetail {
        id: "m1".into(),
        payload: Some(MessagePayload { parts: Some(parts), filename: None, body: None, mime_type: None }),
        internal_date: None,
    };
    let found = message_attachments(&detail);
    assert_eq!(found, vec![("deep.mov".to_string(), 6 * MB, "m1".to_string()), ("big.pdf".to_string(), 5 * MB, "m1".to_string())]);
    let single = MessageDetail {
        id: "m2".into(),
        payload: Some(MessagePayload {
            parts: None,
            filename: Some("Whole.ZIP".into()),
            body: Some(PartBody { attachment_id: None, size: Some(7 * MB) }),
            mime_type: None,
        }),
        internal_date: None,
    };
    let found = message_attachments(&single);
    assert_eq!(found.len(), 1);
    let it = attachment_item(&found[0]);
    assert_eq!(it.content_hash.as_deref(), Some("gmail:m2:whole.zip"));
    assert_eq!(it.relative_path, "gmail://m2/Whole.ZIP");
    assert_eq!(it.size_bytes, 7 * MB);
}

#[test]
fn photos_items_are_likely_matches() {
    assert_eq!(photos_content_hash(" IMG.JPG ", "2020", "10", "20"), "likely:img.jpg:2020:10x20");
    let m = PhotosMediaItem {
        id: "p9".into(),
        filename: "IMG_1.JPG".into(),
        mime_type: Some("image/jpeg".into()),
        media_metadata: Some(PhotosMetadata { creation_time: Some("2020-01-01T01:00:00+01:00".into()), width: Some("4".into()), height: None }),
    };
    let it = photos_item(&m).unwrap();
    assert_eq!(it.content_hash.as_deref(), Some("likely:img_1.jpg:2020-01-01T01:00:00+01:00:4x0"));
    assert_eq!(it.modified_at.as_deref(), Some("2020-01-01T00:00:00+00:00"));
    assert_eq!(it.relative_path, "photos://p9");
    assert_eq!(it.drive_file_id.as_deref(), Some("p9"));
    let not_media = PhotosMediaItem { id: "x".into(), filename: "f.bin".into(), mime_type: None, media_metadata: None };
    assert!(photos_item(&not_media).is_none());
}

#[test]
fn drive_items() {
    let f = DriveFile {
        id: "abc".into(),
        name: "v.MOV".into(),
        mime_type: Some("video/quicktime".into()),
        size: Some("123".into()),
        md5_checksum: Some("ff".into()),
        modified_time: Some("bad time".into()),
    };
    let it = drive_item(&f).unwrap();
    assert_eq!(it.relative_path, "drive://abc");
    assert_eq!(it.size_bytes, 123);
    assert_eq!(it.modified_at, None);
    assert_eq!(it.md5_checksum.as_deref(), Some("ff"));
    let folder = DriveFile { mime_type: Some("application/vnd.google-apps.folder".into()), name: "x.jpg".into(), ..f.clone() };
    assert!(drive_item(&folder).is_none());
    let odd = DriveFile { size: Some("12x".into()), ..f };
    assert_eq!(drive_item(&odd).unwrap().size_bytes, 0);
}

#[test]
fn gmail_reads_at_most_two_hundred_messages() {
    assert_eq!(MAX_MESSAGES, 200);
    assert_eq!(gmail_page_step(0, 100, true), (100, 100, true));
    assert_eq!(gmail_page_step(100, 100, true), (100, 200, false));
    assert_eq!(gmail_page_step(150, 100, true), (50, 200, false));
    assert_eq!(gmail_page_step(0, 30, false), (30, 30, false));
    assert_eq!(gmail_page_step(200, 10, true), (0, 200, false));
}

#[test]
fn drive_downloads_are_verified_against_drive_md5() {
    let saved = "0cc175b9c0f1b6a831c399e269772661";
    assert!(matches!(
        download_verdict(&Some(" 0CC175B9C0F1B6A831C399E269772661\n".into()), saved, "a.jpg"),
        Ok(VaultCopyOutcome::Verified)
    ));
    assert_eq!(
        download_verdict(&Some("ffff".into()), saved, "a.jpg").unwrap_err(),
        "Copy verification failed for a.jpg — file was not saved"
    );
    assert!(download_verdict(&None, saved, "a.jpg").is_err());
}
