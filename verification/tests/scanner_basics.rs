use deduper::scanner::local::{default_hash_path, validate_folder, LocalScanner, PhoneImportScanner, WalkEntry};
use deduper::scanner::mtp::{
    escape_ps_single, get_mtp_status, storage_path_assignment, validate_device_connected, MtpDevice, MtpFile,
    MtpScanner,
};
use deduper::scanner::{is_cloud_media_entry, is_media_file, Confidence, ScannedItem, SourceType, MEDIA_EXTENSIONS};

fn item(path: Option<&str>) -> ScannedItem {
    ScannedItem {
        relative_path: "dir/a.jpg".into(),
        filename: "a.jpg".into(),
        size_bytes: 1,
        mime_type: None,
        modified_at: None,
        content_hash: None,
        md5_checksum: None,
        drive_file_id: None,
        local_path: path.map(String::from),
    }
}

#[test]
fn source_type_names_round_trip() {
    for t in [
        SourceType::Local,
        SourceType::GoogleDrive,
        SourceType::GooglePhotos,
        SourceType::GmailAttachments,
        SourceType::AndroidMtp,
        SourceType::PhoneImport,
    ] {
        assert_eq!(SourceType::from_str(t.as_str()), Some(t));
    }
    assert_eq!(SourceType::GmailAttachments.as_str(), "gmail_attachments");
    assert_eq!(SourceType::from_str("dropbox"), None);
}

#[test]
fn confidence_names_round_trip() {
    for c in [Confidence::VerifiedDuplicate, Confidence::LikelyDuplicate, Confidence::Unique, Confidence::Unknown] {
        assert_eq!(Confidence::from_str(c.as_str()), c);
    }
    assert_eq!(Confidence::from_str("whatever"), Confidence::Unknown);
    assert_eq!(Confidence::LikelyDuplicate.as_str(), "likely_duplicate");
}

#[test]
fn media_files_by_extension() {
    assert_eq!(MEDIA_EXTENSIONS.len(), 40);
    assert!(is_media_file("IMG_0001.JPG"));
    assert!(is_media_file("clip.m2ts"));
    assert!(is_media_file("notes.md"));
    assert!(!is_media_file("archive.tar.gz"));
    assert!(!is_media_file("README"));
    assert!(!is_media_file("photo.jpg."));
}

#[test]
fn cloud_media_by_name_or_mime() {
    assert!(is_cloud_media_entry("x.bin", &Some("image/png".into())));
    assert!(is_cloud_media_entry("x.mov", &None));
    assert!(!is_cloud_media_entry("x.bin", &Some("application/zip".into())));
}

#[test]
fn local_scanner_items() {
    let s = LocalScanner::new("/photos".into());
    let it = s.item_for_file("/photos/2020/a.jpg", "a.jpg", 10, Some("2020-01-01T00:00:00+00:00".into())).unwrap();
    assert_eq!(it.relative_path, "2020/a.jpg");
    assert_eq!(it.mime_type.as_deref(), Some("image/jpeg"));
    assert_eq!(it.local_path.as_deref(), Some("/photos/2020/a.jpg"));
    assert_eq!(it.size_bytes, 10);
    assert!(s.item_for_file("/photos/x.exe", "x.exe", 1, None).is_none());
    assert_eq!(s.read_file_for_hash(&item(None)), "/photos/dir/a.jpg");
    assert_eq!(s.read_file_for_hash(&item(Some("/elsewhere/a.jpg"))), "/elsewhere/a.jpg");
    let p = PhoneImportScanner::new("/backup".into());
    assert_eq!(p.inner.root, "/backup");
}

#[test]
fn default_hash_path_needs_a_local_path() {
    assert_eq!(default_hash_path(&item(Some("/a"))), Ok("/a".to_string()));
    assert_eq!(default_hash_path(&item(None)), Err("no local path for hashing".to_string()));
}

#[test]
fn folder_validation() {
    assert_eq!(validate_folder(false, false), Err("folder does not exist".to_string()));
    assert_eq!(validate_folder(true, false), Err("path is not a folder".to_string()));
    assert_eq!(validate_folder(true, true), Ok(()));
}

fn device(path: &str) -> MtpDevice {
    MtpDevice {
        name: "Pixel".into(),
        storage_name: "Internal".into(),
        storage_path: path.into(),
        free_bytes: Some(5),
        total_bytes: None,
    }
}

#[test]
fn phone_scanner_listing() {
    let s = MtpScanner::new("Pixel".into(), "p1".into());
    assert_eq!(s.storage_path, "p1");
    let err = MtpScanner::items_from_listing(&vec![]).unwrap_err();
    assert!(err.starts_with("No photos or videos found on the phone."));
    let only_docs = vec![MtpFile { name: "a.exe".into(), path: "D/a.exe".into(), size_bytes: 3 }];
    assert_eq!(
        MtpScanner::items_from_listing(&only_docs).unwrap_err(),
        "Phone connected but no supported media files found in DCIM, Pictures, or Download."
    );
    let raw = vec![
        MtpFile { name: "a.exe".into(), path: "D/a.exe".into(), size_bytes: 3 },
        MtpFile { name: "b.MP4".into(), path: "DCIM/b.MP4".into(), size_bytes: 9 },
    ];
    let items = MtpScanner::items_from_listing(&raw).unwrap();
    assert_eq!(items.len(), 1);
    assert_eq!(items[0].relative_path, "DCIM/b.MP4");
    assert_eq!(items[0].mime_type.as_deref(), Some("video/mp4"));
}

#[test]
fn phone_read_for_hash() {
    assert_eq!(MtpScanner::read_file_for_hash(&item(Some("x")), true), Ok("x".to_string()));
    assert_eq!(
        MtpScanner::read_file_for_hash(&item(Some("x")), false),
        Err("Phone file no longer available (disconnected?): a.jpg".to_string())
    );
    assert_eq!(MtpScanner::read_file_for_hash(&item(None), true), Err("no path for a.jpg".to_string()));
}

#[test]
fn powershell_quoting() {
    assert_eq!(escape_ps_single("Tom's phone"), "Tom''s phone");
    assert_eq!(storage_path_assignment("a'b"), "$storagePath = 'a''b'; ");
}

#[test]
fn phone_status_and_connection_check() {
    let devs = vec![device("p1"), device("p2")];
    let st = get_mtp_status(&devs);
    assert_eq!(st.len(), 2);
    assert!(st[1].connected);
    assert_eq!(st[1].storage_path, "p2");
    assert_eq!(st[0].media_folders.len(), 10);
    assert_eq!(st[0].media_folders[0], "DCIM");
    assert!(validate_device_connected(&devs, "p2").is_ok());
    assert!(validate_device_connected(&devs, "p3").unwrap_err().starts_with("Phone was disconnected"));
    assert!(validate_device_connected(&vec![], "p1").unwrap_err().starts_with("No Android phone detected."));
}

#[test]
fn phone_backup_lists_like_a_pc_folder() {
    let entries = vec![
        WalkEntry { path: "/r/a.JPG".into(), filename: "a.JPG".into(), size: 3, modified_at: None },
        WalkEntry { path: "/r/notes.exe".into(), filename: "notes.exe".into(), size: 1, modified_at: None },
        WalkEntry { path: "/r/d/b.mp4".into(), filename: "b.mp4".into(), size: 9, modified_at: Some("t".into()) },
    ];
    let pc = LocalScanner::new("/r".into()).items_from_walk(&entries);
    let phone = PhoneImportScanner::new("/r".into()).items_from_walk(&entries);
    assert_eq!(pc.len(), 2);
    assert_eq!(pc[1].relative_path, "d/b.mp4");
    assert_eq!(
        pc.iter().map(|i| (i.relative_path.clone(), i.size_bytes, i.mime_type.clone())).collect::<Vec<_>>(),
        phone.iter().map(|i| (i.relative_path.clone(), i.size_bytes, i.mime_type.clone())).collect::<Vec<_>>()
    );
    let p = PhoneImportScanner::new("/r".into());
    assert_eq!(p.read_file_for_hash(&pc[0]), "/r/a.JPG");
}
