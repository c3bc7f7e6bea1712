use deduper::scanner::engine::{
    build_recovery_candidates, recompute_duplicates, resolve_content_hash, scan_batches, scan_start_index,
    parse_checkpoint, scanner_plan, is_cloud_source, running_progress, scan_begin, scan_next, ContentHashPlan, ScanAction,
    ScannerPlan, cached_hash, StoredHash,
};
use deduper::commands::{bytes_in_bucket, count_in_bucket, FileBucket};
use deduper::scanner::{Confidence, FileRecord, ScannedItem, SourceType};

fn file(id: &str, hash: Option<&str>, size: i64, drive_id: Option<&str>) -> FileRecord {
    FileRecord {
        id: id.into(),
        source_id: "s".into(),
        relative_path: format!("p/{id}"),
        filename: format!("{id}.jpg"),
        size_bytes: size,
        mime_type: None,
        modified_at: None,
        content_hash: hash.map(String::from),
        md5_checksum: None,
        drive_file_id: drive_id.map(String::from),
        confidence: Confidence::Unknown,
    }
}

#[test]
fn duplicates_are_grouped_by_hash() {
    let mut files = vec![
        file("f3", Some("md5:aa"), 10, Some("d1")),
        file("f1", Some("md5:aa"), 20, None),
        file("f2", Some("md5:bb"), 5, None),
        file("f4", Some("likely:x"), 1, None),
        file("f5", Some("likely:x"), 2, None),
        file("f6", Some(""), 7, None),
        file("f7", None, 8, None),
    ];
    files[6].confidence = Confidence::Unique;
    let a = recompute_duplicates(&files).unwrap();
    assert_eq!(
        a.confidences,
        vec![
            Confidence::VerifiedDuplicate,
            Confidence::VerifiedDuplicate,
            Confidence::Unique,
            Confidence::LikelyDuplicate,
            Confidence::LikelyDuplicate,
            Confidence::Unknown,
            Confidence::Unique,
        ]
    );
    assert_eq!(a.groups.len(), 2);
    let g = &a.groups[a.group_of[0].unwrap()];
    assert_eq!(g.content_hash, "md5:aa");
    assert_eq!(g.file_count, 2);
    assert_eq!(g.total_size_bytes, 30);
    assert_eq!(g.primary_file_id, "f1");
    assert_eq!(g.first_index, 0);
    assert_eq!(a.group_of[1], a.group_of[0]);
    assert_eq!(a.group_of[2], None);
    assert_eq!(a.groups[a.group_of[4].unwrap()].total_size_bytes, 3);
    assert_eq!(a.group_of[5], None);
    assert_eq!(a.group_of[6], None);
}

#[test]
fn group_size_overflow_is_an_error() {
    let files = vec![file("a", Some("h"), i64::MAX, None), file("b", Some("h"), 1, None)];
    assert_eq!(recompute_duplicates(&files).unwrap_err(), "integer overflow");
    let ok = vec![file("a", Some("h"), i64::MAX, None), file("b", Some("g"), 1, None)];
    assert!(recompute_duplicates(&ok).is_ok());
}

#[test]
fn many_files_are_grouped_quickly() {
    let files: Vec<FileRecord> =
        (0..13000).map(|i| file(&format!("id{i}"), Some(&format!("md5:{}", i % 7000)), 1, None)).collect();
    let a = recompute_duplicates(&files).unwrap();
    assert_eq!(a.groups.len(), 6000);
    assert_eq!(a.confidences.iter().filter(|c| **c == Confidence::Unique).count(), 1000);
}

#[test]
fn recovery_candidates_pair_drive_files_with_device_copies() {
    let mut files = vec![
        file("d1", Some("md5:aa"), 10, Some("drive-1")),
        file("l1", Some("md5:aa"), 10, None),
        file("p1", Some("md5:aa"), 10, None),
        file("d2", Some("md5:bb"), 5, Some("drive-2")),
        file("g1", Some("md5:bb"), 5, None),
        file("d3", Some("likely:z"), 4, Some("drive-3")),
        file("l3", Some("likely:z"), 4, None),
    ];
    let types: Vec<String> = ["google_drive", "local", "android_mtp", "google_drive", "google_photos", "google_drive", "local"]
        .iter()
        .map(|s| s.to_string())
        .collect();
    let a = recompute_duplicates(&files).unwrap();
    for (f, c) in files.iter_mut().zip(a.confidences.iter()) {
        f.confidence = *c;
    }
    let cands = build_recovery_candidates(&files, &types);
    assert_eq!(cands.len(), 2);
    assert_eq!((cands[0].drive_index, cands[0].local_index), (0, 1));
    assert_eq!((cands[1].drive_index, cands[1].local_index), (0, 2));
    assert_eq!(cands[0].drive_file_id, "drive-1");
    assert_eq!(cands[1].matched_local_file_id, "p1");
    assert!(cands.iter().all(|c| c.verified_safe && c.content_hash == "md5:aa"));
}

fn scanned(hash: Option<&str>, md5: Option<&str>) -> ScannedItem {
    ScannedItem {
        relative_path: "x".into(),
        filename: "x.jpg".into(),
        size_bytes: 1,
        mime_type: None,
        modified_at: None,
        content_hash: hash.map(String::from),
        md5_checksum: md5.map(String::from),
        drive_file_id: None,
        local_path: None,
    }
}

#[test]
fn content_hash_plans() {
    match resolve_content_hash(&scanned(Some("gmail:1:a"), None), true) {
        ContentHashPlan::Ready(Some((h, m))) => {
            assert_eq!(h, "gmail:1:a");
            assert_eq!(m, None);
        }
        other => panic!("unexpected {other:?}"),
    }
    match resolve_content_hash(&scanned(None, Some(" ABC ")), true) {
        ContentHashPlan::Ready(Some((h, m))) => {
            assert_eq!(h, "md5:abc");
            assert_eq!(m.as_deref(), Some("abc"));
        }
        other => panic!("unexpected {other:?}"),
    }
    assert!(matches!(resolve_content_hash(&scanned(None, None), true), ContentHashPlan::Ready(None)));
    assert!(matches!(resolve_content_hash(&scanned(None, Some("x")), false), ContentHashPlan::HashLocalFile));
}

#[test]
fn batches_and_checkpoints() {
    assert_eq!(scan_batches(0, 130), vec![(0, 64), (64, 128), (128, 130)]);
    assert_eq!(scan_batches(64, 128), vec![(64, 128)]);
    assert_eq!(scan_batches(5, 5), vec![]);
    assert_eq!(scan_start_index(None), 0);
    assert_eq!(scan_start_index(Some(128)), 128);
    assert_eq!(parse_checkpoint(&Some("64".into())), Some(64));
    assert_eq!(parse_checkpoint(&Some("x".into())), None);
    assert!(is_cloud_source(SourceType::GmailAttachments));
    assert!(!is_cloud_source(SourceType::PhoneImport));
    let p = running_progress("j", "s", 3, "a.jpg");
    assert_eq!((p.status.as_str(), p.processed_files, p.hashed_files), ("running", 3, 3));
}

#[test]
fn scanner_plans() {
    assert!(matches!(scanner_plan(SourceType::Local, Some("/p".into()), None, None, None), Ok(ScannerPlan::Local(p)) if p == "/p"));
    assert_eq!(scanner_plan(SourceType::Local, None, None, None, None).unwrap_err(), "missing local path");
    assert_eq!(scanner_plan(SourceType::GooglePhotos, None, None, None, None).unwrap_err(), "Google account not connected");
    assert!(matches!(
        scanner_plan(SourceType::AndroidMtp, None, None, Some("s".into()), None),
        Ok(ScannerPlan::AndroidMtp(n, s)) if n == "Android Device" && s == "s"
    ));
    assert_eq!(
        scanner_plan(SourceType::AndroidMtp, None, None, None, None).unwrap_err(),
        "missing phone storage path — reconnect your phone"
    );
}

#[test]
fn scan_steps_batch_by_batch() {
    let mut run = scan_begin(SourceType::GoogleDrive, 130, Some(64));
    assert_eq!(scan_next(&mut run, false), ScanAction::Batch(64, 128));
    assert_eq!(scan_next(&mut run, true), ScanAction::Cancel(128));
    assert_eq!(scan_next(&mut run, false), ScanAction::Batch(128, 130));
    assert_eq!(scan_next(&mut run, false), ScanAction::Finish(true));
    let mut local = scan_begin(SourceType::Local, 3, None);
    assert_eq!(scan_next(&mut local, false), ScanAction::Batch(0, 3));
    assert_eq!(scan_next(&mut local, false), ScanAction::Finish(false));
    let mut resumed_past_end = scan_begin(SourceType::Local, 3, Some(10));
    assert_eq!(scan_next(&mut resumed_past_end, true), ScanAction::Finish(false));
}

#[test]
fn report_buckets_count_and_add_up() {
    let mut a = file("a", Some("md5:1"), 100, Some("d1"));
    a.confidence = Confidence::Unique;
    let mut b = file("b", Some("md5:2"), 50, None);
    b.confidence = Confidence::Unique;
    let mut c = file("c", Some("md5:3"), 7, None);
    c.confidence = Confidence::VerifiedDuplicate;
    let d = file("d", None, 30, None);
    let files = vec![a, b, c, d];
    let types: Vec<String> =
        ["google_drive", "phone_import", "android_mtp", "gmail_attachments"].iter().map(|s| s.to_string()).collect();
    assert_eq!(count_in_bucket(&files, &types, FileBucket::DriveOnly), 1);
    assert_eq!(bytes_in_bucket(&files, &types, FileBucket::DriveOnly), Ok(100));
    assert_eq!(count_in_bucket(&files, &types, FileBucket::PhoneOnly), 1);
    assert_eq!(bytes_in_bucket(&files, &types, FileBucket::PhoneOnly), Ok(50));
    assert_eq!(count_in_bucket(&files, &types, FileBucket::Photos), 0);
    assert_eq!(bytes_in_bucket(&files, &types, FileBucket::Gmail), Ok(30));
    assert_eq!(count_in_bucket(&files, &types, FileBucket::All), 4);

    let big = vec![file("x", None, i64::MAX, None), file("y", None, 1, None)];
    let big_types = vec!["gmail_attachments".to_string(), "gmail_attachments".to_string()];
    assert_eq!(bytes_in_bucket(&big, &big_types, FileBucket::Gmail), Err("integer overflow".to_string()));
    assert_eq!(count_in_bucket(&big, &big_types, FileBucket::Gmail), 2);
}

#[test]
fn unchanged_files_reuse_their_hash() {
    let mut item = scanned(None, None);
    item.size_bytes = 10;
    item.modified_at = Some("2024-01-01T00:00:00+00:00".into());
    let stored = StoredHash {
        content_hash: Some("md5:abc".into()),
        md5_checksum: Some("abc".into()),
        size_bytes: 10,
        modified_at: Some("2024-01-01T00:00:00+00:00".into()),
    };
    assert_eq!(cached_hash(&Some(stored.clone()), &item), Some(("md5:abc".to_string(), Some("abc".to_string()))));
    let resized = StoredHash { size_bytes: 11, ..stored.clone() };
    assert_eq!(cached_hash(&Some(resized), &item), None);
    let touched = StoredHash { modified_at: Some("2024-02-01T00:00:00+00:00".into()), ..stored.clone() };
    assert_eq!(cached_hash(&Some(touched.clone()), &item), None);
    item.modified_at = None;
    assert!(cached_hash(&Some(touched), &item).is_some());
    let unhashed = StoredHash { content_hash: None, ..stored };
    assert_eq!(cached_hash(&Some(unhashed), &item), None);
    assert_eq!(cached_hash(&None, &item), None);
}
