use deduper::commands::{
    largest_first_indices, phone_source_write, safe_candidate_bytes, safe_candidate_count, PhoneSourceWrite,
};
use deduper::commands::{
    android_display_name, audit_options, check_trash_confirmation, copy_action, effective_vault, like_pattern,
    local_source_name, progress_matches, recommendation_summary, recovery_sample, safety_note, setup_status,
    setup_step_key, CopyAction, CopyTally,
};
use deduper::config::embedded::{client_id, client_secret, has_credentials, OAuthDefaults};
use deduper::config::{
    complete_wizard, get_google_oauth_status, reset_wizard, save_google_credentials, set_vault_path, AppConfig,
};
use deduper::scanner::full_audit::{
    after_source_scan, audit_after_scan, audit_complete, audit_next, audit_start, include_source, phase_label,
    phase_message, problem_message, select_audit_sources, source_display_name, update_audit_progress, AuditAction,
    AuditScanOutcome, FullAuditOptions,
};
use deduper::scanner::mtp::MtpDevice;
use deduper::scanner::vault::VaultCopyOutcome;
use deduper::scanner::SourceType;
use deduper::state::CancelFlags;
use deduper::watcher::{connected_message, device_keys, device_name_of_key, get_status, newly_connected};

#[test]
fn trash_needs_the_confirmation_phrase() {
    assert!(check_trash_confirmation(true, "").is_ok());
    assert!(check_trash_confirmation(false, "  move to trash ").is_ok());
    assert_eq!(check_trash_confirmation(false, "delete").unwrap_err(), "Type MOVE TO TRASH exactly to confirm.");
    assert!(check_trash_confirmation(false, "MOVE TO TRASH!").is_err());
    assert!(check_trash_confirmation(false, "").is_err());
}

#[test]
fn which_unique_files_are_saved() {
    let id = Some("d1".to_string());
    assert!(matches!(copy_action("google_drive", &id, true, true, true), CopyAction::Download(x) if x == "d1"));
    assert!(matches!(copy_action("google_drive", &None, true, true, true), CopyAction::Skip));
    assert!(matches!(copy_action("google_drive", &id, false, true, true), CopyAction::Skip));
    assert!(matches!(copy_action("android_mtp", &None, true, true, false), CopyAction::CopyLocal(SourceType::AndroidMtp)));
    assert!(matches!(copy_action("local", &None, true, true, false), CopyAction::Skip));
    assert!(matches!(copy_action("google_photos", &id, true, true, true), CopyAction::Skip));
    assert!(matches!(copy_action("mystery", &id, true, true, true), CopyAction::Skip));
    let mut t = CopyTally::new();
    t.record(VaultCopyOutcome::Verified);
    t.record(VaultCopyOutcome::Copied);
    t.record(VaultCopyOutcome::Skipped);
    t.record_skip();
    t.record_failure();
    let r = t.into_result(false, "/v".into());
    assert_eq!((r.copied_count, r.verified_count, r.skipped_count, r.failed_count), (2, 1, 2, 1));
}

#[test]
fn small_command_rules() {
    assert_eq!(like_pattern("C:\\Photos"), "%C:\\\\Photos%");
    assert_eq!(local_source_name(None, "/home/me/Pictures"), "Pictures");
    assert_eq!(local_source_name(Some("Mine".into()), "/x"), "Mine");
    assert_eq!(local_source_name(None, "/"), "Local Folder");
    let d = MtpDevice { name: "Pixel".into(), storage_name: "Internal".into(), storage_path: "p".into(), free_bytes: None, total_bytes: None };
    assert_eq!(android_display_name(None, &d), "Pixel (Internal)");
    assert!(progress_matches(&None, "j1"));
    assert!(progress_matches(&Some("j1".into()), "j1"));
    assert!(!progress_matches(&Some("j2".into()), "j1"));
    assert_eq!(effective_vault(None, Some("s".into())), Some("s".into()));
    assert_eq!(effective_vault(Some("c".into()), Some("s".into())), Some("c".into()));
    assert_eq!(setup_step_key("welcome"), "setup_welcome");
    let o = audit_options(None, Some(false), None, Some(true), None);
    assert!(o.include_google_drive && !o.include_google_photos && o.include_this_pc);
    assert_eq!(
        recommendation_summary(3, 10, "1.5"),
        "You can free up about 1.5 GB on Google Drive — 3 files are already saved on your PC or phone."
    );
    assert_eq!(recommendation_summary(0, 0, "0.0"), "Run a full check first to see your results.");
    assert!(recommendation_summary(0, 5, "0.0").starts_with("No exact duplicates found"));
    assert!(safety_note().starts_with("These files are on Google Drive AND"));
    let s = recovery_sample("a.jpg".into(), 5, "d".into(), "local", "Pics", &Some("/r".into()), &None, "a.jpg", false);
    assert_eq!(s.copy_location_label.as_deref(), Some("This PC (Pics)"));
    assert_eq!(s.copy_already_on_pc, Some(format!("/r{}a.jpg", std::path::MAIN_SEPARATOR)));
}

#[test]
fn wizard_and_credentials() {
    let mut cfg = AppConfig::default();
    assert!(!cfg.wizard_done());
    complete_wizard(&mut cfg, false, "now".into());
    assert!(cfg.wizard_done());
    assert_eq!(cfg.wizard_completed_at.as_deref(), Some("now"));
    reset_wizard(&mut cfg);
    assert!(!cfg.wizard_done());
    complete_wizard(&mut cfg, true, "later".into());
    assert!(cfg.wizard_skipped && cfg.wizard_completed_at.is_none());
    set_vault_path(&mut cfg, "/v".into());
    assert_eq!(cfg.vault_path.as_deref(), Some("/v"));
    assert!(!cfg.has_google_credentials());
    save_google_credentials(&mut cfg, " id ".into(), "secret\n".into());
    assert_eq!(cfg.google_client_id.as_deref(), Some("id"));
    assert!(cfg.has_google_credentials());
    assert_eq!(cfg.google_client_id(Some("env".into())), Some("id".into()));
    let blank = AppConfig { google_client_id: Some("  ".into()), ..AppConfig::default() };
    assert_eq!(blank.google_client_id(Some("env".into())), Some("env".into()));
    assert_eq!(blank.google_client_secret(Some(" ".into())), None);
    assert!(AppConfig::config_path("/data").ends_with("config.json"));
    let st = setup_status(&cfg, 1, 0, 1, 0, false);
    assert!(st.welcome_done && st.local_added && st.drive_connected && !st.android_connected && st.vault_set);
}

#[test]
fn oauth_config_status_and_preview() {
    let cfg = AppConfig {
        google_client_id: Some("1234567890123456.apps".into()),
        google_client_secret: Some("s".into()),
        ..AppConfig::default()
    };
    let st = get_google_oauth_status(&cfg, None, None);
    assert!(st.configured);
    assert_eq!(st.source, "config");
    assert_eq!(st.client_id_preview.as_deref(), Some("123456789012…"));
    let env = get_google_oauth_status(&AppConfig::default(), Some("short".into()), Some("x".into()));
    assert_eq!((env.source.as_str(), env.client_id_preview.as_deref()), ("env", Some("short")));
    let none = get_google_oauth_status(&AppConfig::default(), Some("".into()), Some("x".into()));
    assert!(!none.configured && none.source == "none" && none.client_id_preview.is_none());
}

#[test]
fn built_in_client() {
    let d = OAuthDefaults { google_client_id: " id ".into(), google_client_secret: "".into() };
    assert_eq!(client_id(&d), Some("id".into()));
    assert_eq!(client_secret(&d), None);
    assert!(!has_credentials(&d));
}

#[test]
fn full_check_steps() {
    assert_eq!(source_display_name("google_drive", "Me"), "Google Drive — Me");
    assert_eq!(source_display_name("zzz", "Me"), "Me");
    assert_eq!(phase_label("android_mtp"), "Checking your phone");
    assert_eq!(phase_message("local"), "Checking this PC…");
    assert_eq!(problem_message("This PC — x"), "Problem while checking This PC — x");
    let opts = FullAuditOptions { include_phone: false, ..FullAuditOptions::default() };
    assert!(!include_source(&opts, "phone_import"));
    assert!(include_source(&opts, "future_source"));
    let rows = vec![
        ("1".to_string(), "google_drive".to_string(), "D".to_string()),
        ("2".to_string(), "android_mtp".to_string(), "P".to_string()),
        ("3".to_string(), "local".to_string(), "L".to_string()),
    ];
    let kept = select_audit_sources(rows, &opts);
    assert_eq!(kept.iter().map(|r| r.0.as_str()).collect::<Vec<_>>(), vec!["1", "3"]);
    assert!(matches!(after_source_scan("local", Ok(())), AuditScanOutcome::Continue));
    assert!(matches!(after_source_scan("android_mtp", Err("e".into())), AuditScanOutcome::Skip(e) if e == "e"));
    assert!(matches!(after_source_scan("google_drive", Err("e".into())), AuditScanOutcome::Fail(e) if e == "e"));
    let mut slot = None;
    update_audit_progress(&mut slot, "j", "running", "starting", "m", 0, 2, None, None, 0, 0, Some("err"));
    let p = slot.unwrap();
    assert_eq!((p.job_id.as_str(), p.sources_total, p.error_message.as_deref()), ("j", 2, Some("err")));
}

#[test]
fn cancel_flags() {
    let mut f = CancelFlags::new();
    assert!(!f.is_scan_cancelled());
    f.request_full_audit_cancel();
    assert!(f.is_scan_cancelled() && f.is_full_audit_cancelled());
    f.reset_scan_cancel();
    assert!(f.is_scan_cancelled());
    f.reset_full_audit_cancel();
    assert!(!f.is_scan_cancelled());
    f.request_scan_cancel();
    assert!(f.is_full_audit_cancelled());
}

#[test]
fn phone_watcher() {
    let devs = vec![
        MtpDevice { name: "Pixel".into(), storage_name: "Internal".into(), storage_path: "p1".into(), free_bytes: None, total_bytes: None },
        MtpDevice { name: "Galaxy".into(), storage_name: "Card".into(), storage_path: "p2".into(), free_bytes: None, total_bytes: None },
    ];
    let st = get_status(&devs);
    assert_eq!(st.connected_devices, vec!["Pixel (Internal)", "Galaxy (Card)"]);
    assert!(st.active);
    let keys = device_keys(&devs);
    assert_eq!(keys, vec!["Pixel|p1", "Galaxy|p2"]);
    let fresh = newly_connected(&vec!["Pixel|p1".to_string()], &keys);
    assert_eq!(fresh, vec!["Galaxy|p2"]);
    let twice = vec!["Galaxy|p2".to_string(), "Pixel|p1".to_string(), "Galaxy|p2".to_string()];
    assert_eq!(newly_connected(&vec![], &twice), vec!["Galaxy|p2", "Pixel|p1"]);
    assert_eq!(device_name_of_key("Galaxy|p2"), "Galaxy");
    assert_eq!(device_name_of_key("NoBar"), "NoBar");
    assert_eq!(connected_message("Galaxy"), "Galaxy connected — open Deduper to scan your photos.");
}

#[test]
fn full_check_runs_source_by_source() {
    let rows = vec![
        ("1".to_string(), "google_drive".to_string(), "D".to_string()),
        ("2".to_string(), "android_mtp".to_string(), "P".to_string()),
        ("3".to_string(), "local".to_string(), "L".to_string()),
    ];
    let (mut run, first) = audit_start("job".to_string(), rows, &FullAuditOptions::default());
    assert_eq!((first.status.as_str(), first.phase.as_str(), first.sources_total), ("running", "starting", 3));
    assert_eq!(first.message, "Getting ready to check all your photos and videos…");

    let step = audit_next(&run, false);
    assert!(matches!(step.action, AuditAction::Scan(0)));
    let p = step.progress.unwrap();
    assert_eq!((p.phase.as_str(), p.message.as_str(), p.sources_done), ("google_drive", "Checking Google Drive…", 0));
    assert_eq!(p.current_source_name.as_deref(), Some("Google Drive — D"));
    assert!(matches!(audit_after_scan(&mut run, Ok(())).action, AuditAction::Next));

    assert!(matches!(audit_next(&run, false).action, AuditAction::Scan(1)));
    let skipped = audit_after_scan(&mut run, Err("unplugged".into()));
    assert!(matches!(skipped.action, AuditAction::Skipped(1, ref e) if e == "unplugged"));
    assert!(skipped.progress.is_none());

    assert!(matches!(audit_next(&run, false).action, AuditAction::Scan(2)));
    let failed = audit_after_scan(&mut run, Err("disk".into()));
    assert!(matches!(failed.action, AuditAction::Failed(2, ref e) if e == "disk"));
    let p = failed.progress.unwrap();
    assert_eq!((p.status.as_str(), p.message.as_str()), ("failed", "Problem while checking This PC — L"));
    assert_eq!(p.error_message.as_deref(), Some("disk"));
    assert_eq!(run.next, 2);
    assert!(matches!(audit_after_scan(&mut run, Ok(())).action, AuditAction::Next));

    let analyze = audit_next(&run, true);
    assert!(matches!(analyze.action, AuditAction::Analyze));
    assert_eq!(analyze.progress.unwrap().sources_done, 3);
    let done = audit_complete(&run);
    assert_eq!((done.status.as_str(), done.phase.as_str(), done.sources_done), ("completed", "done", 3));
}

#[test]
fn full_check_stops_when_cancelled_or_empty() {
    let rows = vec![("1".to_string(), "local".to_string(), "L".to_string())];
    let (run, _) = audit_start("job".to_string(), rows, &FullAuditOptions::default());
    let stop = audit_next(&run, true);
    assert!(matches!(stop.action, AuditAction::Stop(Ok(()))));
    let p = stop.progress.unwrap();
    assert_eq!((p.status.as_str(), p.message.as_str(), p.sources_done), ("cancelled", "Check stopped.", 0));

    let opts = FullAuditOptions { include_this_pc: false, ..FullAuditOptions::default() };
    let rows = vec![("1".to_string(), "local".to_string(), "L".to_string())];
    let (run, first) = audit_start("job".to_string(), rows, &opts);
    assert_eq!(first.sources_total, 0);
    let empty = audit_next(&run, false);
    assert!(matches!(empty.action, AuditAction::Stop(Err(ref e)) if e == "Connect Google Drive and your PC folder first (use Setup)."));
    assert_eq!(empty.progress.unwrap().error_message.as_deref(), Some("No sources connected"));
}

#[test]
fn recoverable_figures_and_largest_samples() {
    let rows = vec![(10i64, true), (99, false), (5, true)];
    assert_eq!(safe_candidate_count(&rows), 2);
    assert_eq!(safe_candidate_bytes(&rows), Ok(15));
    assert_eq!(safe_candidate_bytes(&vec![(i64::MAX, true), (1, true)]), Err("integer overflow".to_string()));
    assert_eq!(safe_candidate_count(&vec![(i64::MAX, true), (1, true)]), 2);
    assert_eq!(largest_first_indices(&vec![3, 9, 1, 9, 4], 3), vec![1, 3, 4]);
    assert_eq!(largest_first_indices(&vec![3, 9], 10), vec![1, 0]);
    assert_eq!(largest_first_indices(&vec![], 5), Vec::<usize>::new());
    assert_eq!(phone_source_write(Some("id1".into())), PhoneSourceWrite::Update("id1".into()));
    assert_eq!(phone_source_write(None), PhoneSourceWrite::Insert);
}
