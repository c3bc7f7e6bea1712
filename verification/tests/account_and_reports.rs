use deduper::oauth::drive::{
    auth_status_from, auth_url, begin_sign_in, check_candidates, check_cleanup_permission, decode_url_component, granted_scopes,
    has_scope, needs_refresh, oauth_port, parse_callback, quota_numbers, redirect_uri, token_action, trash_outcome,
    google_sources, CallbackResult, TokenAction, TrashOutcome, TrashTally, CLEANUP_SCOPES, DRIVE_FULL_SCOPE, PHOTOS_SCOPE,
    READ_SCOPES,
};
use deduper::reports::{activity_summary, html_escape, receipt_dir, receipt_paths, render_html, ProofLine, QuotaDisplay, ReceiptDocument};

#[test]
fn scopes_are_read_word_by_word() {
    assert_eq!(has_scope(&Some(CLEANUP_SCOPES.into()), DRIVE_FULL_SCOPE), Ok(true));
    assert_eq!(has_scope(&Some(READ_SCOPES.into()), DRIVE_FULL_SCOPE), Ok(false));
    assert_eq!(has_scope(&None, PHOTOS_SCOPE), Err("Google account not connected".to_string()));
    let st = auth_status_from(Some(("tok".into(), READ_SCOPES.into())), Some("a@b.c".into()));
    assert!(st.connected && st.photos_enabled && st.gmail_enabled && !st.cleanup_enabled && !st.write_enabled());
    assert_eq!(st.scopes.len(), 3);
    assert_eq!(st.email.as_deref(), Some("a@b.c"));
    let none = auth_status_from(None, Some("ignored".into()));
    assert!(!none.connected && none.email.is_none() && none.scopes.is_empty());
}

#[test]
fn token_refresh_two_minutes_early() {
    // 2020-01-01T00:00:00Z is 1577836800.
    let exp = Some("2020-01-01T00:00:00Z".to_string());
    assert!(!needs_refresh(&exp, 1577836800 - 121, 0));
    assert!(!needs_refresh(&exp, 1577836800 - 120, 0));
    assert!(needs_refresh(&exp, 1577836800 - 120, 1));
    assert!(needs_refresh(&exp, 1577836800, 0));
    assert!(!needs_refresh(&None, 0, 0));
    assert!(!needs_refresh(&Some("soon".into()), 0, 0));
    assert!(matches!(token_action(false, None), Ok(TokenAction::UseStored)));
    assert!(matches!(token_action(true, Some("r".into())), Ok(TokenAction::Refresh(t)) if t == "r"));
    assert_eq!(token_action(true, None).unwrap_err(), "Session expired — please connect Google again");
}

#[test]
fn oauth_callback_handling() {
    assert_eq!(redirect_uri(8888), "http://127.0.0.1:8888/oauth/callback");
    assert_eq!(oauth_port(&None), 8888);
    assert_eq!(oauth_port(&Some("9000".into())), 9000);
    assert_eq!(oauth_port(&Some("70000".into())), 8888);
    assert!(matches!(parse_callback("/oauth/callback?code=4%2F0AX+y&scope=s"), CallbackResult::Code(c) if c == "4/0AX y"));
    assert!(matches!(parse_callback("/oauth/callback?state=1&error=access_denied"), CallbackResult::Denied(m) if m == "OAuth denied: error=access_denied"));
    assert!(matches!(parse_callback("/favicon.ico"), CallbackResult::Waiting));
    assert_eq!(decode_url_component("a%20b"), "a b");
    assert_eq!(decode_url_component(""), "");
    let url = auth_url("cid", "http://127.0.0.1:8888/oauth/callback", "s1 s2", "chal").unwrap();
    assert!(url.starts_with("https://accounts.google.com/o/oauth2/v2/auth?client_id=cid&redirect_uri=http%3A%2F%2F127.0.0.1%3A8888%2Foauth%2Fcallback&response_type=code&scope=s1+s2&code_challenge=chal&code_challenge_method=S256&access_type=offline&prompt=consent"));
    assert_eq!(granted_scopes(&None, "x"), "x");
    assert_eq!(granted_scopes(&Some("y".into()), "x"), "y");
    assert_eq!(google_sources().len(), 3);
}

#[test]
fn trash_tally_and_checks() {
    assert_eq!(trash_outcome(200), TrashOutcome::Trashed);
    assert_eq!(trash_outcome(204), TrashOutcome::Trashed);
    assert_eq!(trash_outcome(404), TrashOutcome::NotFound);
    assert_eq!(trash_outcome(500), TrashOutcome::Failed);
    let mut t = TrashTally::new();
    t.record(TrashOutcome::Trashed, 10);
    t.record(TrashOutcome::DryRun, 5);
    t.record(TrashOutcome::NotFound, 7);
    t.record(TrashOutcome::Failed, 9);
    assert_eq!((t.trashed_count, t.skipped_count, t.failed_count, t.bytes_freed), (2, 1, 1, 15));
    assert!(check_cleanup_permission(true).is_ok());
    assert!(check_cleanup_permission(false).unwrap_err().starts_with("Cleanup permission not granted."));
    assert!(check_candidates(0).unwrap_err().starts_with("Nothing to move"));
    assert!(check_candidates(3).is_ok());
}

#[test]
fn quota_numbers_from_google() {
    let q = quota_numbers(&Some("100".into()), &Some("30".into()), &None, &Some("x".into()));
    assert_eq!((q.limit_bytes, q.usage_bytes, q.usage_in_drive_bytes, q.usage_in_trash_bytes, q.free_bytes), (100, 30, 0, 0, 70));
    let full = quota_numbers(&Some("10".into()), &Some("30".into()), &None, &None);
    assert_eq!(full.free_bytes, 0);
}

#[test]
fn html_escaping() {
    assert_eq!(html_escape("<a href=\"x\">&</a>"), "&lt;a href=&quot;x&quot;&gt;&amp;&lt;/a&gt;");
    assert_eq!(html_escape("&lt;"), "&amp;lt;");
}

#[test]
fn receipt_rendering() {
    let doc = ReceiptDocument {
        exported_at: "2024-01-01T00:00:00+00:00".into(),
        app: "Deduper".into(),
        google_account: None,
        vault_path: Some("/v".into()),
        storage_quota: Some(QuotaDisplay { usage_display: "1.0 GB".into(), limit_display: "15.0 GB".into(), free_display: "14.0 GB".into() }),
        recoverable_bytes: 0,
        recoverable_count: 0,
        google_drive_only_count: 0,
        google_drive_only_bytes: 0,
        phone_only_count: 0,
        total_files_checked: 0,
        proof_samples: vec![ProofLine { filename: "<b>.jpg".into(), size_bytes: 1, copy_on_pc: None, size_display: "0.0".into() }],
        activity_summary: "A & B".into(),
    };
    let html = render_html(&doc);
    assert!(html.starts_with("<!DOCTYPE html>\n<html lang=\"en\">"));
    assert!(html.contains("<p>Generated: 2024-01-01T00:00:00+00:00</p>\n<p>Google account: Not connected</p>\n<p>PC photo folder: /v</p>\n<p>Google storage: <strong>1.0 GB</strong> used of <strong>15.0 GB</strong> (14.0 GB free)</p>\n<div class=\"summary\"><p>A &amp; B</p></div>"));
    assert!(html.contains("<tbody><tr><td>&lt;b&gt;.jpg</td><td>0.0 MB</td><td>—</td></tr></tbody>"));
    assert!(html.ends_with("</body></html>"));
    assert!(html.contains("body { font-family: Segoe UI"));
}

#[test]
fn receipt_locations() {
    let sep = std::path::MAIN_SEPARATOR;
    assert_eq!(receipt_dir(&Some("/v".into()), "/data"), format!("/v{sep}_deduper{sep}receipts"));
    assert_eq!(receipt_dir(&None, "/data"), format!("/data{sep}receipts"));
    let (j, h) = receipt_paths("/r", "2024-01-01_00-00-00");
    assert_eq!(j, format!("/r{sep}deduper-report-2024-01-01_00-00-00.json"));
    assert_eq!(h, format!("/r{sep}deduper-report-2024-01-01_00-00-00.html"));
    assert_eq!(
        activity_summary(12, 3, "0.5"),
        "Checked 12 files. 3 Google Drive files (0.5 GB) are already saved on your PC or phone."
    );
}

#[test]
fn preview_reports_what_a_full_move_would() {
    let sizes = [10i64, 0, 2048];
    let mut preview = TrashTally::new();
    let mut real = TrashTally::new();
    for s in sizes {
        preview.record(TrashOutcome::DryRun, s);
        real.record(trash_outcome(200), s);
    }
    assert_eq!(
        (preview.trashed_count, preview.bytes_freed, preview.skipped_count, preview.failed_count),
        (real.trashed_count, real.bytes_freed, real.skipped_count, real.failed_count)
    );
    assert_eq!((preview.trashed_count, preview.bytes_freed), (3, 2058));
}

#[test]
fn sign_in_uses_a_fresh_pkce_pair() {
    let a = begin_sign_in("cid", "http://127.0.0.1:8888/oauth/callback", READ_SCOPES);
    let b = begin_sign_in("cid", "http://127.0.0.1:8888/oauth/callback", READ_SCOPES);
    assert_eq!((a.challenge.len(), a.verifier.len()), (43, 43));
    assert_ne!(a.verifier, b.verifier);
    let url = a.url.unwrap();
    assert!(url.contains(&format!("code_challenge={}", a.challenge)));
    assert!(url.contains("code_challenge_method=S256"));
    assert!(a.challenge.chars().all(|c| c.is_ascii_alphanumeric() || c == '-' || c == '_'));
}
