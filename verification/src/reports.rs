//! The printable activity report ("receipt").

use vstd::prelude::*;
use crate::text::{concat2, concat3, owned, path_join, replace_char, replace_char_spec, spec_path_join};

verus! {

#[derive(Debug, Clone)]
pub struct ExportReceiptResult {
    pub json_path: String,
    pub html_path: String,
    pub exported_at: String,
}

/// Google storage figures as shown to the user.
#[derive(Debug, Clone)]
pub struct QuotaDisplay {
    pub usage_display: String,
    pub limit_display: String,
    pub free_display: String,
}

/// One Drive file that is already saved elsewhere; `size_display` is its size
/// in MB as shown in the report.
#[derive(Debug, Clone)]
pub struct ProofLine {
    pub filename: String,
    pub size_bytes: i64,
    pub copy_on_pc: Option<String>,
    pub size_display: String,
}

#[derive(Debug, Clone)]
pub struct ReceiptDocument {
    pub exported_at: String,
    pub app: String,
    pub google_account: Option<String>,
    pub vault_path: Option<String>,
    pub storage_quota: Option<QuotaDisplay>,
    pub recoverable_bytes: i64,
    pub recoverable_count: i64,
    pub google_drive_only_count: i64,
    pub google_drive_only_bytes: i64,
    pub phone_only_count: i64,
    pub total_files_checked: i64,
    pub proof_samples: Vec<ProofLine>,
    pub activity_summary: String,
}

/// Text made safe for HTML: `&`, `<`, `>` and `"` written as entities.
pub open spec fn html_escape_spec(s: Seq<char>) -> Seq<char> {
    replace_char_spec(
        replace_char_spec(replace_char_spec(replace_char_spec(s, '&', "&amp;"@), '<', "&lt;"@), '>', "&gt;"@),
        '"',
        "&quot;"@,
    )
}

pub fn html_escape(s: &str) -> (r: String)
    ensures
        r@ == html_escape_spec(s@),
{
    let a = replace_char(s, '&', "&amp;");
    let b = replace_char(a.as_str(), '<', "&lt;");
    let c = replace_char(b.as_str(), '>', "&gt;");
    replace_char(c.as_str(), '"', "&quot;")
}

/// Replacing `c` by a text without `c`, and without `d`, leaves no `c` and adds no `d`.
pub proof fn lemma_replace_removes(s: Seq<char>, c: char, t: Seq<char>, d: char)
    requires
        !t.contains(c),
        !t.contains(d),
    ensures
        !replace_char_spec(s, c, t).contains(c),
        !s.contains(d) ==> !replace_char_spec(s, c, t).contains(d),
    decreases s.len(),
{
    if s.len() > 0 {
        lemma_replace_removes(s.drop_last(), c, t, d);
        let prev = replace_char_spec(s.drop_last(), c, t);
        let tail = if s.last() == c { t } else { seq![s.last()] };
        let r = replace_char_spec(s, c, t);
        assert(r == prev + tail);
        if r.contains(c) {
            let k = choose|k: int| 0 <= k < r.len() && r[k] == c;
            if k < prev.len() {
                assert(prev[k] == c);
            } else {
                assert(tail[k - prev.len()] == c);
            }
        }
        if !s.contains(d) && r.contains(d) {
            let k = choose|k: int| 0 <= k < r.len() && r[k] == d;
            if k < prev.len() {
                assert(prev[k] == d);
                assert forall|m: int| 0 <= m < s.drop_last().len() implies s.drop_last()[m] != d by {
                    assert(s[m] != d);
                }
            } else {
                assert(tail[k - prev.len()] == d);
                assert(s[s.len() - 1] == s.last());
            }
        }
    }
}

/// Escaped text cannot open or close a tag or end a quoted attribute: it holds
/// no `<`, `>` or `"`.
pub proof fn law_html_escape_neutralizes(s: Seq<char>)
    ensures
        !html_escape_spec(s).contains('<'),
        !html_escape_spec(s).contains('>'),
        !html_escape_spec(s).contains('"'),
{
    reveal_strlit("&amp;");
    reveal_strlit("&lt;");
    reveal_strlit("&gt;");
    reveal_strlit("&quot;");
    let s1 = replace_char_spec(s, '&', "&amp;"@);
    let s2 = replace_char_spec(s1, '<', "&lt;"@);
    let s3 = replace_char_spec(s2, '>', "&gt;"@);
    lemma_replace_removes(s1, '<', "&lt;"@, '<');
    lemma_replace_removes(s2, '>', "&gt;"@, '<');
    lemma_replace_removes(s2, '>', "&gt;"@, '>');
    lemma_replace_removes(s3, '"', "&quot;"@, '<');
    lemma_replace_removes(s3, '"', "&quot;"@, '>');
    lemma_replace_removes(s3, '"', "&quot;"@, '"');
}

/// Where reports are saved: `_deduper/receipts` in the vault folder when one is
/// set, else `receipts` in the app's data folder.
pub open spec fn receipt_dir_spec(vault: Option<Seq<char>>, data_dir: Seq<char>) -> Seq<char> {
    match vault {
        Some(v) => spec_path_join(spec_path_join(v, "_deduper"@), "receipts"@),
        None => spec_path_join(data_dir, "receipts"@),
    }
}

pub fn receipt_dir(vault: &Option<String>, data_dir: &str) -> (r: String)
    ensures
        r@ == receipt_dir_spec(match vault { Some(v) => Some(v@), None => None }, data_dir@),
{
    match vault {
        Some(v) => {
            let d = path_join(v.as_str(), "_deduper");
            path_join(d.as_str(), "receipts")
        },
        None => path_join(data_dir, "receipts"),
    }
}

/// The JSON and HTML report files for a time stamp `ts`.
pub fn receipt_paths(dir: &str, ts: &str) -> (r: (String, String))
    ensures
        r.0@ == spec_path_join(dir@, "deduper-report-"@ + ts@ + ".json"@),
        r.1@ == spec_path_join(dir@, "deduper-report-"@ + ts@ + ".html"@),
{
    let json_name = concat3("deduper-report-", ts, ".json");
    let html_name = concat3("deduper-report-", ts, ".html");
    (path_join(dir, json_name.as_str()), path_join(dir, html_name.as_str()))
}

} // verus!

verus! {

/// The report's opening, up to the generation time.
pub open spec fn html_head() -> Seq<char> {
    "<!DOCTYPE html>\n<html lang=\"en\"><head><meta charset=\"utf-8\"><title>Deduper Report</title>\n<style>\nbody { font-family: Segoe UI, sans-serif; max-width: 800px; margin: 2rem auto; padding: 0 1rem; color: #222; }\nh1 { color: #1a5a9e; } table { border-collapse: collapse; width: 100%; margin-top: 1rem; }\nth, td { border: 1px solid #ccc; padding: 8px; text-align: left; font-size: 14px; }\nth { background: #f0f4f8; } .summary { background: #fff8ee; padding: 1rem; border-radius: 8px; }\n</style></head><body>\n<h1>Deduper Activity Report</h1>\n<p>Generated: "@
}

/// The report's closing, after the proof rows.
pub open spec fn html_tail() -> Seq<char> {
    "</tbody></table>\n<p style=\"margin-top:2rem;font-size:12px;color:#666;\">Deduper never deletes files automatically. Open this report in a browser and use Print → Save as PDF if you need a PDF copy.</p>\n</body></html>"@
}

/// The storage line of the report, empty without storage figures.
pub open spec fn quota_line_spec(q: Option<QuotaDisplay>) -> Seq<char> {
    match q {
        Some(q) => "<p>Google storage: <strong>"@ + q.usage_display@ + "</strong> used of <strong>"@ + q.limit_display@
            + "</strong> ("@ + q.free_display@ + " free)</p>"@,
        None => Seq::empty(),
    }
}

/// One proof row: the file name and the copy's location escaped (`—` when the
/// copy's location is unknown).
pub open spec fn proof_row_spec(p: ProofLine) -> Seq<char> {
    let copy = match p.copy_on_pc {
        Some(c) => c@,
        None => "—"@,
    };
    "<tr><td>"@ + html_escape_spec(p.filename@) + "</td><td>"@ + p.size_display@ + " MB</td><td>"@ + html_escape_spec(copy) + "</td></tr>"@
}

/// All proof rows, in order.
pub open spec fn proof_rows_spec(rows: Seq<ProofLine>) -> Seq<char>
    decreases rows.len(),
{
    if rows.len() == 0 {
        Seq::empty()
    } else {
        proof_rows_spec(rows.drop_last()) + proof_row_spec(rows.last())
    }
}

/// The whole HTML report.
pub open spec fn render_html_spec(doc: ReceiptDocument) -> Seq<char> {
    let account = match doc.google_account {
        Some(a) => a@,
        None => "Not connected"@,
    };
    let vault = match doc.vault_path {
        Some(v) => v@,
        None => "Not set"@,
    };
    html_head() + doc.exported_at@ + "</p>\n<p>Google account: "@ + account + "</p>\n<p>PC photo folder: "@ + vault + "</p>\n"@
        + quota_line_spec(doc.storage_quota) + "\n<div class=\"summary\"><p>"@ + html_escape_spec(doc.activity_summary@)
        + "</p></div>\n<h2>Sample proof (Google Drive files already on your PC)</h2>\n<table><thead><tr><th>File</th><th>Size</th><th>Already saved at</th></tr></thead>\n<tbody>"@
        + proof_rows_spec(doc.proof_samples@) + html_tail()
}

fn proof_row(p: &ProofLine) -> (r: String)
    ensures
        r@ == proof_row_spec(*p),
{
    let name = html_escape(p.filename.as_str());
    let copy = match &p.copy_on_pc {
        Some(c) => html_escape(c.as_str()),
        None => html_escape("—"),
    };
    let mut r = concat2("<tr><td>", name.as_str());
    r.append("</td><td>");
    r.append(p.size_display.as_str());
    r.append(" MB</td><td>");
    r.append(copy.as_str());
    r.append("</td></tr>");
    r
}

pub fn render_html(doc: &ReceiptDocument) -> (r: String)
    ensures
        r@ == render_html_spec(*doc),
{
    let quota_line = match &doc.storage_quota {
        Some(q) => {
            let mut l = concat2("<p>Google storage: <strong>", q.usage_display.as_str());
            l.append("</strong> used of <strong>");
            l.append(q.limit_display.as_str());
            l.append("</strong> (");
            l.append(q.free_display.as_str());
            l.append(" free)</p>");
            l
        },
        None => String::new(),
    };
    let mut rows = String::new();
    let mut i: usize = 0;
    while i < doc.proof_samples.len()
        invariant
            i <= doc.proof_samples@.len(),
            rows@ == proof_rows_spec(doc.proof_samples@.take(i as int)),
        decreases doc.proof_samples.len() - i,
    {
        assert(doc.proof_samples@.take(i + 1).drop_last() =~= doc.proof_samples@.take(i as int));
        let row = proof_row(&doc.proof_samples[i]);
        rows.append(row.as_str());
        i += 1;
    }
    assert(doc.proof_samples@.take(doc.proof_samples@.len() as int) =~= doc.proof_samples@);
    let account: &str = match &doc.google_account {
        Some(a) => a.as_str(),
        None => "Not connected",
    };
    let vault: &str = match &doc.vault_path {
        Some(v) => v.as_str(),
        None => "Not set",
    };
    let summary = html_escape(doc.activity_summary.as_str());
    let mut r = owned("<!DOCTYPE html>\n<html lang=\"en\"><head><meta charset=\"utf-8\"><title>Deduper Report</title>\n<style>\nbody { font-family: Segoe UI, sans-serif; max-width: 800px; margin: 2rem auto; padding: 0 1rem; color: #222; }\nh1 { color: #1a5a9e; } table { border-collapse: collapse; width: 100%; margin-top: 1rem; }\nth, td { border: 1px solid #ccc; padding: 8px; text-align: left; font-size: 14px; }\nth { background: #f0f4f8; } .summary { background: #fff8ee; padding: 1rem; border-radius: 8px; }\n</style></head><body>\n<h1>Deduper Activity Report</h1>\n<p>Generated: ");
    r.append(doc.exported_at.as_str());
    r.append("</p>\n<p>Google account: ");
    r.append(account);
    r.append("</p>\n<p>PC photo folder: ");
    r.append(vault);
    r.append("</p>\n");
    r.append(quota_line.as_str());
    r.append("\n<div class=\"summary\"><p>");
    r.append(summary.as_str());
    r.append("</p></div>\n<h2>Sample proof (Google Drive files already on your PC)</h2>\n<table><thead><tr><th>File</th><th>Size</th><th>Already saved at</th></tr></thead>\n<tbody>");
    r.append(rows.as_str());
    r.append("</tbody></table>\n<p style=\"margin-top:2rem;font-size:12px;color:#666;\">Deduper never deletes files automatically. Open this report in a browser and use Print → Save as PDF if you need a PDF copy.</p>\n</body></html>");
    r
}

/// Whether `needle` occurs in `text` as a contiguous piece.
pub open spec fn contains_text(text: Seq<char>, needle: Seq<char>) -> bool {
    exists|i: int|
        0 <= i && i + needle.len() <= text.len() && #[trigger] text.subrange(i, i + needle.len()) == needle
}

proof fn lemma_contains_middle(a: Seq<char>, n: Seq<char>, b: Seq<char>)
    ensures
        contains_text(a + n + b, n),
{
    let s = a + n + b;
    assert(s.subrange(a.len() as int, (a.len() + n.len()) as int) =~= n);
}

/// The report's folder line names the PC photo folder, and reads "Not set"
/// when none is chosen.
pub proof fn law_report_shows_vault_folder(doc: ReceiptDocument)
    ensures
        doc.vault_path matches Some(v) ==> contains_text(
            render_html_spec(doc),
            "<p>PC photo folder: "@ + v@ + "</p>"@,
        ),
        doc.vault_path is None ==> contains_text(render_html_spec(doc), "<p>PC photo folder: Not set</p>"@),
{
    reveal_strlit("</p>\n<p>PC photo folder: ");
    reveal_strlit("</p>\n");
    reveal_strlit("<p>PC photo folder: ");
    reveal_strlit("</p>");
    reveal_strlit("\n");
    reveal_strlit("<p>PC photo folder: Not set</p>");
    reveal_strlit("Not set");
    let shown = if let Some(acct) = doc.google_account {
        acct@
    } else {
        "Not connected"@
    };
    let folder = if let Some(p) = doc.vault_path {
        p@
    } else {
        "Not set"@
    };
    let after = "\n"@ + quota_line_spec(doc.storage_quota) + "\n<div class=\"summary\"><p>"@ + html_escape_spec(
        doc.activity_summary@,
    )
        + "</p></div>\n<h2>Sample proof (Google Drive files already on your PC)</h2>\n<table><thead><tr><th>File</th><th>Size</th><th>Already saved at</th></tr></thead>\n<tbody>"@
        + proof_rows_spec(doc.proof_samples@) + html_tail();
    let head = html_head() + doc.exported_at@ + "</p>\n<p>Google account: "@ + shown + "</p>\n"@;
    let needle = "<p>PC photo folder: "@ + folder + "</p>"@;
    assert("</p>\n<p>PC photo folder: "@ =~= "</p>\n"@ + "<p>PC photo folder: "@);
    assert("</p>\n"@ =~= "</p>"@ + "\n"@);
    assert(render_html_spec(doc) =~= head + needle + after);
    lemma_contains_middle(head, needle, after);
    assert("<p>PC photo folder: Not set</p>"@ =~= "<p>PC photo folder: "@ + "Not set"@ + "</p>"@);
}

/// The report's account line names the connected Google account, and reads
/// "Not connected" when there is none.
pub proof fn law_report_shows_account(doc: ReceiptDocument)
    ensures
        doc.google_account matches Some(a) ==> contains_text(
            render_html_spec(doc),
            "<p>Google account: "@ + a@ + "</p>"@,
        ),
        doc.google_account is None ==> contains_text(
            render_html_spec(doc),
            "<p>Google account: Not connected</p>"@,
        ),
{
    reveal_strlit("</p>\n<p>Google account: ");
    reveal_strlit("</p>\n");
    reveal_strlit("<p>Google account: ");
    reveal_strlit("</p>\n<p>PC photo folder: ");
    reveal_strlit("</p>");
    reveal_strlit("\n<p>PC photo folder: ");
    reveal_strlit("<p>Google account: Not connected</p>");
    reveal_strlit("Not connected");
    let shown = if let Some(acct) = doc.google_account {
        acct@
    } else {
        "Not connected"@
    };
    let folder = if let Some(p) = doc.vault_path {
        p@
    } else {
        "Not set"@
    };
    let rest = "</p>\n"@ + quota_line_spec(doc.storage_quota) + "\n<div class=\"summary\"><p>"@ + html_escape_spec(
        doc.activity_summary@,
    )
        + "</p></div>\n<h2>Sample proof (Google Drive files already on your PC)</h2>\n<table><thead><tr><th>File</th><th>Size</th><th>Already saved at</th></tr></thead>\n<tbody>"@
        + proof_rows_spec(doc.proof_samples@) + html_tail();
    let head = html_head() + doc.exported_at@ + "</p>\n"@;
    let needle = "<p>Google account: "@ + shown + "</p>"@;
    let tail = "\n<p>PC photo folder: "@ + folder + rest;
    assert("</p>\n<p>Google account: "@ =~= "</p>\n"@ + "<p>Google account: "@);
    assert("</p>\n<p>PC photo folder: "@ =~= "</p>"@ + "\n<p>PC photo folder: "@);
    assert(render_html_spec(doc) =~= head + needle + tail);
    lemma_contains_middle(head, needle, tail);
    assert("<p>Google account: Not connected</p>"@ =~= "<p>Google account: "@ + "Not connected"@ + "</p>"@);
}

} // verus!

verus! {

/// The report's one-line summary; `recoverable_gb` is the recoverable size
/// already written in GB.
pub fn activity_summary(total_files_checked: i64, recoverable_count: i64, recoverable_gb: &str) -> (r: String)
    ensures
        r@ == "Checked "@ + crate::text::signed_decimal(total_files_checked as int) + " files. "@
            + crate::text::signed_decimal(recoverable_count as int) + " Google Drive files ("@ + recoverable_gb@
            + " GB) are already saved on your PC or phone."@,
{
    let total = crate::text::i64_to_decimal(total_files_checked);
    let count = crate::text::i64_to_decimal(recoverable_count);
    let mut r = concat3("Checked ", total.as_str(), " files. ");
    r.append(count.as_str());
    r.append(" Google Drive files (");
    r.append(recoverable_gb);
    r.append(" GB) are already saved on your PC or phone.");
    r
}

} // verus!
