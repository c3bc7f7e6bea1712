//! Large Gmail attachments.

use vstd::prelude::*;
use crate::scanner::ScannedItem;
use crate::text::{concat2, owned, lowercase_of, spec_trim, to_lowercase, trim};

verus! {

/// Attachments smaller than 5 MiB are not worth reporting.
pub const MIN_ATTACHMENT_BYTES: u64 = 5 * 1024 * 1024;

/// At most this many messages are read in one scan.
pub const MAX_MESSAGES: usize = 200;

#[derive(Debug, Clone)]
pub struct PartBody {
    pub attachment_id: Option<String>,
    pub size: Option<u64>,
}

/// One MIME part of a message, possibly with nested parts.
#[derive(Debug)]
pub struct MessagePart {
    pub filename: Option<String>,
    pub body: Option<PartBody>,
    pub parts: Option<Vec<MessagePart>>,
    pub mime_type: Option<String>,
}

#[derive(Debug)]
pub struct MessagePayload {
    pub parts: Option<Vec<MessagePart>>,
    pub filename: Option<String>,
    pub body: Option<PartBody>,
    pub mime_type: Option<String>,
}

#[derive(Debug)]
pub struct MessageDetail {
    pub id: String,
    pub payload: Option<MessagePayload>,
    pub internal_date: Option<String>,
}

/// An attachment: file name, size in bytes and message id.
pub type Attachment = (String, u64, String);

/// The size a part's body reports, 0 when it reports none.
pub open spec fn body_size(b: Option<PartBody>) -> u64 {
    match b {
        Some(body) => match body.size {
            Some(s) => s,
            None => 0,
        },
        None => 0,
    }
}

/// The attachment a part itself carries: a named part (name trimmed) of at least
/// 5 MiB.
pub open spec fn own_attachment(p: MessagePart, mid: Seq<char>) -> Seq<(Seq<char>, u64, Seq<char>)> {
    let name = match p.filename {
        Some(f) => spec_trim(f@),
        None => Seq::empty(),
    };
    if name.len() > 0 && body_size(p.body) >= MIN_ATTACHMENT_BYTES {
        seq![(name, body_size(p.body), mid)]
    } else {
        Seq::empty()
    }
}

/// The attachments of a list of parts, depth first: for each part, those of its
/// nested parts, then its own.
pub open spec fn parts_attachments(parts: Seq<MessagePart>, mid: Seq<char>) -> Seq<(Seq<char>, u64, Seq<char>)>
    decreases parts,
{
    if parts.len() == 0 {
        Seq::empty()
    } else {
        let last = parts.last();
        let nested = match last.parts {
            Some(v) => {
                proof {
                    assert(decreases_to!(parts => last));
                }
                parts_attachments(v@, mid)
            },
            None => Seq::empty(),
        };
        proof {
            assert(decreases_to!(parts => parts.drop_last()));
        }
        parts_attachments(parts.drop_last(), mid) + nested + own_attachment(last, mid)
    }
}

} // verus!

verus! {

/// The views of a list of attachments.
pub open spec fn attachments_view(v: Seq<Attachment>) -> Seq<(Seq<char>, u64, Seq<char>)> {
    Seq::new(v.len(), |i: int| (v[i].0@, v[i].1, v[i].2@))
}

fn own_attachment_of(part: &MessagePart, message_id: &str) -> (r: Option<Attachment>)
    ensures
        match r {
            Some(a) => own_attachment(*part, message_id@) == seq![(a.0@, a.1, a.2@)],
            None => own_attachment(*part, message_id@) == Seq::<(Seq<char>, u64, Seq<char>)>::empty(),
        },
{
    let name: &str = match &part.filename {
        Some(f) => trim(f.as_str()),
        None => "",
    };
    proof {
        if part.filename is None {
            reveal_strlit("");
        }
    }
    if name.is_empty() {
        return None;
    }
    let size = match &part.body {
        Some(b) => match b.size {
            Some(s) => s,
            None => 0,
        },
        None => 0,
    };
    if size >= MIN_ATTACHMENT_BYTES {
        Some((owned(name), size, owned(message_id)))
    } else {
        None
    }
}

/// Collects, depth first, every named part of at least 5 MiB.
pub fn walk_parts(parts: &Vec<MessagePart>, out: &mut Vec<Attachment>, message_id: &str)
    ensures
        attachments_view(final(out)@) == attachments_view(old(out)@) + parts_attachments(parts@, message_id@),
    decreases parts@,
{
    let mut i: usize = 0;
    while i < parts.len()
        invariant
            i <= parts@.len(),
            attachments_view(out@) == attachments_view(old(out)@) + parts_attachments(parts@.take(i as int), message_id@),
        decreases parts.len() - i,
    {
        let ghost before = out@;
        assert(parts@.take(i + 1).drop_last() =~= parts@.take(i as int));
        assert(parts@.take(i + 1).last() == parts@[i as int]);
        let part = &parts[i];
        if let Some(nested) = &part.parts {
            proof {
                assert(decreases_to!(parts@ => parts@[i as int]));
            }
            walk_parts(nested, out, message_id);
        }
        let ghost mid = out@;
        match own_attachment_of(part, message_id) {
            Some(a) => {
                out.push(a);
                assert(attachments_view(out@) =~= attachments_view(mid) + seq![(a.0@, a.1, a.2@)]);
            },
            None => {},
        }
        proof {
            let nested_spec = match &part.parts {
                Some(v) => parts_attachments(v@, message_id@),
                None => Seq::empty(),
            };
            assert(attachments_view(mid) =~= attachments_view(before) + nested_spec);
            assert(attachments_view(out@) =~= attachments_view(old(out)@) + parts_attachments(parts@.take(i + 1), message_id@));
        }
        i += 1;
    }
    assert(parts@.take(parts@.len() as int) =~= parts@);
}

} // verus!

verus! {

/// The attachments of a message: those of its parts when it has parts, else
/// the message body itself when it is named (name kept as is) and at least 5 MiB.
pub open spec fn message_attachments_spec(d: MessageDetail) -> Seq<(Seq<char>, u64, Seq<char>)> {
    match d.payload {
        Some(p) => match p.parts {
            Some(parts) => parts_attachments(parts@, d.id@),
            None => match p.filename {
                Some(name) => if name@.len() > 0 && body_size(p.body) >= MIN_ATTACHMENT_BYTES {
                    seq![(name@, body_size(p.body), d.id@)]
                } else {
                    Seq::empty()
                },
                None => Seq::empty(),
            },
        },
        None => Seq::empty(),
    }
}

pub fn message_attachments(detail: &MessageDetail) -> (r: Vec<Attachment>)
    ensures
        attachments_view(r@) == message_attachments_spec(*detail),
{
    let mut out: Vec<Attachment> = Vec::new();
    assert(attachments_view(out@) =~= Seq::empty());
    if let Some(payload) = &detail.payload {
        if let Some(parts) = &payload.parts {
            walk_parts(parts, &mut out, detail.id.as_str());
            assert(attachments_view(out@) =~= parts_attachments(parts@, detail.id@));
        } else if let Some(name) = &payload.filename {
            if !name.as_str().is_empty() {
                let size = match &payload.body {
                    Some(b) => match b.size {
                        Some(s) => s,
                        None => 0,
                    },
                    None => 0,
                };
                if size >= MIN_ATTACHMENT_BYTES {
                    out.push((name.clone(), size, detail.id.clone()));
                    assert(attachments_view(out@) =~= seq![(name@, size, detail.id@)]);
                }
            }
        }
    }
    out
}

/// The scanned item for a Gmail attachment: it is identified by its message and
/// lower-cased name.
pub open spec fn gmail_item_of(item: ScannedItem, a: (Seq<char>, u64, Seq<char>)) -> bool {
    &&& item.relative_path@ == "gmail://"@ + a.2 + "/"@ + a.0
    &&& item.filename@ == a.0
    &&& item.size_bytes == a.1
    &&& item.mime_type is None
    &&& item.modified_at is None
    &&& item.content_hash matches Some(h) && h@ == "gmail:"@ + a.2 + ":"@ + lowercase_of(a.0)
    &&& item.md5_checksum is None
    &&& item.drive_file_id is None
    &&& item.local_path is None
}

pub fn attachment_item(a: &Attachment) -> (r: ScannedItem)
    ensures
        gmail_item_of(r, (a.0@, a.1, a.2@)),
{
    let lower = to_lowercase(a.0.as_str());
    let mut hash = concat2("gmail:", a.2.as_str());
    hash.append(":");
    hash.append(lower.as_str());
    let mut rel = concat2("gmail://", a.2.as_str());
    rel.append("/");
    rel.append(a.0.as_str());
    ScannedItem {
        relative_path: rel,
        filename: a.0.clone(),
        size_bytes: a.1,
        mime_type: None,
        modified_at: None,
        content_hash: Some(hash),
        md5_checksum: None,
        drive_file_id: None,
        local_path: None,
    }
}

/// Whether every attachment in a list is named and at least 5 MiB.
pub open spec fn all_large(v: Seq<(Seq<char>, u64, Seq<char>)>) -> bool {
    forall|k: int| 0 <= k < v.len() ==> (#[trigger] v[k]).1 >= MIN_ATTACHMENT_BYTES && v[k].0.len() > 0
}

proof fn lemma_parts_large(parts: Seq<MessagePart>, mid: Seq<char>)
    ensures
        all_large(parts_attachments(parts, mid)),
    decreases parts,
{
    if parts.len() > 0 {
        let last = parts.last();
        assert(decreases_to!(parts => parts.drop_last()));
        lemma_parts_large(parts.drop_last(), mid);
        let nested = match last.parts {
            Some(v) => {
                assert(decreases_to!(parts => last));
                assert(decreases_to!(last => last.parts));
                lemma_parts_large(v@, mid);
                parts_attachments(v@, mid)
            },
            None => Seq::empty(),
        };
        let whole = parts_attachments(parts.drop_last(), mid) + nested + own_attachment(last, mid);
        assert(parts_attachments(parts, mid) == whole);
        assert forall|k: int| 0 <= k < whole.len() implies (#[trigger] whole[k]).1 >= MIN_ATTACHMENT_BYTES
            && whole[k].0.len() > 0 by {
            let a = parts_attachments(parts.drop_last(), mid);
            if k < a.len() {
                assert(whole[k] == a[k]);
            } else if k < a.len() + nested.len() {
                assert(whole[k] == nested[k - a.len()]);
            } else {
                assert(whole[k] == own_attachment(last, mid)[k - a.len() - nested.len()]);
            }
        }
    }
}

/// Only large attachments are reported: every attachment found in a message,
/// however deeply its parts nest, has a name and at least 5 MiB.
pub proof fn law_gmail_attachments_are_large(d: MessageDetail)
    ensures
        all_large(message_attachments_spec(d)),
{
    match d.payload {
        Some(p) => match p.parts {
            Some(parts) => lemma_parts_large(parts@, d.id@),
            None => {},
        },
        None => {},
    }
}

/// One page of a Gmail listing: how many of its `page_len` message ids are
/// read (never more than `MAX_MESSAGES` in all), how many messages have been
/// read after it, and whether to ask for the next page (there is one and the
/// limit is not reached).
pub fn gmail_page_step(scanned: usize, page_len: usize, has_next_page: bool) -> (r: (usize, usize, bool))
    requires
        scanned <= MAX_MESSAGES,
    ensures
        r.0 == if page_len <= MAX_MESSAGES - scanned { page_len as int } else { MAX_MESSAGES - scanned },
        r.1 == scanned + r.0,
        r.1 <= MAX_MESSAGES,
        r.2 == (r.1 < MAX_MESSAGES && has_next_page),
{
    let room = MAX_MESSAGES - scanned;
    let take = if page_len <= room { page_len } else { room };
    let after = scanned + take;
    (take, after, after < MAX_MESSAGES && has_next_page)
}

} // verus!
