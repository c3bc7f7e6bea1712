//! Google Photos library items.

use vstd::prelude::*;
use crate::scanner::{is_cloud_media, is_cloud_media_entry, opt_str, utc_time, utc_time_of, ScannedItem};
use crate::text::{concat2, owned, lowercase_of, spec_trim, to_lowercase, trim};

verus! {

#[derive(Debug, Clone)]
pub struct PhotosMetadata {
    pub creation_time: Option<String>,
    pub width: Option<String>,
    pub height: Option<String>,
}

#[derive(Debug, Clone)]
pub struct PhotosMediaItem {
    pub id: String,
    pub filename: String,
    pub mime_type: Option<String>,
    pub media_metadata: Option<PhotosMetadata>,
}

/// Google Photos offers no checksum, so its items are matched on name, creation
/// time and dimensions: `likely:name:time:WxH`, with the name trimmed and
/// lower-cased.
pub open spec fn photos_hash_spec(filename: Seq<char>, creation_time: Seq<char>, width: Seq<char>, height: Seq<char>) -> Seq<char> {
    "likely:"@ + lowercase_of(spec_trim(filename)) + ":"@ + creation_time + ":"@ + width + "x"@ + height
}

pub fn photos_content_hash(filename: &str, creation_time: &str, width: &str, height: &str) -> (r: String)
    ensures
        r@ == photos_hash_spec(filename@, creation_time@, width@, height@),
{
    let name = to_lowercase(trim(filename));
    let mut r = concat2("likely:", name.as_str());
    r.append(":");
    r.append(creation_time);
    r.append(":");
    r.append(width);
    r.append("x");
    r.append(height);
    r
}

/// A metadata field, or its default when the item has no metadata or no value.
pub open spec fn meta_field(v: Option<Option<String>>, default: Seq<char>) -> Seq<char> {
    match v {
        Some(Some(s)) => s@,
        _ => default,
    }
}

/// Whether an item describes a Google Photos library item.
pub open spec fn photos_item_of(item: ScannedItem, m: PhotosMediaItem) -> bool {
    let meta = m.media_metadata;
    let creation = meta_field(match meta { Some(x) => Some(x.creation_time), None => None }, Seq::empty());
    let width = meta_field(match meta { Some(x) => Some(x.width), None => None }, "0"@);
    let height = meta_field(match meta { Some(x) => Some(x.height), None => None }, "0"@);
    let created = match meta {
        Some(x) => opt_str(x.creation_time),
        None => None,
    };
    &&& item.relative_path@ == "photos://"@ + m.id@
    &&& item.filename@ == m.filename@
    &&& item.size_bytes == 0
    &&& opt_str(item.mime_type) == opt_str(m.mime_type)
    &&& opt_str(item.modified_at) == utc_time_of(created)
    &&& item.content_hash matches Some(h) && h@ == photos_hash_spec(m.filename@, creation, width, height)
    &&& item.md5_checksum is None
    &&& item.drive_file_id matches Some(d) && d@ == m.id@
    &&& item.local_path is None
}

/// The item for a library entry, when it is a photo or video.
pub fn photos_item(m: &PhotosMediaItem) -> (r: Option<ScannedItem>)
    ensures
        !is_cloud_media(m.filename@, opt_str(m.mime_type)) ==> r is None,
        is_cloud_media(m.filename@, opt_str(m.mime_type)) ==> (r matches Some(item) && photos_item_of(item, *m)),
{
    if !is_cloud_media_entry(m.filename.as_str(), &m.mime_type) {
        return None;
    }
    proof {
        reveal_strlit("");
        reveal_strlit("0");
    }
    let (creation, width, height, created): (String, String, String, Option<String>) = match &m.media_metadata {
        Some(meta) => {
            let c = match &meta.creation_time {
                Some(s) => s.clone(),
                None => owned(""),
            };
            let w = match &meta.width {
                Some(s) => s.clone(),
                None => owned("0"),
            };
            let h = match &meta.height {
                Some(s) => s.clone(),
                None => owned("0"),
            };
            let t = match &meta.creation_time {
                Some(s) => Some(s.clone()),
                None => None,
            };
            (c, w, h, t)
        },
        None => (owned(""), owned("0"), owned("0"), None),
    };
    let modified_at = utc_time(&created);
    let hash = photos_content_hash(m.filename.as_str(), creation.as_str(), width.as_str(), height.as_str());
    let mime = match &m.mime_type {
        Some(s) => Some(s.clone()),
        None => None,
    };
    Some(ScannedItem {
        relative_path: concat2("photos://", m.id.as_str()),
        filename: m.filename.clone(),
        size_bytes: 0,
        mime_type: mime,
        modified_at,
        content_hash: Some(hash),
        md5_checksum: None,
        drive_file_id: Some(m.id.clone()),
        local_path: None,
    })
}

} // verus!
