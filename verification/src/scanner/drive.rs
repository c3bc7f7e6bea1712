//! Google Drive file listings.

use vstd::prelude::*;
use crate::scanner::{is_cloud_media, is_cloud_media_entry, opt_str, utc_time, utc_time_of, ScannedItem};
use crate::text::{concat2, owned, parse_u64, parse_u64_spec, str_eq};

verus! {

/// One file of a Drive listing.
#[derive(Debug, Clone)]
pub struct DriveFile {
    pub id: String,
    pub name: String,
    pub mime_type: Option<String>,
    pub size: Option<String>,
    pub md5_checksum: Option<String>,
    pub modified_time: Option<String>,
}

/// The MIME type Drive gives to folders.
pub open spec fn folder_mime() -> Seq<char> {
    "application/vnd.google-apps.folder"@
}

/// The size Drive reports for a file, 0 when it reports none or not a number.
pub open spec fn drive_size(size: Option<Seq<char>>) -> u64 {
    let text = match size {
        Some(s) => s,
        None => "0"@,
    };
    match parse_u64_spec(text) {
        Some(n) => n,
        None => 0,
    }
}

/// Whether an item describes a Drive file.
pub open spec fn drive_item_of(item: ScannedItem, f: DriveFile) -> bool {
    &&& item.relative_path@ == "drive://"@ + f.id@
    &&& item.filename@ == f.name@
    &&& item.size_bytes == drive_size(opt_str(f.size))
    &&& opt_str(item.mime_type) == opt_str(f.mime_type)
    &&& opt_str(item.modified_at) == utc_time_of(opt_str(f.modified_time))
    &&& item.content_hash is None
    &&& opt_str(item.md5_checksum) == opt_str(f.md5_checksum)
    &&& item.drive_file_id matches Some(d) && d@ == f.id@
    &&& item.local_path is None
}

/// The item for a listed Drive file, when it is not a folder and is media.
pub fn drive_item(f: &DriveFile) -> (r: Option<ScannedItem>)
    ensures
        (opt_str(f.mime_type) == Some(folder_mime()) || !is_cloud_media(f.name@, opt_str(f.mime_type))) ==> r is None,
        !(opt_str(f.mime_type) == Some(folder_mime()) || !is_cloud_media(f.name@, opt_str(f.mime_type))) ==> (r matches Some(item) && drive_item_of(item, *f)),
{
    if let Some(m) = &f.mime_type {
        if str_eq(m.as_str(), "application/vnd.google-apps.folder") {
            return None;
        }
    }
    if !is_cloud_media_entry(f.name.as_str(), &f.mime_type) {
        return None;
    }
    proof {
        reveal_strlit("0");
    }
    let size_bytes = match &f.size {
        Some(s) => match parse_u64(s.as_str()) {
            Some(n) => n,
            None => 0,
        },
        None => match parse_u64("0") {
            Some(n) => n,
            None => 0,
        },
    };
    let mime = match &f.mime_type {
        Some(s) => Some(s.clone()),
        None => None,
    };
    let md5 = match &f.md5_checksum {
        Some(s) => Some(s.clone()),
        None => None,
    };
    Some(ScannedItem {
        relative_path: concat2("drive://", f.id.as_str()),
        filename: f.name.clone(),
        size_bytes,
        mime_type: mime,
        modified_at: utc_time(&f.modified_time),
        content_hash: None,
        md5_checksum: md5,
        drive_file_id: Some(f.id.clone()),
        local_path: None,
    })
}

} // verus!
