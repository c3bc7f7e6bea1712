//! Android phones connected over USB in file-transfer (MTP) mode.

use vstd::prelude::*;
use crate::scanner::{is_media_file, is_media_name, ScannedItem};
use crate::scanner::local::{guess_mime, spec_guess_mime};
use crate::text::{concat2, concat3, owned, replace_char, replace_char_spec, str_eq};

verus! {

/// Phone folders where photos and videos usually live.
pub const MEDIA_FOLDERS: [&'static str; 10] = [
    "DCIM",
    "Pictures",
    "Download",
    "Downloads",
    "Movies",
    "Camera",
    "WhatsApp",
    "Screenshots",
    "Snapchat",
    "Instagram",
];

/// A phone storage reported by device detection.
#[derive(Debug, Clone)]
pub struct MtpDevice {
    pub name: String,
    pub storage_name: String,
    pub storage_path: String,
    pub free_bytes: Option<u64>,
    pub total_bytes: Option<u64>,
}

/// One file listed on a phone.
#[derive(Debug, Clone)]
pub struct MtpFile {
    pub name: String,
    pub path: String,
    pub size_bytes: u64,
}

pub struct MtpScanner {
    pub device_name: String,
    pub storage_path: String,
}

impl MtpScanner {
    pub fn new(device_name: String, storage_path: String) -> (r: Self)
        ensures
            r.device_name == device_name,
            r.storage_path == storage_path,
    {
        Self { device_name, storage_path }
    }
}

/// A text quoted for a PowerShell single-quoted string: each `'` doubled.
pub open spec fn ps_single_escaped(s: Seq<char>) -> Seq<char> {
    replace_char_spec(s, '\'', "''"@)
}

pub fn escape_ps_single(s: &str) -> (r: String)
    ensures
        r@ == ps_single_escaped(s@),
{
    replace_char(s, '\'', "''")
}

/// The PowerShell statement that hands the storage path to the listing script.
pub open spec fn storage_path_assignment_spec(storage_path: Seq<char>) -> Seq<char> {
    "$storagePath = '"@ + ps_single_escaped(storage_path) + "'; "@
}

pub fn storage_path_assignment(storage_path: &str) -> (r: String)
    ensures
        r@ == storage_path_assignment_spec(storage_path@),
{
    let e = escape_ps_single(storage_path);
    concat3("$storagePath = '", e.as_str(), "'; ")
}

/// The message when a phone listing came back empty.
pub open spec fn no_files_message() -> Seq<char> {
    "No photos or videos found on the phone. Check USB is set to File Transfer / MTP, then try again. You can also use Manual Import after copying files to your PC."@
}

/// The message when a phone listing held no media file.
pub open spec fn no_media_message() -> Seq<char> {
    "Phone connected but no supported media files found in DCIM, Pictures, or Download."@
}

/// Whether an item describes a media file listed on a phone.
pub open spec fn phone_item_of(item: ScannedItem, f: MtpFile) -> bool {
    &&& item.relative_path@ == f.path@
    &&& item.filename@ == f.name@
    &&& item.size_bytes == f.size_bytes
    &&& match item.mime_type {
        Some(m) => spec_guess_mime(f.path@) == Some(m@),
        None => spec_guess_mime(f.path@) is None,
    }
    &&& item.modified_at is None
    &&& item.content_hash is None
    &&& item.md5_checksum is None
    &&& item.drive_file_id is None
    &&& item.local_path matches Some(p) && p@ == f.path@
}

/// The media files of a phone listing, in order.
pub open spec fn phone_media(raw: Seq<MtpFile>) -> Seq<MtpFile>
    decreases raw.len(),
{
    if raw.len() == 0 {
        Seq::empty()
    } else if is_media_name(raw.last().name@) {
        phone_media(raw.drop_last()).push(raw.last())
    } else {
        phone_media(raw.drop_last())
    }
}

impl MtpScanner {
    /// Turns the phone's file listing into scanned items: an empty listing, or
    /// one without media files, is an error.
    pub fn items_from_listing(raw: &Vec<MtpFile>) -> (r: Result<Vec<ScannedItem>, String>)
        ensures
            raw@.len() == 0 ==> (r matches Err(e) && e@ == no_files_message()),
            raw@.len() > 0 && phone_media(raw@).len() == 0 ==> (r matches Err(e) && e@ == no_media_message()),
            raw@.len() > 0 && phone_media(raw@).len() > 0 ==> (r matches Ok(items) && items@.len() == phone_media(raw@).len() && forall|k: int|
                0 <= k < items@.len() ==> phone_item_of(#[trigger] items@[k], phone_media(raw@)[k])),
    {
        if raw.len() == 0 {
            return Err(owned("No photos or videos found on the phone. Check USB is set to File Transfer / MTP, then try again. You can also use Manual Import after copying files to your PC."));
        }
        let mut items: Vec<ScannedItem> = Vec::new();
        let mut i: usize = 0;
        while i < raw.len()
            invariant
                i <= raw@.len(),
                items@.len() == phone_media(raw@.take(i as int)).len(),
                forall|k: int| 0 <= k < items@.len() ==> phone_item_of(#[trigger] items@[k], phone_media(raw@.take(i as int))[k]),
            decreases raw.len() - i,
        {
            assert(raw@.take(i + 1).drop_last() =~= raw@.take(i as int));
            let f = &raw[i];
            if is_media_file(f.name.as_str()) {
                let item = ScannedItem {
                    relative_path: f.path.clone(),
                    filename: f.name.clone(),
                    size_bytes: f.size_bytes,
                    mime_type: guess_mime(f.path.as_str()),
                    modified_at: None,
                    content_hash: None,
                    md5_checksum: None,
                    drive_file_id: None,
                    local_path: Some(f.path.clone()),
                };
                items.push(item);
            }
            i += 1;
        }
        assert(raw@.take(raw@.len() as int) =~= raw@);
        if items.len() == 0 {
            return Err(owned("Phone connected but no supported media files found in DCIM, Pictures, or Download."));
        }
        Ok(items)
    }

    /// The file to read for an item's hash; `exists` says whether its path is
    /// still there.
    pub fn read_file_for_hash(item: &ScannedItem, exists: bool) -> (r: Result<String, String>)
        ensures
            match item.local_path {
                Some(p) => if exists {
                    r matches Ok(s) && s@ == p@
                } else {
                    r matches Err(e) && e@ == "Phone file no longer available (disconnected?): "@ + item.filename@
                },
                None => r matches Err(e) && e@ == "no path for "@ + item.filename@,
            },
    {
        match &item.local_path {
            Some(p) => if exists {
                Ok(p.clone())
            } else {
                Err(concat2("Phone file no longer available (disconnected?): ", item.filename.as_str()))
            },
            None => Err(concat2("no path for ", item.filename.as_str())),
        }
    }
}

#[derive(Debug, Clone)]
pub struct MtpDeviceInfo {
    pub name: String,
    pub storage_name: String,
    pub storage_path: String,
    pub connected: bool,
    pub free_bytes: Option<u64>,
    pub total_bytes: Option<u64>,
    pub media_folders: Vec<String>,
}

/// Whether the device info reports a detected device.
pub open spec fn info_of(i: MtpDeviceInfo, d: MtpDevice) -> bool {
    &&& i.name@ == d.name@
    &&& i.storage_name@ == d.storage_name@
    &&& i.storage_path@ == d.storage_path@
    &&& i.connected
    &&& i.free_bytes == d.free_bytes
    &&& i.total_bytes == d.total_bytes
    &&& i.media_folders@.len() == 10
    &&& forall|k: int| 0 <= k < 10 ==> (#[trigger] i.media_folders@[k])@ == MEDIA_FOLDERS@[k]@
}

fn media_folder_list() -> (r: Vec<String>)
    ensures
        r@.len() == 10,
        forall|k: int| 0 <= k < 10 ==> (#[trigger] r@[k])@ == MEDIA_FOLDERS@[k]@,
{
    let mut r: Vec<String> = Vec::new();
    let mut i: usize = 0;
    while i < 10
        invariant
            i <= 10,
            r@.len() == i,
            forall|k: int| 0 <= k < i ==> (#[trigger] r@[k])@ == MEDIA_FOLDERS@[k]@,
        decreases 10 - i,
    {
        r.push(owned(MEDIA_FOLDERS[i]));
        i += 1;
    }
    r
}

/// Status of the detected phones (`devices` comes from device detection).
pub fn get_mtp_status(devices: &Vec<MtpDevice>) -> (r: Vec<MtpDeviceInfo>)
    ensures
        r@.len() == devices@.len(),
        forall|k: int| 0 <= k < r@.len() ==> info_of(#[trigger] r@[k], devices@[k]),
{
    let mut r: Vec<MtpDeviceInfo> = Vec::new();
    let mut i: usize = 0;
    while i < devices.len()
        invariant
            i <= devices@.len(),
            r@.len() == i,
            forall|k: int| 0 <= k < i ==> info_of(#[trigger] r@[k], devices@[k]),
        decreases devices.len() - i,
    {
        let d = &devices[i];
        r.push(
            MtpDeviceInfo {
                name: d.name.clone(),
                storage_name: d.storage_name.clone(),
                storage_path: d.storage_path.clone(),
                connected: true,
                free_bytes: d.free_bytes,
                total_bytes: d.total_bytes,
                media_folders: media_folder_list(),
            },
        );
        i += 1;
    }
    r
}

/// Whether some detected device has this storage path.
pub open spec fn has_storage(devices: Seq<MtpDevice>, storage_path: Seq<char>) -> bool {
    exists|k: int| 0 <= k < devices.len() && (#[trigger] devices[k]).storage_path@ == storage_path
}

/// The position of the first detected device with this storage path.
pub fn find_device(devices: &Vec<MtpDevice>, storage_path: &str) -> (r: Option<usize>)
    ensures
        match r {
            Some(k) => k < devices@.len() && devices@[k as int].storage_path@ == storage_path@ && forall|j: int| 0 <= j < k ==> (#[trigger] devices@[j]).storage_path@ != storage_path@,
            None => !has_storage(devices@, storage_path@),
        },
{
    let mut i: usize = 0;
    while i < devices.len()
        invariant
            i <= devices@.len(),
            forall|j: int| 0 <= j < i ==> (#[trigger] devices@[j]).storage_path@ != storage_path@,
        decreases devices.len() - i,
    {
        if str_eq(devices[i].storage_path.as_str(), storage_path) {
            return Some(i);
        }
        i += 1;
    }
    None
}

pub open spec fn no_phone_message() -> Seq<char> {
    "No Android phone detected. Plug in your phone via USB, unlock it, and choose \"File transfer\" or \"Transfer files\" (not \"Charge only\")."@
}

pub open spec fn phone_gone_message() -> Seq<char> {
    "Phone was disconnected or switched out of file transfer mode. Reconnect and try again."@
}

/// Checks that the phone with this storage path is still connected (`devices`
/// comes from device detection).
pub fn validate_device_connected(devices: &Vec<MtpDevice>, storage_path: &str) -> (r: Result<(), String>)
    ensures
        devices@.len() == 0 ==> (r matches Err(e) && e@ == no_phone_message()),
        devices@.len() > 0 && !has_storage(devices@, storage_path@) ==> (r matches Err(e) && e@ == phone_gone_message()),
        devices@.len() > 0 && has_storage(devices@, storage_path@) ==> r is Ok,
{
    if devices.len() == 0 {
        return Err(owned("No Android phone detected. Plug in your phone via USB, unlock it, and choose \"File transfer\" or \"Transfer files\" (not \"Charge only\")."));
    }
    if find_device(devices, storage_path).is_none() {
        return Err(owned("Phone was disconnected or switched out of file transfer mode. Reconnect and try again."));
    }
    Ok(())
}

} // verus!
