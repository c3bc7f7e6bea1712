//! Folders on this PC (and phone backups copied to it).

use vstd::prelude::*;
use crate::scanner::{is_media_file, is_media_name, ScannedItem};
use crate::text::{owned, path_join, replace_char, replace_char_spec, spec_path_join};

verus! {

/// The MIME type that `mime_guess` reports first for a path, by its extension.
pub uninterp spec fn spec_guess_mime(path: Seq<char>) -> Option<Seq<char>>;

/// `mime_guess::from_path(path).first()`, written as text.
#[verifier::external_body]
pub(crate) fn guess_mime(path: &str) -> (r: Option<String>)
    ensures
        match r {
            Some(m) => spec_guess_mime(path@) == Some(m@),
            None => spec_guess_mime(path@) is None,
        },
{
    mime_guess::from_path(path).first().map(|m| m.to_string())
}

/// What `Path::strip_prefix` leaves of `path` below `root`, as text (`None`
/// when `root` is not a prefix of `path` component by component).
pub uninterp spec fn spec_strip_prefix(path: Seq<char>, root: Seq<char>) -> Option<Seq<char>>;

/// `Path::new(path).strip_prefix(root)`, given back as a `String`.
#[verifier::external_body]
fn path_strip_prefix(path: &str, root: &str) -> (r: Option<String>)
    ensures
        match r {
            Some(s) => spec_strip_prefix(path@, root@) == Some(s@),
            None => spec_strip_prefix(path@, root@) is None,
        },
{
    match std::path::Path::new(path).strip_prefix(root) {
        Ok(p) => Some(p.to_string_lossy().into_owned()),
        Err(_) => None,
    }
}

pub struct LocalScanner {
    pub root: String,
}

impl LocalScanner {
    pub fn new(root: String) -> (r: Self)
        ensures
            r.root == root,
    {
        Self { root }
    }
}

/// The path of a listed file relative to the scanned folder, with `/` between
/// its parts.
pub open spec fn listed_relative(path: Seq<char>, root: Seq<char>) -> Seq<char> {
    let rel = match spec_strip_prefix(path, root) {
        Some(r) => r,
        None => path,
    };
    replace_char_spec(rel, '\\', "/"@)
}

/// Whether an item describes a file found while walking a folder.
pub open spec fn local_item_of(
    item: ScannedItem,
    root: Seq<char>,
    path: Seq<char>,
    filename: Seq<char>,
    size: u64,
    modified_at: Option<Seq<char>>,
) -> bool {
    &&& item.relative_path@ == listed_relative(path, root)
    &&& item.filename@ == filename
    &&& item.size_bytes == size
    &&& match item.mime_type {
        Some(m) => spec_guess_mime(path) == Some(m@),
        None => spec_guess_mime(path) is None,
    }
    &&& match item.modified_at {
        Some(m) => modified_at == Some(m@),
        None => modified_at is None,
    }
    &&& item.content_hash is None
    &&& item.md5_checksum is None
    &&& item.drive_file_id is None
    &&& item.local_path matches Some(p) && p@ == path
}

impl LocalScanner {
    /// The item for one regular file met while walking the folder: `path` is
    /// its full path and `filename` its final part; only media files are kept.
    pub fn item_for_file(
        &self,
        path: &str,
        filename: &str,
        size: u64,
        modified_at: Option<String>,
    ) -> (r: Option<ScannedItem>)
        ensures
            !is_media_name(filename@) ==> r is None,
            is_media_name(filename@) ==> (r matches Some(item) && local_item_of(
                item,
                self.root@,
                path@,
                filename@,
                size,
                match modified_at {
                    Some(m) => Some(m@),
                    None => None,
                },
            )),
    {
        if !is_media_file(filename) {
            return None;
        }
        let stripped = path_strip_prefix(path, self.root.as_str());
        let rel_native = match stripped {
            Some(s) => s,
            None => owned(path),
        };
        let relative = replace_char(rel_native.as_str(), '\\', "/");
        let mime_type = guess_mime(path);
        Some(ScannedItem {
            relative_path: relative,
            filename: owned(filename),
            size_bytes: size,
            mime_type,
            modified_at,
            content_hash: None,
            md5_checksum: None,
            drive_file_id: None,
            local_path: Some(owned(path)),
        })
    }

    /// The file to read for an item's hash: its own path, else its relative
    /// path under the folder.
    pub fn read_file_for_hash(&self, item: &ScannedItem) -> (r: String)
        ensures
            match item.local_path {
                Some(p) => r@ == p@,
                None => r@ == spec_path_join(self.root@, item.relative_path@),
            },
    {
        match &item.local_path {
            Some(p) => p.clone(),
            None => path_join(self.root.as_str(), item.relative_path.as_str()),
        }
    }
}

/// Phone import uses the same walk logic as local folders.
pub struct PhoneImportScanner {
    pub inner: LocalScanner,
}

impl PhoneImportScanner {
    pub fn new(root: String) -> (r: Self)
        ensures
            r.inner.root == root,
    {
        Self { inner: LocalScanner::new(root) }
    }

    /// The items of a walk of the phone backup folder: those a PC folder
    /// with the same root lists.
    pub fn items_from_walk(&self, entries: &Vec<WalkEntry>) -> (r: Vec<ScannedItem>)
        ensures
            walk_lists(self.inner.root@, entries@, r@),
    {
        self.inner.items_from_walk(entries)
    }

    /// The file to read for an item's hash, as for a PC folder.
    pub fn read_file_for_hash(&self, item: &ScannedItem) -> (r: String)
        ensures
            match item.local_path {
                Some(p) => r@ == p@,
                None => r@ == spec_path_join(self.inner.root@, item.relative_path@),
            },
    {
        self.inner.read_file_for_hash(item)
    }
}

/// One regular file met while walking a folder: its full path, its final
/// part, its size and its modification time (RFC 3339, UTC), if known.
#[derive(Debug, Clone)]
pub struct WalkEntry {
    pub path: String,
    pub filename: String,
    pub size: u64,
    pub modified_at: Option<String>,
}

/// The walked files that are media files, in walk order.
pub open spec fn media_entries(entries: Seq<WalkEntry>) -> Seq<WalkEntry>
    decreases entries.len(),
{
    if entries.len() == 0 {
        Seq::empty()
    } else if is_media_name(entries.last().filename@) {
        media_entries(entries.drop_last()).push(entries.last())
    } else {
        media_entries(entries.drop_last())
    }
}

/// Whether `items` is the listing of a walk under `root`: one item per media
/// file, in walk order, each describing its file.
pub open spec fn walk_lists(root: Seq<char>, entries: Seq<WalkEntry>, items: Seq<ScannedItem>) -> bool {
    &&& items.len() == media_entries(entries).len()
    &&& forall|k: int|
        0 <= k < items.len() ==> local_item_of(
            #[trigger] items[k],
            root,
            media_entries(entries)[k].path@,
            media_entries(entries)[k].filename@,
            media_entries(entries)[k].size,
            match media_entries(entries)[k].modified_at {
                Some(m) => Some(m@),
                None => None,
            },
        )
}

impl LocalScanner {
    /// The items of a walk of the folder: one per media file, in walk order.
    pub fn items_from_walk(&self, entries: &Vec<WalkEntry>) -> (r: Vec<ScannedItem>)
        ensures
            walk_lists(self.root@, entries@, r@),
    {
        let mut items: Vec<ScannedItem> = Vec::new();
        let mut i: usize = 0;
        while i < entries.len()
            invariant
                i <= entries@.len(),
                walk_lists(self.root@, entries@.take(i as int), items@),
            decreases entries.len() - i,
        {
            assert(entries@.take(i + 1).drop_last() =~= entries@.take(i as int));
            assert(entries@.take(i + 1).last() == entries@[i as int]);
            let e = &entries[i];
            let ghost before = items@;
            match self.item_for_file(e.path.as_str(), e.filename.as_str(), e.size, e.modified_at.clone()) {
                Some(item) => {
                    items.push(item);
                },
                None => {},
            }
            proof {
                let m = media_entries(entries@.take(i + 1));
                assert forall|k: int| 0 <= k < items@.len() implies local_item_of(
                    #[trigger] items@[k],
                    self.root@,
                    m[k].path@,
                    m[k].filename@,
                    m[k].size,
                    match m[k].modified_at {
                        Some(x) => Some(x@),
                        None => None,
                    },
                ) by {
                    if k < before.len() {
                        assert(items@[k] == before[k]);
                    }
                }
            }
            i += 1;
        }
        assert(entries@.take(entries@.len() as int) =~= entries@);
        items
    }
}

/// A phone backup folder is listed exactly as a PC folder with the same root
/// would be: for any walk, the two scanners' listings satisfy the same
/// description.
pub proof fn law_phone_import_lists_like_local(
    phone: PhoneImportScanner,
    pc: LocalScanner,
    entries: Seq<WalkEntry>,
    items: Seq<ScannedItem>,
)
    requires
        phone.inner.root == pc.root,
    ensures
        walk_lists(phone.inner.root@, entries, items) == walk_lists(pc.root@, entries, items),
{
}

/// The path a scanner without its own rule reads for an item's hash: the item's
/// local path, or an error when it has none.
pub fn default_hash_path(item: &ScannedItem) -> (r: Result<String, String>)
    ensures
        match item.local_path {
            Some(p) => r matches Ok(s) && s@ == p@,
            None => r matches Err(e) && e@ == "no local path for hashing"@,
        },
{
    match &item.local_path {
        Some(p) => Ok(p.clone()),
        None => Err(owned("no local path for hashing")),
    }
}

/// Checks a folder chosen by the user: `exists` and `is_dir` describe the path.
pub fn validate_folder(exists: bool, is_dir: bool) -> (r: Result<(), String>)
    ensures
        !exists ==> (r matches Err(e) && e@ == "folder does not exist"@),
        exists && !is_dir ==> (r matches Err(e) && e@ == "path is not a folder"@),
        exists && is_dir ==> r is Ok,
{
    if !exists {
        return Err(owned("folder does not exist"));
    }
    if !is_dir {
        return Err(owned("path is not a folder"));
    }
    Ok(())
}

} // verus!
