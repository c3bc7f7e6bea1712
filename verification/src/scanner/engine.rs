//! Duplicate detection across all sources, and the Google Drive files that are
//! safe to move to Trash because a copy is already on this PC or phone.

use vstd::prelude::*;
use std::collections::HashMap;
use crate::scanner::{lemma_source_type_names_parse, Confidence, FileRecord, ScanProgress, ScannedItem, SourceType};
use crate::hash::{content_identity_from_md5, md5_identity, normalize_md5, normalized_md5, FileFingerprint};
use crate::text::{chars_of, has_prefix, owned, starts_with, str_eq};

verus! {

broadcast use vstd::std_specs::hash::group_hash_axioms;

/// The duplicate-matching key of a file: its content hash, when it has a
/// non-empty one.
pub open spec fn hash_key(f: FileRecord) -> Option<Seq<char>> {
    match f.content_hash {
        Some(h) => if h@.len() > 0 {
            Some(h@)
        } else {
            None
        },
        None => None,
    }
}

/// How many files carry the content hash `h`.
pub open spec fn count_hash(files: Seq<FileRecord>, h: Seq<char>) -> nat
    decreases files.len(),
{
    if files.len() == 0 {
        0
    } else {
        count_hash(files.drop_last(), h) + if hash_key(files.last()) == Some(h) {
            1nat
        } else {
            0nat
        }
    }
}

/// The total size of the files that carry the content hash `h`.
pub open spec fn size_sum(files: Seq<FileRecord>, h: Seq<char>) -> int
    decreases files.len(),
{
    if files.len() == 0 {
        0
    } else {
        size_sum(files.drop_last(), h) + if hash_key(files.last()) == Some(h) {
            files.last().size_bytes as int
        } else {
            0int
        }
    }
}

/// Whether adding up, in file order, the sizes of the files that carry `h`
/// stays within `i64` at every step.
pub open spec fn size_sum_fits(files: Seq<FileRecord>, h: Seq<char>) -> bool
    decreases files.len(),
{
    if files.len() == 0 {
        true
    } else {
        &&& size_sum_fits(files.drop_last(), h)
        &&& hash_key(files.last()) == Some(h) ==> i64::MIN <= size_sum(files, h) <= i64::MAX
    }
}

/// Whether `j` is the first file that carries `h`.
pub open spec fn is_first_with(files: Seq<FileRecord>, h: Seq<char>, j: int) -> bool {
    &&& 0 <= j < files.len()
    &&& hash_key(files[j]) == Some(h)
    &&& forall|k: int| 0 <= k < j ==> hash_key(#[trigger] files[k]) != Some(h)
}

/// Text order as SQLite's `MIN` compares text: character by character by code
/// point, a prefix first.
pub open spec fn text_le(a: Seq<char>, b: Seq<char>) -> bool
    decreases a.len(),
{
    if a.len() == 0 {
        true
    } else if b.len() == 0 {
        false
    } else if (a[0] as u32) < (b[0] as u32) {
        true
    } else if (a[0] as u32) > (b[0] as u32) {
        false
    } else {
        text_le(a.drop_first(), b.drop_first())
    }
}

pub proof fn lemma_text_le_total(a: Seq<char>, b: Seq<char>)
    ensures
        text_le(a, b) || text_le(b, a),
    decreases a.len(),
{
    if a.len() > 0 && b.len() > 0 && (a[0] as u32) == (b[0] as u32) {
        lemma_text_le_total(a.drop_first(), b.drop_first());
    }
}

pub proof fn lemma_text_le_trans(a: Seq<char>, b: Seq<char>, c: Seq<char>)
    requires
        text_le(a, b),
        text_le(b, c),
    ensures
        text_le(a, c),
    decreases a.len(),
{
    if a.len() > 0 && b.len() > 0 && c.len() > 0 && (a[0] as u32) == (b[0] as u32) && (b[0] as u32) == (c[0] as u32) {
        lemma_text_le_trans(a.drop_first(), b.drop_first(), c.drop_first());
    }
}

/// Whether `id` is the smallest id among the files that carry `h`.
pub open spec fn is_min_id(files: Seq<FileRecord>, h: Seq<char>, id: Seq<char>) -> bool {
    &&& exists|j: int|
        0 <= j < files.len() && hash_key(#[trigger] files[j]) == Some(h) && files[j].id@ == id
    &&& forall|k: int|
        0 <= k < files.len() && hash_key(#[trigger] files[k]) == Some(h) ==> text_le(
            id,
            files[k].id@,
        )
}

/// The confidence that a content hash shared by several files earns: hashes that
/// only suggest a match (`likely:`) give a likely duplicate, the rest a verified one.
pub open spec fn group_confidence(h: Seq<char>) -> Confidence {
    if has_prefix(h, "likely:"@) {
        Confidence::LikelyDuplicate
    } else {
        Confidence::VerifiedDuplicate
    }
}

/// The confidence a file ends with after duplicates are recomputed: a file
/// without a hash keeps its own; an empty hash gives `Unknown`; a hash shared
/// with another file gives a duplicate; any other hash gives `Unique`.
pub open spec fn expected_confidence(files: Seq<FileRecord>, i: int) -> Confidence {
    match hash_key(files[i]) {
        Some(h) => if count_hash(files, h) > 1 {
            group_confidence(h)
        } else {
            Confidence::Unique
        },
        None => if files[i].content_hash is Some {
            Confidence::Unknown
        } else {
            files[i].confidence
        },
    }
}

/// One set of files that share a content hash.
#[derive(Debug, Clone)]
pub struct DuplicateGroup {
    pub content_hash: String,
    pub file_count: i64,
    pub total_size_bytes: i64,
    pub primary_file_id: String,
    /// The first of the group's files, by position in the input.
    pub first_index: usize,
}

/// What recomputing duplicates decides: each file's confidence and group, and
/// the groups.
#[derive(Debug)]
pub struct DuplicateAnalysis {
    pub confidences: Vec<Confidence>,
    pub group_of: Vec<Option<usize>>,
    pub groups: Vec<DuplicateGroup>,
}

/// Whether a group describes the files that carry its hash.
pub open spec fn group_describes(files: Seq<FileRecord>, g: DuplicateGroup) -> bool {
    let h = g.content_hash@;
    &&& h.len() > 0
    &&& count_hash(files, h) > 1
    &&& g.file_count as int == count_hash(files, h)
    &&& g.total_size_bytes as int == size_sum(files, h)
    &&& is_first_with(files, h, g.first_index as int)
    &&& is_min_id(files, h, g.primary_file_id@)
}

/// Whether an analysis is the right one for `files`.
pub open spec fn analysis_correct(files: Seq<FileRecord>, a: DuplicateAnalysis) -> bool {
    &&& a.confidences@.len() == files.len()
    &&& a.group_of@.len() == files.len()
    &&& forall|i: int| 0 <= i < files.len() ==> a.confidences@[i] == expected_confidence(files, i)
    &&& forall|g: int| 0 <= g < a.groups@.len() ==> group_describes(files, #[trigger] a.groups@[g])
    &&& forall|i: int|
        0 <= i < files.len() ==> match #[trigger] a.group_of@[i] {
            Some(g) => {
                &&& g < a.groups@.len()
                &&& hash_key(files[i]) == Some(a.groups@[g as int].content_hash@)
            },
            None => !(hash_key(files[i]) matches Some(h) && count_hash(files, h) > 1),
        }
    &&& forall|g1: int, g2: int|
        0 <= g1 < a.groups@.len() && 0 <= g2 < a.groups@.len() && g1 != g2 ==> (
        #[trigger] a.groups@[g1]).content_hash@ != (#[trigger] a.groups@[g2]).content_hash@
}

/// Whether some shared content hash has sizes that overflow `i64` when added up.
pub open spec fn some_group_overflows(files: Seq<FileRecord>) -> bool {
    exists|i: int|
        0 <= i < files.len() && ((#[trigger] hash_key(files[i])) matches Some(h) && count_hash(
            files,
            h,
        ) > 1 && !size_sum_fits(files, h))
}

/// The bucket key of a text (64-bit FNV-1a over its characters).
pub open spec fn text_key(s: Seq<char>) -> u64
    decreases s.len(),
{
    if s.len() == 0 {
        0xcbf2_9ce4_8422_2325u64
    } else {
        ((((text_key(s.drop_last()) ^ (s.last() as u64)) as int) * 0x100_0000_01b3) % 0x1_0000_0000_0000_0000) as u64
    }
}

fn text_key_of(s: &str) -> (r: u64)
    ensures
        r == text_key(s@),
{
    let cs = chars_of(s);
    let mut h: u64 = 0xcbf2_9ce4_8422_2325u64;
    let mut i: usize = 0;
    while i < cs.len()
        invariant
            cs@ == s@,
            i <= cs.len(),
            h == text_key(cs@.take(i as int)),
        decreases cs.len() - i,
    {
        assert(cs@.take(i + 1).drop_last() =~= cs@.take(i as int));
        let x: u64 = h ^ (cs[i] as u64);
        let p: u128 = (x as u128) * 0x100_0000_01b3u128;
        assert(p < 0x1_0000_0000_0000_0000_0000_0000_0000_0000) by (nonlinear_arith)
            requires p == (x as u128) * 0x100_0000_01b3u128, x <= u64::MAX;
        h = (p % 0x1_0000_0000_0000_0000u128) as u64;
        i += 1;
    }
    assert(cs@.take(cs.len() as int) =~= cs@);
    h
}

/// Whether `b` lists, in increasing order, positions below `n` of files whose
/// hash has bucket key `k`.
pub open spec fn bucket_sound(files: Seq<FileRecord>, b: Seq<usize>, n: int, k: u64) -> bool {
    &&& forall|p: int, q: int| 0 <= p < q < b.len() ==> b[p] < b[q]
    &&& forall|p: int|
        0 <= p < b.len() ==> {
            &&& (#[trigger] b[p]) < n
            &&& hash_key(files[b[p] as int]) matches Some(h) && text_key(h) == k
        }
}

/// How many of the files listed in `b` carry `h`.
pub open spec fn count_in(b: Seq<usize>, files: Seq<FileRecord>, h: Seq<char>) -> nat
    decreases b.len(),
{
    if b.len() == 0 {
        0
    } else {
        count_in(b.drop_last(), files, h) + if hash_key(files[b.last() as int]) == Some(h) {
            1nat
        } else {
            0nat
        }
    }
}

/// The total size of the files listed in `b` that carry `h`.
pub open spec fn sum_in(b: Seq<usize>, files: Seq<FileRecord>, h: Seq<char>) -> int
    decreases b.len(),
{
    if b.len() == 0 {
        0
    } else {
        sum_in(b.drop_last(), files, h) + if hash_key(files[b.last() as int]) == Some(h) {
            files[b.last() as int].size_bytes as int
        } else {
            0int
        }
    }
}

/// Whether adding up the sizes of the files listed in `b` that carry `h`, in
/// list order, stays within `i64`.
pub open spec fn sum_fits_in(b: Seq<usize>, files: Seq<FileRecord>, h: Seq<char>) -> bool
    decreases b.len(),
{
    if b.len() == 0 {
        true
    } else {
        &&& sum_fits_in(b.drop_last(), files, h)
        &&& hash_key(files[b.last() as int]) == Some(h) ==> i64::MIN <= sum_in(b, files, h) <= i64::MAX
    }
}

/// A list that holds, in increasing order, every position below `n` of a file
/// carrying `h` counts and sums those files as the first `n` files do.
pub proof fn lemma_bucket_totals(b: Seq<usize>, files: Seq<FileRecord>, h: Seq<char>, n: int)
    requires
        0 <= n <= files.len(),
        n <= usize::MAX,
        forall|p: int, q: int| 0 <= p < q < b.len() ==> b[p] < b[q],
        forall|p: int| 0 <= p < b.len() ==> (#[trigger] b[p]) < n,
        forall|j: int| 0 <= j < n && hash_key(#[trigger] files[j]) == Some(h) ==> b.contains(j as usize),
    ensures
        count_in(b, files, h) == count_hash(files.take(n), h),
        sum_in(b, files, h) == size_sum(files.take(n), h),
        sum_fits_in(b, files, h) == size_sum_fits(files.take(n), h),
    decreases n,
{
    if n == 0 {
        if b.len() > 0 {
            assert(b[0] < 0);
        }
        assert(files.take(0) =~= Seq::<FileRecord>::empty());
    } else {
        assert(files.take(n).drop_last() =~= files.take(n - 1));
        if b.len() > 0 && b.last() == (n - 1) as usize {
            let c = b.drop_last();
            assert forall|j: int| 0 <= j < n - 1 && hash_key(#[trigger] files[j]) == Some(h) implies c.contains(j as usize) by {
                assert(b.contains(j as usize));
                let p = choose|p: int| 0 <= p < b.len() && b[p] == j as usize;
                if p == b.len() - 1 {
                    assert(false);
                }
                assert(c[p] == j as usize);
            }
            assert forall|p: int| 0 <= p < c.len() implies (#[trigger] c[p]) < n - 1 by {
                assert(b[p] < b[b.len() - 1]);
            }
            lemma_bucket_totals(c, files, h, n - 1);
        } else {
            if hash_key(files[n - 1]) == Some(h) {
                assert(b.contains((n - 1) as usize));
                let p = choose|p: int| 0 <= p < b.len() && b[p] == (n - 1) as usize;
                if p < b.len() - 1 {
                    assert(b[p] < b[b.len() - 1]);
                    assert(b[b.len() - 1] < n);
                }
                assert(false);
            }
            assert forall|p: int| 0 <= p < b.len() implies (#[trigger] b[p]) < n - 1 by {
                if b[p] == (n - 1) as usize {
                    if p < b.len() - 1 {
                        assert(b[p] < b[b.len() - 1]);
                    }
                }
            }
            lemma_bucket_totals(b, files, h, n - 1);
        }
    }
}

} // verus!

verus! {

/// `text_le` on two strings.
pub fn text_le_exec(a: &str, b: &str) -> (r: bool)
    ensures
        r == text_le(a@, b@),
{
    let ca = chars_of(a);
    let cb = chars_of(b);
    let mut i: usize = 0;
    assert(a@.skip(0) =~= a@);
    assert(b@.skip(0) =~= b@);
    while i < ca.len() && i < cb.len()
        invariant
            ca@ == a@,
            cb@ == b@,
            i <= ca.len(),
            i <= cb.len(),
            text_le(a@, b@) == text_le(a@.skip(i as int), b@.skip(i as int)),
        decreases ca.len() - i,
    {
        assert(a@.skip(i as int)[0] == ca@[i as int]);
        assert(b@.skip(i as int)[0] == cb@[i as int]);
        assert(a@.skip(i as int).drop_first() =~= a@.skip(i + 1));
        assert(b@.skip(i as int).drop_first() =~= b@.skip(i + 1));
        let x = ca[i] as u32;
        let y = cb[i] as u32;
        if x < y {
            return true;
        }
        if x > y {
            return false;
        }
        i += 1;
    }
    i == ca.len()
}

/// The position of the first file carrying `h` is unique.
pub proof fn lemma_first_unique(files: Seq<FileRecord>, h: Seq<char>, j1: int, j2: int)
    requires
        is_first_with(files, h, j1),
        is_first_with(files, h, j2),
    ensures
        j1 == j2,
{
    if j1 < j2 {
        assert(hash_key(files[j1]) != Some(h));
    }
    if j2 < j1 {
        assert(hash_key(files[j2]) != Some(h));
    }
}

/// Whether `b` holds every position below `n` of a file carrying `h`.
pub open spec fn bucket_covers(files: Seq<FileRecord>, b: Seq<usize>, h: Seq<char>, n: int) -> bool {
    forall|j: int| 0 <= j < n && hash_key(#[trigger] files[j]) == Some(h) ==> b.contains(j as usize)
}

/// Counts the files of a bucket that carry `h`, and finds the first of them.
fn scan_bucket(files: &Vec<FileRecord>, b: &Vec<usize>, h: &str) -> (res: (usize, Option<usize>))
    requires
        h@.len() > 0,
        bucket_sound(files@, b@, files@.len() as int, text_key(h@)),
        bucket_covers(files@, b@, h@, files@.len() as int),
    ensures
        res.0 == count_hash(files@, h@),
        res.1 matches Some(f) ==> is_first_with(files@, h@, f as int),
        res.1 is None ==> count_hash(files@, h@) == 0,
{
    let mut count: usize = 0;
    let mut first: Option<usize> = None;
    let mut p: usize = 0;
    while p < b.len()
        invariant
            p <= b@.len(),
            h@.len() > 0,
            bucket_sound(files@, b@, files@.len() as int, text_key(h@)),
            count == count_in(b@.take(p as int), files@, h@),
            count <= p,
            first is None ==> count == 0,
            first is None ==> forall|q: int| 0 <= q < p ==> hash_key(files@[#[trigger] b@[q] as int]) != Some(h@),
            first matches Some(f) ==> exists|q0: int|
                0 <= q0 < p && b@[q0] == f && hash_key(files@[f as int]) == Some(h@) && forall|q: int|
                    0 <= q < q0 ==> hash_key(files@[#[trigger] b@[q] as int]) != Some(h@),
        decreases b.len() - p,
    {
        assert(b@.take(p + 1).drop_last() =~= b@.take(p as int));
        let j = b[p];
        assert(b@[p as int] < files@.len());
        let matches = match &files[j].content_hash {
            Some(x) => str_eq(x.as_str(), h),
            None => false,
        };
        assert(matches == (hash_key(files@[j as int]) == Some(h@)));
        if matches {
            count = count + 1;
            if first.is_none() {
                first = Some(j);
            }
        }
        p += 1;
    }
    assert(b@.take(b@.len() as int) =~= b@);
    let n = files.len();
    proof {
        lemma_bucket_totals(b@, files@, h@, n as int);
        assert(files@.take(n as int) =~= files@);
        if let Some(f) = first {
            let q0 = choose|q0: int|
                0 <= q0 < p && b@[q0] == f && hash_key(files@[f as int]) == Some(h@) && forall|q: int|
                    0 <= q < q0 ==> hash_key(files@[#[trigger] b@[q] as int]) != Some(h@);
            assert forall|k: int| 0 <= k < f implies hash_key(#[trigger] files@[k]) != Some(h@) by {
                if hash_key(files@[k]) == Some(h@) {
                    assert(b@.contains(k as usize));
                    let q = choose|q: int| 0 <= q < b@.len() && b@[q] == k as usize;
                    if q >= q0 {
                        if q > q0 {
                            assert(b@[q0] < b@[q]);
                        }
                    }
                    assert(hash_key(files@[b@[q] as int]) != Some(h@));
                }
            }
        }
    }
    (count, first)
}

/// Adds up the sizes of a bucket's files that carry `h` and finds their
/// smallest id; `None` when the sum leaves `i64` on the way.
#[verifier::rlimit(40)]
fn group_totals(files: &Vec<FileRecord>, b: &Vec<usize>, h: &str) -> (res: Option<(i64, String)>)
    requires
        h@.len() > 0,
        count_hash(files@, h@) > 0,
        bucket_sound(files@, b@, files@.len() as int, text_key(h@)),
        bucket_covers(files@, b@, h@, files@.len() as int),
    ensures
        res matches Some((t, id)) ==> size_sum_fits(files@, h@) && t == size_sum(files@, h@) && is_min_id(files@, h@, id@),
        res is None ==> !size_sum_fits(files@, h@),
{
    let n = files.len();
    proof {
        lemma_bucket_totals(b@, files@, h@, n as int);
        assert(files@.take(n as int) =~= files@);
    }
    let mut total: i64 = 0;
    let mut min_id: Option<String> = None;
    let mut p: usize = 0;
    while p < b.len()
        invariant
            p <= b@.len(),
            h@.len() > 0,
            bucket_sound(files@, b@, files@.len() as int, text_key(h@)),
            total == sum_in(b@.take(p as int), files@, h@),
            sum_fits_in(b@.take(p as int), files@, h@),
            sum_fits_in(b@, files@, h@) == size_sum_fits(files@, h@),
            min_id is None ==> forall|q: int| 0 <= q < p ==> hash_key(files@[#[trigger] b@[q] as int]) != Some(h@),
            min_id matches Some(m) ==> {
                &&& exists|q: int| 0 <= q < p && hash_key(files@[#[trigger] b@[q] as int]) == Some(h@) && files@[b@[q] as int].id@ == m@
                &&& forall|q: int| 0 <= q < p && hash_key(files@[#[trigger] b@[q] as int]) == Some(h@) ==> text_le(m@, files@[b@[q] as int].id@)
            },
        decreases b.len() - p,
    {
        assert(b@.take(p + 1).drop_last() =~= b@.take(p as int));
        let j = b[p];
        assert(b@[p as int] < files@.len());
        let matches = match &files[j].content_hash {
            Some(x) => str_eq(x.as_str(), h),
            None => false,
        };
        assert(matches == (hash_key(files@[j as int]) == Some(h@)));
        if matches {
            match total.checked_add(files[j].size_bytes) {
                Some(t) => {
                    total = t;
                },
                None => {
                    proof {
                        assert(!sum_fits_in(b@.take(p + 1), files@, h@));
                        lemma_sum_fits_prefix(b@, files@, h@, p + 1);
                        assert(b@.take(b@.len() as int) =~= b@);
                    }
                    return None;
                },
            }
            let replace = match &min_id {
                Some(m) => !text_le_exec(m.as_str(), files[j].id.as_str()),
                None => true,
            };
            if replace {
                proof {
                    if let Some(m) = min_id {
                        lemma_text_le_total(m@, files@[j as int].id@);
                        assert forall|q: int| 0 <= q < p && hash_key(files@[#[trigger] b@[q] as int]) == Some(h@) implies text_le(files@[j as int].id@, files@[b@[q] as int].id@) by {
                            lemma_text_le_trans(files@[j as int].id@, m@, files@[b@[q] as int].id@);
                        }
                    }
                }
                min_id = Some(files[j].id.clone());
                proof {
                    lemma_text_le_refl(files@[j as int].id@);
                }
            }
        }
        p += 1;
    }
    assert(b@.take(b@.len() as int) =~= b@);
    match min_id {
        Some(m) => {
            proof {
                let q = choose|q: int| 0 <= q < p && hash_key(files@[#[trigger] b@[q] as int]) == Some(h@) && files@[b@[q] as int].id@ == m@;
                assert(hash_key(files@[b@[q] as int]) == Some(h@));
                assert forall|k: int| 0 <= k < files@.len() && hash_key(#[trigger] files@[k]) == Some(h@) implies text_le(m@, files@[k].id@) by {
                    assert(b@.contains(k as usize));
                    let q2 = choose|q2: int| 0 <= q2 < b@.len() && b@[q2] == k as usize;
                    assert(hash_key(files@[b@[q2] as int]) == Some(h@));
                }
            }
            Some((total, m))
        },
        None => {
            proof {
                assert(count_in(b@, files@, h@) == 0) by {
                    lemma_count_in_zero(b@, files@, h@);
                }
            }
            None
        },
    }
}

pub proof fn lemma_text_le_refl(a: Seq<char>)
    ensures
        text_le(a, a),
    decreases a.len(),
{
    if a.len() > 0 {
        lemma_text_le_refl(a.drop_first());
    }
}

/// A list none of whose files carries `h` counts none.
proof fn lemma_count_in_zero(b: Seq<usize>, files: Seq<FileRecord>, h: Seq<char>)
    requires
        forall|q: int| 0 <= q < b.len() ==> hash_key(files[#[trigger] b[q] as int]) != Some(h),
    ensures
        count_in(b, files, h) == 0,
    decreases b.len(),
{
    if b.len() > 0 {
        lemma_count_in_zero(b.drop_last(), files, h);
    }
}

/// An overflow on a prefix of the list is an overflow of the whole list.
proof fn lemma_sum_fits_prefix(b: Seq<usize>, files: Seq<FileRecord>, h: Seq<char>, p: int)
    requires
        0 <= p <= b.len(),
        !sum_fits_in(b.take(p), files, h),
    ensures
        !sum_fits_in(b, files, h),
    decreases b.len() - p,
{
    if p < b.len() {
        assert(b.take(p + 1).drop_last() =~= b.take(p));
        lemma_sum_fits_prefix(b, files, h, p + 1);
    } else {
        assert(b.take(p) =~= b);
    }
}

} // verus!

verus! {

/// No hash is carried by more files than there are.
proof fn lemma_count_hash_le(files: Seq<FileRecord>, h: Seq<char>)
    ensures
        count_hash(files, h) <= files.len(),
    decreases files.len(),
{
    if files.len() > 0 {
        lemma_count_hash_le(files.drop_last(), h);
    }
}

/// The content hash of a file when it is a non-empty one.
fn key_text(f: &FileRecord) -> (r: Option<&String>)
    ensures
        match r {
            Some(h) => hash_key(*f) == Some(h@),
            None => hash_key(*f) is None,
        },
{
    match &f.content_hash {
        Some(h) => if h.as_str().is_empty() {
            None
        } else {
            Some(h)
        },
        None => None,
    }
}

/// Whether a map from bucket keys to position lists holds, for every file with
/// a hash, its position under its hash's key, and nothing else.
pub open spec fn buckets_index(files: Seq<FileRecord>, m: Map<u64, Vec<usize>>) -> bool {
    &&& forall|k: u64| #[trigger] m.contains_key(k) ==> bucket_sound(files, m[k]@, files.len() as int, k)
    &&& forall|j: int|
        0 <= j < files.len() && (#[trigger] hash_key(files[j])) is Some ==> m.contains_key(
            text_key(hash_key(files[j])->0),
        ) && m[text_key(hash_key(files[j])->0)]@.contains(j as usize)
}

/// Lists the positions of the files by the bucket key of their hash.
fn build_buckets(files: &Vec<FileRecord>) -> (buckets: HashMap<u64, Vec<usize>>)
    ensures
        buckets_index(files@, buckets@),
{
    let n = files.len();
    let mut buckets: HashMap<u64, Vec<usize>> = HashMap::new();
    let mut i: usize = 0;
    while i < n
        invariant
            n == files@.len(),
            i <= n,
            forall|k: u64| #[trigger] buckets@.contains_key(k) ==> bucket_sound(files@, buckets@[k]@, i as int, k),
            forall|j: int|
                0 <= j < i && (#[trigger] hash_key(files@[j])) is Some ==> buckets@.contains_key(
                    text_key(hash_key(files@[j])->0),
                ) && buckets@[text_key(hash_key(files@[j])->0)]@.contains(j as usize),
        decreases n - i,
    {
        if let Some(h) = key_text(&files[i]) {
            let k = text_key_of(h.as_str());
            let mut b = match buckets.remove(&k) {
                Some(b) => b,
                None => Vec::new(),
            };
            let ghost old_b = b@;
            b.push(i);
            proof {
                assert(b@.last() == i);
                assert forall|p: int| 0 <= p < b@.len() implies (#[trigger] b@[p]) < i + 1 && (hash_key(files@[b@[p] as int]) matches Some(h2) && text_key(h2) == k) by {
                    if p < old_b.len() {
                        assert(b@[p] == old_b[p]);
                    }
                }
                assert forall|p: int, q: int| 0 <= p < q < b@.len() implies b@[p] < b@[q] by {
                    if q < old_b.len() {
                        assert(b@[q] == old_b[q]);
                        assert(b@[p] == old_b[p]);
                    } else {
                        assert(b@[p] == old_b[p]);
                    }
                }
            }
            let ghost before = buckets@;
            buckets.insert(k, b);
            proof {
                assert forall|j: int|
                    0 <= j < i + 1 && (#[trigger] hash_key(files@[j])) is Some implies buckets@.contains_key(
                        text_key(hash_key(files@[j])->0),
                    ) && buckets@[text_key(hash_key(files@[j])->0)]@.contains(j as usize) by {
                    if j == i {
                        assert(buckets@[k]@[buckets@[k]@.len() - 1] == i);
                    } else {
                        let kj = text_key(hash_key(files@[j])->0);
                        if kj == k {
                            let p = choose|p: int| 0 <= p < old_b.len() && old_b[p] == j as usize;
                            assert(buckets@[k]@[p] == j as usize);
                        }
                    }
                }
            }
        }
        i += 1;
    }

    buckets
}

/// Groups the files of every source by content hash and decides each file's
/// confidence: files that share a hash with another file are duplicates
/// (verified, or only likely for `likely:` hashes), the others are unique.
/// Fails, as the database's `SUM` does, when a group's sizes overflow `i64`.
#[verifier::rlimit(60)]
pub fn recompute_duplicates(files: &Vec<FileRecord>) -> (r: Result<DuplicateAnalysis, String>)
    requires
        files@.len() <= i64::MAX,
    ensures
        match r {
            Ok(a) => analysis_correct(files@, a) && !some_group_overflows(files@),
            Err(_) => some_group_overflows(files@),
        },
{
    let n = files.len();
    let buckets = build_buckets(files);

    let mut confidences: Vec<Confidence> = Vec::new();
    let mut group_of: Vec<Option<usize>> = Vec::new();
    let mut groups: Vec<DuplicateGroup> = Vec::new();
    let mut i: usize = 0;
    while i < n
        invariant
            n == files@.len(),
            n <= i64::MAX,
            i <= n,
            forall|k: u64| #[trigger] buckets@.contains_key(k) ==> bucket_sound(files@, buckets@[k]@, n as int, k),
            forall|j: int|
                0 <= j < n && (#[trigger] hash_key(files@[j])) is Some ==> buckets@.contains_key(
                    text_key(hash_key(files@[j])->0),
                ) && buckets@[text_key(hash_key(files@[j])->0)]@.contains(j as usize),
            confidences@.len() == i,
            group_of@.len() == i,
            forall|j: int| 0 <= j < i ==> confidences@[j] == expected_confidence(files@, j),
            forall|g: int| 0 <= g < groups@.len() ==> group_describes(files@, #[trigger] groups@[g]),
            forall|g: int| 0 <= g < groups@.len() ==> (#[trigger] groups@[g]).first_index < i,
            forall|g: int| 0 <= g < groups@.len() ==> size_sum_fits(files@, (#[trigger] groups@[g]).content_hash@),
            forall|g1: int, g2: int| 0 <= g1 < g2 < groups@.len() ==> (#[trigger] groups@[g1]).first_index < (#[trigger] groups@[g2]).first_index,
            forall|j: int|
                0 <= j < i ==> match #[trigger] group_of@[j] {
                    Some(g) => {
                        &&& g < groups@.len()
                        &&& hash_key(files@[j]) == Some(groups@[g as int].content_hash@)
                    },
                    None => !(hash_key(files@[j]) matches Some(h) && count_hash(files@, h) > 1),
                },
        decreases n - i,
    {
        let f = &files[i];
        match key_text(f) {
            None => {
                let c = if f.content_hash.is_some() {
                    Confidence::Unknown
                } else {
                    f.confidence
                };
                confidences.push(c);
                group_of.push(None);
            },
            Some(h) => {
                let k = text_key_of(h.as_str());
                proof {
                    assert(hash_key(files@[i as int]) is Some);
                }
                let b = buckets.get(&k).unwrap();
                proof {
                    assert(bucket_sound(files@, b@, n as int, k));
                    assert forall|j: int| 0 <= j < n && hash_key(#[trigger] files@[j]) == Some(h@) implies b@.contains(j as usize) by {
                        assert(hash_key(files@[j]) is Some);
                    }
                }
                let (count, first) = scan_bucket(files, b, h.as_str());
                if count > 1 {
                    let likely = starts_with(h.as_str(), "likely:");
                    let c = if likely {
                        Confidence::LikelyDuplicate
                    } else {
                        Confidence::VerifiedDuplicate
                    };
                    confidences.push(c);
                    let fi = first.unwrap();
                    if fi == i {
                        match group_totals(files, b, h.as_str()) {
                            Some((total, primary)) => {
                                let g = groups.len();
                                proof {
                                    lemma_count_hash_le(files@, h@);
                                    assert forall|g2: int| 0 <= g2 < groups@.len() implies (#[trigger] groups@[g2]).content_hash@ != h@ by {
                                        if groups@[g2].content_hash@ == h@ {
                                            lemma_first_unique(files@, h@, groups@[g2].first_index as int, i as int);
                                        }
                                    }
                                }
                                groups.push(
                                    DuplicateGroup {
                                        content_hash: h.clone(),
                                        file_count: count as i64,
                                        total_size_bytes: total,
                                        primary_file_id: primary,
                                        first_index: i,
                                    },
                                );
                                group_of.push(Some(g));
                            },
                            None => {
                                return Err(owned("integer overflow"));
                            },
                        }
                    } else {
                        proof {
                            assert(fi < i);
                            assert(hash_key(files@[fi as int]) == Some(h@));
                        }
                        let gf = group_of[fi];
                        group_of.push(gf);
                    }
                } else {
                    confidences.push(Confidence::Unique);
                    group_of.push(None);
                }
            },
        }
        i += 1;
    }
    let a = DuplicateAnalysis { confidences, group_of, groups };
    proof {
        assert forall|g1: int, g2: int|
            0 <= g1 < a.groups@.len() && 0 <= g2 < a.groups@.len() && g1 != g2 implies (
            #[trigger] a.groups@[g1]).content_hash@ != (#[trigger] a.groups@[g2]).content_hash@ by {
            if a.groups@[g1].content_hash@ == a.groups@[g2].content_hash@ {
                lemma_first_unique(files@, a.groups@[g1].content_hash@, a.groups@[g1].first_index as int, a.groups@[g2].first_index as int);
                if g1 < g2 {
                    assert(a.groups@[g1].first_index < a.groups@[g2].first_index);
                } else {
                    assert(a.groups@[g2].first_index < a.groups@[g1].first_index);
                }
            }
        }
        assert forall|j: int| 0 <= j < n && ((#[trigger] hash_key(files@[j])) matches Some(h) && count_hash(files@, h) > 1) implies size_sum_fits(files@, hash_key(files@[j])->0) by {
            let g = a.group_of@[j]->0;
            assert(a.group_of@[j] is Some);
            assert(size_sum_fits(files@, a.groups@[g as int].content_hash@));
        }
    }
    Ok(a)
}

} // verus!

verus! {

/// Source types whose files are copies on this PC or phone.
pub open spec fn is_device_kind(t: Seq<char>) -> bool {
    t == "local"@ || t == "phone_import"@ || t == "android_mtp"@
}

/// Whether the Drive file at `d` may be moved to Trash because the file at `l`
/// holds the same content on this PC or phone: `d` is on Google Drive, is a
/// verified duplicate with a Drive id and a hash, and `l` is another file on a
/// PC or phone source with the same hash. `types[i]` is the source type of
/// file `i`.
pub open spec fn recoverable_pair(files: Seq<FileRecord>, types: Seq<String>, d: int, l: int) -> bool {
    &&& 0 <= d < files.len()
    &&& 0 <= l < files.len()
    &&& types[d]@ == "google_drive"@
    &&& is_device_kind(types[l]@)
    &&& files[d].confidence == Confidence::VerifiedDuplicate
    &&& files[d].drive_file_id is Some
    &&& files[d].content_hash is Some
    &&& files[l].content_hash matches Some(x) && x@ == files[d].content_hash->0@
    &&& files[d].id@ != files[l].id@
}

/// A Google Drive file that is safe to move to Trash, with the copy that makes it so.
#[derive(Debug, Clone)]
pub struct RecoveryCandidate {
    pub drive_file_id: String,
    pub filename: String,
    pub size_bytes: i64,
    pub content_hash: String,
    pub matched_local_file_id: String,
    pub verified_safe: bool,
    /// Position of the Drive file in the input.
    pub drive_index: usize,
    /// Position of the matching PC or phone file in the input.
    pub local_index: usize,
}

/// Whether a candidate records the pair `(d, l)` with the Drive file's details.
pub open spec fn candidate_of(files: Seq<FileRecord>, c: RecoveryCandidate, d: int, l: int) -> bool {
    &&& c.drive_index == d
    &&& c.local_index == l
    &&& c.drive_file_id@ == files[d].drive_file_id->0@
    &&& c.filename@ == files[d].filename@
    &&& c.size_bytes == files[d].size_bytes
    &&& c.content_hash@ == files[d].content_hash->0@
    &&& c.matched_local_file_id@ == files[l].id@
    &&& c.verified_safe
}

/// Whether pair `(d1, l1)` comes before pair `(d2, l2)`.
pub open spec fn pair_before(d1: int, l1: int, d2: int, l2: int) -> bool {
    d1 < d2 || (d1 == d2 && l1 < l2)
}

/// Whether `cands` lists every recoverable pair exactly once, in order.
pub open spec fn candidates_correct(files: Seq<FileRecord>, types: Seq<String>, cands: Seq<RecoveryCandidate>) -> bool {
    &&& forall|c: int|
        0 <= c < cands.len() ==> recoverable_pair(files, types, (#[trigger] cands[c]).drive_index as int, cands[c].local_index as int)
            && candidate_of(files, cands[c], cands[c].drive_index as int, cands[c].local_index as int)
    &&& forall|c1: int, c2: int|
        0 <= c1 < c2 < cands.len() ==> pair_before(
            (#[trigger] cands[c1]).drive_index as int,
            cands[c1].local_index as int,
            (#[trigger] cands[c2]).drive_index as int,
            cands[c2].local_index as int,
        )
    &&& forall|d: int, l: int|
        #[trigger] recoverable_pair(files, types, d, l) ==> exists|c: int|
            0 <= c < cands.len() && (#[trigger] cands[c]).drive_index == d && cands[c].local_index == l
}

fn is_device_kind_exec(t: &str) -> (r: bool)
    ensures
        r == is_device_kind(t@),
{
    str_eq(t, "local") || str_eq(t, "phone_import") || str_eq(t, "android_mtp")
}

/// Whether file `l` would complete a recoverable pair with the Drive file `d`,
/// given that `d` itself qualifies.
fn pairs_with(files: &Vec<FileRecord>, device: &Vec<bool>, d: usize, l: usize, h: &str) -> (r: bool)
    requires
        d < files@.len(),
        l < files@.len(),
        device@.len() == files@.len(),
        files@[d as int].content_hash matches Some(x) && x@ == h@,
    ensures
        r == (device@[l as int] && (files@[l as int].content_hash matches Some(x) && x@ == h@) && files@[d as int].id@ != files@[l as int].id@),
{
    if !device[l] {
        return false;
    }
    let same = match &files[l].content_hash {
        Some(x) => str_eq(x.as_str(), h),
        None => false,
    };
    same && !str_eq(files[d].id.as_str(), files[l].id.as_str())
}

/// The Google Drive files that a copy on this PC or phone makes safe to move to
/// Trash: one candidate for every Drive file and matching copy, in input order.
/// `source_types[i]` is the source type of `files[i]`.
#[verifier::rlimit(80)]
pub fn build_recovery_candidates(files: &Vec<FileRecord>, source_types: &Vec<String>) -> (r: Vec<RecoveryCandidate>)
    requires
        source_types@.len() == files@.len(),
    ensures
        candidates_correct(files@, source_types@, r@),
{
    let n = files.len();
    let buckets = build_buckets(files);
    let mut device: Vec<bool> = Vec::new();
    let mut i: usize = 0;
    while i < n
        invariant
            n == files@.len(),
            n == source_types@.len(),
            i <= n,
            device@.len() == i,
            forall|j: int| 0 <= j < i ==> device@[j] == is_device_kind(#[trigger] source_types@[j]@),
        decreases n - i,
    {
        device.push(is_device_kind_exec(source_types[i].as_str()));
        i += 1;
    }
    let mut out: Vec<RecoveryCandidate> = Vec::new();
    let mut d: usize = 0;
    while d < n
        invariant
            n == files@.len(),
            n == source_types@.len(),
            d <= n,
            device@.len() == n,
            forall|j: int| 0 <= j < n ==> device@[j] == is_device_kind(#[trigger] source_types@[j]@),
            buckets_index(files@, buckets@),
            forall|c: int|
                0 <= c < out@.len() ==> recoverable_pair(files@, source_types@, (#[trigger] out@[c]).drive_index as int, out@[c].local_index as int)
                    && candidate_of(files@, out@[c], out@[c].drive_index as int, out@[c].local_index as int)
                    && out@[c].drive_index < d,
            forall|c1: int, c2: int|
                0 <= c1 < c2 < out@.len() ==> pair_before(
                    (#[trigger] out@[c1]).drive_index as int,
                    out@[c1].local_index as int,
                    (#[trigger] out@[c2]).drive_index as int,
                    out@[c2].local_index as int,
                ),
            forall|d2: int, l: int|
                #[trigger] recoverable_pair(files@, source_types@, d2, l) && d2 < d ==> exists|c: int|
                    0 <= c < out@.len() && (#[trigger] out@[c]).drive_index == d2 && out@[c].local_index == l,
        decreases n - d,
    {
        let f = &files[d];
        let qualifies = str_eq(source_types[d].as_str(), "google_drive")
            && f.confidence == Confidence::VerifiedDuplicate && f.drive_file_id.is_some()
            && f.content_hash.is_some();
        if qualifies {
            let h: &String = f.content_hash.as_ref().unwrap();
            let drive_id: &String = f.drive_file_id.as_ref().unwrap();
            let ghost start = out@.len();
            // The files that may match: the hash's bucket, or every file for an empty hash.
            let from_bucket = !h.as_str().is_empty();
            let mut list: Vec<usize> = Vec::new();
            if from_bucket {
                let k = text_key_of(h.as_str());
                proof {
                    assert(hash_key(files@[d as int]) is Some);
                }
                let b = buckets.get(&k).unwrap();
                list = b.clone();
                proof {
                    assert(list@ == b@);
                }
            } else {
                let mut j: usize = 0;
                while j < n
                    invariant
                        j <= n,
                        list@.len() == j,
                        forall|p: int| 0 <= p < j ==> list@[p] == p,
                    decreases n - j,
                {
                    list.push(j);
                    j += 1;
                }
            }
            proof {
                assert forall|p: int, q: int| 0 <= p < q < list@.len() implies list@[p] < list@[q] by {
                    if from_bucket {
                        assert(bucket_sound(files@, list@, n as int, text_key(h@)));
                    }
                }
                assert forall|p: int| 0 <= p < list@.len() implies (#[trigger] list@[p]) < n by {
                    if from_bucket {
                        assert(bucket_sound(files@, list@, n as int, text_key(h@)));
                    }
                }
                assert forall|l: int| 0 <= l < n && ((#[trigger] files@[l]).content_hash matches Some(x) && x@ == h@) implies list@.contains(l as usize) by {
                    if from_bucket {
                        assert(hash_key(files@[l]) == Some(h@));
                        assert(hash_key(files@[l]) is Some);
                    } else {
                        assert(list@[l] == l as usize);
                    }
                }
            }
            let mut p: usize = 0;
            while p < list.len()
                invariant
                    n == files@.len(),
                    n == source_types@.len(),
                    d < n,
                    p <= list@.len(),
                    device@.len() == n,
                    forall|j: int| 0 <= j < n ==> device@[j] == is_device_kind(#[trigger] source_types@[j]@),
                    files@[d as int].content_hash matches Some(x) && x@ == h@,
                    files@[d as int].drive_file_id matches Some(x) && x@ == drive_id@,
                    source_types@[d as int]@ == "google_drive"@,
                    files@[d as int].confidence == Confidence::VerifiedDuplicate,
                    forall|q1: int, q2: int| 0 <= q1 < q2 < list@.len() ==> list@[q1] < list@[q2],
                    forall|q: int| 0 <= q < list@.len() ==> (#[trigger] list@[q]) < n,
                    start <= out@.len(),
                    forall|c: int|
                        0 <= c < out@.len() ==> recoverable_pair(files@, source_types@, (#[trigger] out@[c]).drive_index as int, out@[c].local_index as int)
                            && candidate_of(files@, out@[c], out@[c].drive_index as int, out@[c].local_index as int)
                            && out@[c].drive_index <= d,
                    forall|c: int| 0 <= c < start ==> (#[trigger] out@[c]).drive_index < d,
                    forall|c: int| start <= c < out@.len() ==> (#[trigger] out@[c]).drive_index == d && exists|q: int| 0 <= q < p && list@[q] == out@[c].local_index,
                    forall|c1: int, c2: int|
                        0 <= c1 < c2 < out@.len() ==> pair_before(
                            (#[trigger] out@[c1]).drive_index as int,
                            out@[c1].local_index as int,
                            (#[trigger] out@[c2]).drive_index as int,
                            out@[c2].local_index as int,
                        ),
                    forall|d2: int, l: int|
                        #[trigger] recoverable_pair(files@, source_types@, d2, l) && d2 < d ==> exists|c: int|
                            0 <= c < out@.len() && (#[trigger] out@[c]).drive_index == d2 && out@[c].local_index == l,
                    forall|q: int|
                        0 <= q < p && #[trigger] recoverable_pair(files@, source_types@, d as int, list@[q] as int) ==> exists|c: int|
                            0 <= c < out@.len() && (#[trigger] out@[c]).drive_index == d && out@[c].local_index == list@[q],
                decreases list.len() - p,
            {
                let l = list[p];
                let ghost old_out = out@;
                let ok = pairs_with(files, &device, d, l, h.as_str());
                if ok {
                    let cand = RecoveryCandidate {
                        drive_file_id: drive_id.clone(),
                        filename: files[d].filename.clone(),
                        size_bytes: files[d].size_bytes,
                        content_hash: h.clone(),
                        matched_local_file_id: files[l].id.clone(),
                        verified_safe: true,
                        drive_index: d,
                        local_index: l,
                    };
                    proof {
                        assert forall|c: int| 0 <= c < out@.len() implies pair_before((#[trigger] out@[c]).drive_index as int, out@[c].local_index as int, d as int, l as int) by {
                            if c >= start {
                                let q = choose|q: int| 0 <= q < p && list@[q] == out@[c].local_index;
                                assert(list@[q] < list@[p as int]);
                            }
                        }
                    }
                    out.push(cand);
                    proof {
                        let c_new = out@.len() - 1;
                        assert(out@[c_new].drive_index == d && out@[c_new].local_index == l);
                    }
                }
                proof {
                    assert forall|d2: int, l2: int|
                        #[trigger] recoverable_pair(files@, source_types@, d2, l2) && d2 < d implies exists|c: int|
                            0 <= c < out@.len() && (#[trigger] out@[c]).drive_index == d2 && out@[c].local_index == l2 by {
                        let c = choose|c: int| 0 <= c < old_out.len() && (#[trigger] old_out[c]).drive_index == d2 && old_out[c].local_index == l2;
                        assert(out@[c] == old_out[c]);
                    }
                    assert forall|q: int|
                        0 <= q < p + 1 && #[trigger] recoverable_pair(files@, source_types@, d as int, list@[q] as int) implies exists|c: int|
                            0 <= c < out@.len() && (#[trigger] out@[c]).drive_index == d && out@[c].local_index == list@[q] by {
                        if q < p {
                            let c = choose|c: int| 0 <= c < old_out.len() && (#[trigger] old_out[c]).drive_index == d && old_out[c].local_index == list@[q];
                            assert(out@[c] == old_out[c]);
                        } else {
                            assert(ok);
                            let c_new = out@.len() - 1;
                            assert(out@[c_new].drive_index == d && out@[c_new].local_index == l);
                        }
                    }
                }
                p += 1;
            }
            proof {
                assert forall|d2: int, l: int|
                    #[trigger] recoverable_pair(files@, source_types@, d2, l) && d2 < d + 1 implies exists|c: int|
                        0 <= c < out@.len() && (#[trigger] out@[c]).drive_index == d2 && out@[c].local_index == l by {
                    if d2 == d {
                        assert(list@.contains(l as usize));
                        let q = choose|q: int| 0 <= q < list@.len() && list@[q] == l as usize;
                        assert(recoverable_pair(files@, source_types@, d as int, list@[q] as int));
                    }
                }
            }
        } else {
            proof {
                assert forall|d2: int, l: int|
                    #[trigger] recoverable_pair(files@, source_types@, d2, l) && d2 < d + 1 implies exists|c: int|
                        0 <= c < out@.len() && (#[trigger] out@[c]).drive_index == d2 && out@[c].local_index == l by {
                    if d2 == d {
                        assert(false);
                    }
                }
            }
        }
        d += 1;
    }
    out
}

} // verus!

verus! {

/// The files with their confidences replaced by `confs`.
pub open spec fn with_confidences(files: Seq<FileRecord>, confs: Seq<Confidence>) -> Seq<FileRecord> {
    Seq::new(files.len(), |i: int| FileRecord { confidence: confs[i], ..files[i] })
}

/// Only verified duplicates are ever offered for Trash: every candidate is a
/// Google Drive file with a Drive id, and the file it names as its copy is a
/// different file on this PC or phone with the very same content hash.
pub proof fn law_candidates_have_device_copy(
    files: Seq<FileRecord>,
    types: Seq<String>,
    cands: Seq<RecoveryCandidate>,
    c: int,
)
    requires
        candidates_correct(files, types, cands),
        0 <= c < cands.len(),
    ensures
        ({
            let d = cands[c].drive_index as int;
            let l = cands[c].local_index as int;
            &&& types[d]@ == "google_drive"@
            &&& is_device_kind(types[l]@)
            &&& files[d].confidence == Confidence::VerifiedDuplicate
            &&& files[l].content_hash matches Some(x) && x@ == cands[c].content_hash@
            &&& files[d].content_hash matches Some(x) && x@ == cands[c].content_hash@
            &&& cands[c].matched_local_file_id@ == files[l].id@
            &&& files[l].id@ != files[d].id@
            &&& cands[c].verified_safe
        }),
{
    assert(recoverable_pair(files, types, cands[c].drive_index as int, cands[c].local_index as int));
}

/// The copy that makes a Drive file safe to move to Trash is always a file on
/// this PC, in the phone backup folder or on a phone over USB (source type
/// `local`, `phone_import` or `android_mtp`), never another Google Drive file.
pub proof fn law_candidate_copy_is_on_device(
    files: Seq<FileRecord>,
    types: Seq<String>,
    cands: Seq<RecoveryCandidate>,
    c: int,
)
    requires
        candidates_correct(files, types, cands),
        0 <= c < cands.len(),
    ensures
        ({
            let t = types[cands[c].local_index as int]@;
            t == "local"@ || t == "phone_import"@ || t == "android_mtp"@
        }),
        types[cands[c].local_index as int]@ != "google_drive"@,
        types[cands[c].drive_index as int]@ == "google_drive"@,
{
    lemma_source_type_names_parse();
    assert(recoverable_pair(files, types, cands[c].drive_index as int, cands[c].local_index as int));
}

/// A verified-duplicate Google Drive file with a Drive id and a hash is offered
/// for Trash, naming a given copy, whenever that copy is a different file with
/// the same hash on this PC, in the phone backup folder or on a phone over USB
/// (source type `local`, `phone_import` or `android_mtp`).
pub proof fn law_device_copy_makes_candidate(
    files: Seq<FileRecord>,
    types: Seq<String>,
    cands: Seq<RecoveryCandidate>,
    d: int,
    l: int,
)
    requires
        candidates_correct(files, types, cands),
        0 <= d < files.len(),
        0 <= l < files.len(),
        types[d]@ == "google_drive"@,
        types[l]@ == "local"@ || types[l]@ == "phone_import"@ || types[l]@ == "android_mtp"@,
        files[d].confidence == Confidence::VerifiedDuplicate,
        files[d].drive_file_id is Some,
        files[d].content_hash is Some,
        files[l].content_hash matches Some(x) && x@ == files[d].content_hash->0@,
        files[d].id@ != files[l].id@,
    ensures
        exists|c: int|
            0 <= c < cands.len() && (#[trigger] cands[c]).drive_index == d && cands[c].local_index == l
                && cands[c].matched_local_file_id@ == files[l].id@ && cands[c].verified_safe,
{
    assert(recoverable_pair(files, types, d, l));
    let c = choose|c: int| 0 <= c < cands.len() && (#[trigger] cands[c]).drive_index == d && cands[c].local_index == l;
    assert(candidate_of(files, cands[c], d, l));
}

/// With no file on this PC or a phone, nothing is offered for Trash, however
/// many Google Drive files share a hash.
pub proof fn law_no_device_copy_no_candidates(files: Seq<FileRecord>, types: Seq<String>, cands: Seq<RecoveryCandidate>)
    requires
        candidates_correct(files, types, cands),
        types.len() == files.len(),
        forall|i: int|
            0 <= i < files.len() ==> {
                let t = (#[trigger] types[i])@;
                t != "local"@ && t != "phone_import"@ && t != "android_mtp"@
            },
    ensures
        cands.len() == 0,
{
    if cands.len() > 0 {
        law_candidate_copy_is_on_device(files, types, cands, 0);
        assert(recoverable_pair(files, types, cands[0].drive_index as int, cands[0].local_index as int));
        let l = cands[0].local_index as int;
        assert(0 <= l < files.len());
        let t = types[l]@;
        assert(t != "local"@ && t != "phone_import"@ && t != "android_mtp"@);
    }
}

/// After duplicates are recomputed, a Trash candidate's content hash is shared by
/// at least two files and is an exact (`md5`) match, never a `likely:` one.
pub proof fn law_candidates_are_exact_matches(
    files: Seq<FileRecord>,
    a: DuplicateAnalysis,
    types: Seq<String>,
    cands: Seq<RecoveryCandidate>,
    c: int,
)
    requires
        analysis_correct(files, a),
        candidates_correct(with_confidences(files, a.confidences@), types, cands),
        0 <= c < cands.len(),
    ensures
        count_hash(files, cands[c].content_hash@) > 1,
        !has_prefix(cands[c].content_hash@, "likely:"@),
{
    let updated = with_confidences(files, a.confidences@);
    let d = cands[c].drive_index as int;
    assert(recoverable_pair(updated, types, d, cands[c].local_index as int));
    assert(updated[d].confidence == a.confidences@[d]);
    assert(a.confidences@[d] == expected_confidence(files, d));
    assert(updated[d].content_hash == files[d].content_hash);
}

/// Files with the same content hash are treated alike: whenever that hash is
/// shared, they land in the same group, that group carries the hash, and they
/// get the same confidence; a file whose hash no other file has is unique and
/// in no group.
pub proof fn law_same_hash_same_group(files: Seq<FileRecord>, a: DuplicateAnalysis, i: int, j: int)
    requires
        analysis_correct(files, a),
        0 <= i < files.len(),
        0 <= j < files.len(),
        hash_key(files[i]) is Some,
        hash_key(files[i]) == hash_key(files[j]),
    ensures
        a.confidences@[i] == a.confidences@[j],
        count_hash(files, hash_key(files[i])->0) > 1 ==> {
            &&& a.group_of@[i] is Some
            &&& a.group_of@[i] == a.group_of@[j]
            &&& a.groups@[a.group_of@[i]->0 as int].content_hash@ == hash_key(files[i])->0
        },
        count_hash(files, hash_key(files[i])->0) <= 1 ==> {
            &&& a.group_of@[i] is None
            &&& a.confidences@[i] == Confidence::Unique
        },
{
    let h = hash_key(files[i])->0;
    assert(a.confidences@[i] == expected_confidence(files, i));
    assert(a.confidences@[j] == expected_confidence(files, j));
    let gi = a.group_of@[i];
    let gj = a.group_of@[j];
    if count_hash(files, h) > 1 {
        let x = gi->0 as int;
        let y = gj->0 as int;
        if x != y {
            assert(a.groups@[x].content_hash@ != a.groups@[y].content_hash@);
        }
    }
}

proof fn lemma_char_u32_injective(x: char, y: char)
    requires
        (x as u32) == (y as u32),
    ensures
        x == y,
{
}

/// Text order is antisymmetric: two texts each at most the other are equal.
pub proof fn lemma_text_le_antisym(a: Seq<char>, b: Seq<char>)
    requires
        text_le(a, b),
        text_le(b, a),
    ensures
        a == b,
    decreases a.len(),
{
    if a.len() > 0 && b.len() > 0 {
        assert((a[0] as u32) == (b[0] as u32));
        lemma_text_le_antisym(a.drop_first(), b.drop_first());
        lemma_char_u32_injective(a[0], b[0]);
        assert(a =~= seq![a[0]] + a.drop_first());
        assert(b =~= seq![b[0]] + b.drop_first());
    } else {
        assert(a =~= b);
    }
}

/// Two file lists that agree on every file's hash and size count and add up
/// the same for every hash.
proof fn lemma_same_keys_same_totals(f1: Seq<FileRecord>, f2: Seq<FileRecord>, h: Seq<char>)
    requires
        f1.len() == f2.len(),
        forall|i: int| 0 <= i < f1.len() ==> hash_key(#[trigger] f1[i]) == hash_key(f2[i]) && f1[i].size_bytes
            == f2[i].size_bytes,
    ensures
        count_hash(f1, h) == count_hash(f2, h),
        size_sum(f1, h) == size_sum(f2, h),
    decreases f1.len(),
{
    if f1.len() > 0 {
        assert forall|i: int| 0 <= i < f1.drop_last().len() implies hash_key(#[trigger] f1.drop_last()[i]) == hash_key(
            f2.drop_last()[i],
        ) && f1.drop_last()[i].size_bytes == f2.drop_last()[i].size_bytes by {
            assert(f1.drop_last()[i] == f1[i]);
            assert(f2.drop_last()[i] == f2[i]);
        }
        lemma_same_keys_same_totals(f1.drop_last(), f2.drop_last(), h);
        assert(f1.last() == f1[f1.len() - 1]);
        assert(f2.last() == f2[f2.len() - 1]);
    }
}

/// Whether an analysis has a group with these figures.
pub open spec fn has_group(a: DuplicateAnalysis, h: Seq<char>, count: i64, size: i64, primary: Seq<char>) -> bool {
    exists|g: int|
        0 <= g < a.groups@.len() && (#[trigger] a.groups@[g]).content_hash@ == h && a.groups@[g].file_count == count
            && a.groups@[g].total_size_bytes == size && a.groups@[g].primary_file_id@ == primary
}

/// For a group of one analysis, the other analysis of files with the same hashes,
/// sizes and ids has a group with the same figures.
proof fn lemma_group_carries_over(f1: Seq<FileRecord>, a: DuplicateAnalysis, f2: Seq<FileRecord>, b: DuplicateAnalysis, g: int)
    requires
        analysis_correct(f1, a),
        analysis_correct(f2, b),
        f1.len() == f2.len(),
        forall|i: int| 0 <= i < f1.len() ==> hash_key(#[trigger] f1[i]) == hash_key(f2[i]) && f1[i].size_bytes
            == f2[i].size_bytes && f1[i].id == f2[i].id,
        0 <= g < a.groups@.len(),
    ensures
        has_group(
            b,
            a.groups@[g].content_hash@,
            a.groups@[g].file_count,
            a.groups@[g].total_size_bytes,
            a.groups@[g].primary_file_id@,
        ),
{
    let grp = a.groups@[g];
    let h = grp.content_hash@;
    assert(group_describes(f1, grp));
    lemma_same_keys_same_totals(f1, f2, h);
    let j = grp.first_index as int;
    assert(hash_key(f1[j]) == Some(h));
    assert(hash_key(f2[j]) == Some(h));
    let g2 = b.group_of@[j]->0 as int;
    assert(b.group_of@[j] is Some);
    let grp2 = b.groups@[g2];
    assert(grp2.content_hash@ == h);
    assert(group_describes(f2, grp2));
    let p1 = grp.primary_file_id@;
    let p2 = grp2.primary_file_id@;
    assert(is_min_id(f1, h, p1));
    assert(is_min_id(f2, h, p2));
    let j1 = choose|j1: int| 0 <= j1 < f1.len() && hash_key(#[trigger] f1[j1]) == Some(h) && f1[j1].id@ == p1;
    let j2 = choose|j2: int| 0 <= j2 < f2.len() && hash_key(#[trigger] f2[j2]) == Some(h) && f2[j2].id@ == p2;
    assert(hash_key(f2[j1]) == Some(h));
    assert(text_le(p2, f2[j1].id@));
    assert(hash_key(f1[j2]) == Some(h));
    assert(text_le(p1, f1[j2].id@));
    lemma_text_le_antisym(p1, p2);
    assert(has_group(b, h, grp.file_count, grp.total_size_bytes, p1)) by {
        assert(b.groups@[g2] == grp2);
    }
}

/// Two file lists that agree on every file's hash and size have the same
/// running totals within `i64` for every hash.
proof fn lemma_same_keys_same_fits(f1: Seq<FileRecord>, f2: Seq<FileRecord>, h: Seq<char>)
    requires
        f1.len() == f2.len(),
        forall|i: int| 0 <= i < f1.len() ==> hash_key(#[trigger] f1[i]) == hash_key(f2[i]) && f1[i].size_bytes
            == f2[i].size_bytes,
    ensures
        size_sum_fits(f1, h) == size_sum_fits(f2, h),
    decreases f1.len(),
{
    if f1.len() > 0 {
        assert forall|i: int| 0 <= i < f1.drop_last().len() implies hash_key(#[trigger] f1.drop_last()[i]) == hash_key(
            f2.drop_last()[i],
        ) && f1.drop_last()[i].size_bytes == f2.drop_last()[i].size_bytes by {
            assert(f1.drop_last()[i] == f1[i]);
            assert(f2.drop_last()[i] == f2[i]);
        }
        lemma_same_keys_same_fits(f1.drop_last(), f2.drop_last(), h);
        lemma_same_keys_same_totals(f1, f2, h);
        assert(f1.last() == f1[f1.len() - 1]);
        assert(f2.last() == f2[f2.len() - 1]);
    }
}

/// A second run of duplicate detection, on files whose confidences are the
/// first run's, succeeds whenever the first did: whether a group's sizes
/// overflow depends on hashes and sizes only, which writing back leaves alone
/// (and `recompute_duplicates` returns `Ok` exactly when no group overflows).
pub proof fn law_recompute_again_succeeds(files: Seq<FileRecord>, a: DuplicateAnalysis)
    requires
        analysis_correct(files, a),
    ensures
        with_confidences(files, a.confidences@).len() == files.len(),
        some_group_overflows(with_confidences(files, a.confidences@)) == some_group_overflows(files),
{
    let w = with_confidences(files, a.confidences@);
    assert forall|i: int| 0 <= i < files.len() implies hash_key(#[trigger] files[i]) == hash_key(w[i])
        && files[i].size_bytes == w[i].size_bytes by {
        assert(w[i] == FileRecord { confidence: a.confidences@[i], ..files[i] });
    }
    if some_group_overflows(files) {
        let i = choose|i: int|
            0 <= i < files.len() && ((#[trigger] hash_key(files[i])) matches Some(h) && count_hash(files, h) > 1
                && !size_sum_fits(files, h));
        let h = hash_key(files[i])->0;
        lemma_same_keys_same_totals(files, w, h);
        lemma_same_keys_same_fits(files, w, h);
        assert(hash_key(w[i]) == Some(h));
    }
    if some_group_overflows(w) {
        let i = choose|i: int|
            0 <= i < w.len() && ((#[trigger] hash_key(w[i])) matches Some(h) && count_hash(w, h) > 1
                && !size_sum_fits(w, h));
        let h = hash_key(w[i])->0;
        lemma_same_keys_same_totals(files, w, h);
        lemma_same_keys_same_fits(files, w, h);
        assert(hash_key(files[i]) == Some(h));
    }
}

/// Running duplicate detection again on its own result changes nothing: once
/// each file's confidence is written back, a second analysis gives every file
/// the same confidence and has the same groups (hash, file count, total size
/// and primary file) as the first; only the groups' ids may differ.
pub proof fn law_recompute_is_stable(files: Seq<FileRecord>, a: DuplicateAnalysis, b: DuplicateAnalysis)
    requires
        analysis_correct(files, a),
        analysis_correct(with_confidences(files, a.confidences@), b),
    ensures
        b.confidences@ == a.confidences@,
        forall|g: int|
            0 <= g < a.groups@.len() ==> has_group(
                b,
                (#[trigger] a.groups@[g]).content_hash@,
                a.groups@[g].file_count,
                a.groups@[g].total_size_bytes,
                a.groups@[g].primary_file_id@,
            ),
        forall|g: int|
            0 <= g < b.groups@.len() ==> has_group(
                a,
                (#[trigger] b.groups@[g]).content_hash@,
                b.groups@[g].file_count,
                b.groups@[g].total_size_bytes,
                b.groups@[g].primary_file_id@,
            ),
{
    let w = with_confidences(files, a.confidences@);
    assert forall|i: int| 0 <= i < files.len() implies hash_key(#[trigger] files[i]) == hash_key(w[i])
        && files[i].size_bytes == w[i].size_bytes && files[i].id == w[i].id by {
        assert(w[i] == FileRecord { confidence: a.confidences@[i], ..files[i] });
    }
    assert forall|i: int| 0 <= i < w.len() implies hash_key(#[trigger] w[i]) == hash_key(files[i])
        && w[i].size_bytes == files[i].size_bytes && w[i].id == files[i].id by {
        assert(w[i] == FileRecord { confidence: a.confidences@[i], ..files[i] });
    }
    assert forall|i: int| 0 <= i < files.len() implies #[trigger] b.confidences@[i] == a.confidences@[i] by {
        assert(w[i] == FileRecord { confidence: a.confidences@[i], ..files[i] });
        assert(b.confidences@[i] == expected_confidence(w, i));
        assert(a.confidences@[i] == expected_confidence(files, i));
        match hash_key(files[i]) {
            Some(h) => {
                lemma_same_keys_same_totals(files, w, h);
            },
            None => {},
        }
    }
    assert(b.confidences@ =~= a.confidences@);
    assert forall|g: int| 0 <= g < a.groups@.len() implies has_group(
        b,
        (#[trigger] a.groups@[g]).content_hash@,
        a.groups@[g].file_count,
        a.groups@[g].total_size_bytes,
        a.groups@[g].primary_file_id@,
    ) by {
        lemma_group_carries_over(files, a, w, b, g);
    }
    assert forall|g: int| 0 <= g < b.groups@.len() implies has_group(
        a,
        (#[trigger] b.groups@[g]).content_hash@,
        b.groups@[g].file_count,
        b.groups@[g].total_size_bytes,
        b.groups@[g].primary_file_id@,
    ) by {
        lemma_group_carries_over(w, b, files, a, g);
    }
}

} // verus!

verus! {

/// How many files a local scan hashes between checkpoints.
pub const HASH_BATCH: usize = 64;

/// Whether files of this source type are listed from the cloud (no local bytes).
pub open spec fn is_cloud_type(t: SourceType) -> bool {
    t == SourceType::GoogleDrive || t == SourceType::GooglePhotos || t == SourceType::GmailAttachments
}

pub fn is_cloud_source(t: SourceType) -> (r: bool)
    ensures
        r == is_cloud_type(t),
{
    match t {
        SourceType::GoogleDrive | SourceType::GooglePhotos | SourceType::GmailAttachments => true,
        _ => false,
    }
}

/// How a scanned file's content hash is obtained.
#[derive(Debug)]
pub enum ContentHashPlan {
    /// The hash is known without reading the file: the content hash and the
    /// MD5 column, or no hash at all.
    Ready(Option<(String, Option<String>)>),
    /// The file must be read and fingerprinted.
    HashLocalFile,
}

/// Decides how to obtain a file's content hash: a hash the scanner already set
/// wins; a cloud file uses its MD5 checksum, or has no hash without one; a
/// local file must be read.
pub fn resolve_content_hash(item: &ScannedItem, is_cloud: bool) -> (r: ContentHashPlan)
    ensures
        item.content_hash matches Some(h) ==> match r {
            ContentHashPlan::Ready(Some((c, m))) => c@ == h@ && opt_string_view(m) == opt_string_view(item.md5_checksum),
            _ => false,
        },
        item.content_hash is None && is_cloud ==> match item.md5_checksum {
            Some(m) => match r {
                ContentHashPlan::Ready(Some((c, Some(nn)))) => c@ == md5_identity(normalized_md5(m@)) && nn@ == normalized_md5(m@),
                _ => false,
            },
            None => r matches ContentHashPlan::Ready(None),
        },
        item.content_hash is None && !is_cloud ==> r matches ContentHashPlan::HashLocalFile,
{
    if let Some(preset) = &item.content_hash {
        let m = match &item.md5_checksum {
            Some(x) => Some(x.clone()),
            None => None,
        };
        return ContentHashPlan::Ready(Some((preset.clone(), m)));
    }
    if is_cloud {
        if let Some(md5) = &item.md5_checksum {
            let normalized = normalize_md5(md5.as_str());
            let identity = content_identity_from_md5(normalized.as_str());
            return ContentHashPlan::Ready(Some((identity, Some(normalized))));
        }
        return ContentHashPlan::Ready(None);
    }
    ContentHashPlan::HashLocalFile
}

/// The content hash and MD5 column of a file that was read: its identity and its MD5 hex.
pub fn hash_pair_from_fingerprint(fp: &FileFingerprint) -> (r: (String, Option<String>))
    ensures
        r.0@ == fp.content_hash@,
        match r.1 {
            Some(m) => m@ == fp.md5_hex@,
            None => false,
        },
{
    (fp.content_hash.clone(), Some(fp.md5_hex.clone()))
}

/// The view of an optional string.
pub open spec fn opt_string_view(v: Option<String>) -> Option<Seq<char>> {
    match v {
        Some(s) => Some(s@),
        None => None,
    }
}

/// The batches of a scan that resumes at `start`: `[b, min(b + 64, len))` for
/// `b = start, start + 64, …` below `len`.
pub open spec fn batch_at(start: int, len: int, k: int) -> (int, int) {
    let b = start + k * 64;
    (b, if b + 64 < len { b + 64 } else { len })
}

pub fn scan_batches(start: usize, len: usize) -> (r: Vec<(usize, usize)>)
    ensures
        start >= len ==> r@.len() == 0,
        start < len ==> r@.len() == (len - start + 63) / 64,
        forall|k: int| 0 <= k < r@.len() ==> (#[trigger] r@[k]).0 == batch_at(start as int, len as int, k).0 && r@[k].1 == batch_at(start as int, len as int, k).1,
{
    let mut r: Vec<(usize, usize)> = Vec::new();
    if start >= len {
        return r;
    }
    let mut b = start;
    while b < len
        invariant
            start < len,
            start <= b <= len,
            b < len ==> b == start + 64 * r@.len(),
            b == len ==> r@.len() > 0 && start + 64 * (r@.len() - 1) < len <= start + 64 * r@.len(),
            forall|k: int| 0 <= k < r@.len() ==> (#[trigger] r@[k]).0 == batch_at(start as int, len as int, k).0 && r@[k].1 == batch_at(start as int, len as int, k).1,
        decreases len - b,
    {
        let end = if len - b > 64 { b + 64 } else { len };
        r.push((b, end));
        if len - b > 64 {
            b = b + 64;
        } else {
            b = len;
        }
    }
    let k = r.len();
    assert((len - start + 63) / 64 == k as int) by (nonlinear_arith)
        requires
            k > 0,
            start + 64 * (k - 1) < len,
            len <= start + 64 * k;
    r
}

} // verus!

verus! {

/// The progress record of a running scan after `processed` files.
pub fn running_progress(job_id: &str, source_id: &str, processed: i64, current_file: &str) -> (r: ScanProgress)
    ensures
        r.job_id@ == job_id@,
        r.source_id@ == source_id@,
        r.status@ == "running"@,
        r.total_files == 0,
        r.processed_files == processed,
        r.hashed_files == processed,
        r.current_file matches Some(f) && f@ == current_file@,
        r.error_message is None,
{
    ScanProgress {
        job_id: owned(job_id),
        source_id: owned(source_id),
        status: owned("running"),
        total_files: 0,
        processed_files: processed,
        hashed_files: processed,
        current_file: Some(owned(current_file)),
        error_message: None,
    }
}

/// Which scanner a source needs.
#[derive(Debug)]
pub enum ScannerPlan {
    Local(String),
    PhoneImport(String),
    GoogleDrive(String),
    GooglePhotos(String),
    Gmail(String),
    /// Device name and storage path of a phone.
    AndroidMtp(String, String),
}

/// Picks the scanner for a source from its settings (`path`, `device_name`,
/// `storage_path`) and, for Google sources, the access token.
pub fn scanner_plan(
    source_type: SourceType,
    path: Option<String>,
    device_name: Option<String>,
    storage_path: Option<String>,
    access_token: Option<String>,
) -> (r: Result<ScannerPlan, String>)
    ensures
        source_type == SourceType::Local ==> match path {
            Some(p) => r matches Ok(ScannerPlan::Local(x)) && x == p,
            None => r matches Err(e) && e@ == "missing local path"@,
        },
        source_type == SourceType::PhoneImport ==> match path {
            Some(p) => r matches Ok(ScannerPlan::PhoneImport(x)) && x == p,
            None => r matches Err(e) && e@ == "missing import path"@,
        },
        is_cloud_type(source_type) ==> match access_token {
            Some(t) => match r {
                Ok(ScannerPlan::GoogleDrive(x)) => source_type == SourceType::GoogleDrive && x == t,
                Ok(ScannerPlan::GooglePhotos(x)) => source_type == SourceType::GooglePhotos && x == t,
                Ok(ScannerPlan::Gmail(x)) => source_type == SourceType::GmailAttachments && x == t,
                _ => false,
            },
            None => r matches Err(e) && e@ == "Google account not connected"@,
        },
        source_type == SourceType::AndroidMtp ==> match storage_path {
            Some(s) => r matches Ok(ScannerPlan::AndroidMtp(n, x)) && x == s && match device_name {
                Some(d) => n == d,
                None => n@ == "Android Device"@,
            },
            None => r matches Err(e) && e@ == "missing phone storage path — reconnect your phone"@,
        },
{
    match source_type {
        SourceType::Local => match path {
            Some(p) => Ok(ScannerPlan::Local(p)),
            None => Err(owned("missing local path")),
        },
        SourceType::PhoneImport => match path {
            Some(p) => Ok(ScannerPlan::PhoneImport(p)),
            None => Err(owned("missing import path")),
        },
        SourceType::GoogleDrive => match access_token {
            Some(t) => Ok(ScannerPlan::GoogleDrive(t)),
            None => Err(owned("Google account not connected")),
        },
        SourceType::GooglePhotos => match access_token {
            Some(t) => Ok(ScannerPlan::GooglePhotos(t)),
            None => Err(owned("Google account not connected")),
        },
        SourceType::GmailAttachments => match access_token {
            Some(t) => Ok(ScannerPlan::Gmail(t)),
            None => Err(owned("Google account not connected")),
        },
        SourceType::AndroidMtp => {
            let name = match device_name {
                Some(d) => d,
                None => owned("Android Device"),
            };
            match storage_path {
                Some(s) => Ok(ScannerPlan::AndroidMtp(name, s)),
                None => Err(owned("missing phone storage path — reconnect your phone")),
            }
        },
    }
}

/// Where a resumed scan starts: the saved checkpoint, else the beginning (a
/// negative checkpoint wraps, as a cast to `usize` does).
pub fn scan_start_index(checkpoint: Option<i64>) -> (r: usize)
    ensures
        r == (match checkpoint { Some(c) => c, None => 0 }) as usize,
{
    match checkpoint {
        Some(c) => c as usize,
        None => 0,
    }
}

/// A saved checkpoint read back (`None` when it is not a number).
pub fn parse_checkpoint(stored: &Option<String>) -> (r: Option<i64>)
    ensures
        r == match stored {
            Some(s) => crate::text::parse_i64_spec(s@),
            None => None,
        },
{
    match stored {
        Some(s) => crate::text::parse_i64(s.as_str()),
        None => None,
    }
}

/// A scan under way, once its files are listed: the source type, the batches
/// still to hash, and how many of them are behind it.
#[derive(Debug)]
pub struct ScanRun {
    pub source_type: SourceType,
    pub batches: Vec<(usize, usize)>,
    pub next: usize,
}

/// What a scan does next.
#[derive(Debug, PartialEq, Eq, Structural)]
pub enum ScanAction {
    /// A cancel was requested: save this position as the checkpoint and mark
    /// the job cancelled.
    Cancel(usize),
    /// Hash the files at positions `[start, end)`, record them, save `end` as
    /// the checkpoint, then ask `scan_next` again.
    Batch(usize, usize),
    /// Every batch is done: recompute duplicates, rebuild the recovery
    /// candidates when this holds (a Google Drive scan), then record the
    /// source's totals and complete the job.
    Finish(bool),
}

/// Whether a scan run is positioned within its batches.
pub open spec fn scan_run_ok(run: ScanRun) -> bool {
    run.next <= run.batches@.len()
}

/// Starts the hashing part of a scan of `item_count` listed files, resuming at
/// the saved checkpoint.
pub fn scan_begin(source_type: SourceType, item_count: usize, checkpoint: Option<i64>) -> (r: ScanRun)
    ensures
        r.source_type == source_type,
        r.next == 0,
        ({
            let start = (match checkpoint { Some(c) => c, None => 0 }) as usize;
            &&& start >= item_count ==> r.batches@.len() == 0
            &&& start < item_count ==> r.batches@.len() == (item_count - start + 63) / 64
            &&& forall|k: int| 0 <= k < r.batches@.len() ==> (#[trigger] r.batches@[k]).0 == batch_at(start as int, item_count as int, k).0
                && r.batches@[k].1 == batch_at(start as int, item_count as int, k).1
        }),
{
    let start = scan_start_index(checkpoint);
    let batches = scan_batches(start, item_count);
    ScanRun { source_type, batches, next: 0 }
}

/// The step at the top of each batch: a cancel request stops the scan where
/// it is; otherwise the next batch is hashed; after the last batch the scan
/// finishes.
pub fn scan_next(run: &mut ScanRun, cancelled: bool) -> (r: ScanAction)
    requires
        scan_run_ok(*old(run)),
    ensures
        scan_run_ok(*final(run)),
        final(run).source_type == old(run).source_type,
        final(run).batches == old(run).batches,
        old(run).next == old(run).batches@.len() ==> {
            &&& r == ScanAction::Finish(old(run).source_type == SourceType::GoogleDrive)
            &&& final(run).next == old(run).next
        },
        old(run).next < old(run).batches@.len() && cancelled ==> {
            &&& r == ScanAction::Cancel(old(run).batches@[old(run).next as int].0)
            &&& final(run).next == old(run).next
        },
        old(run).next < old(run).batches@.len() && !cancelled ==> {
            &&& r == ScanAction::Batch(old(run).batches@[old(run).next as int].0, old(run).batches@[old(run).next as int].1)
            &&& final(run).next == old(run).next + 1
        },
{
    if run.next == run.batches.len() {
        let drive = match run.source_type {
            SourceType::GoogleDrive => true,
            _ => false,
        };
        return ScanAction::Finish(drive);
    }
    let (start, end) = run.batches[run.next];
    if cancelled {
        return ScanAction::Cancel(start);
    }
    run.next = run.next + 1;
    ScanAction::Batch(start, end)
}

/// Batches cover the listed files from the resume point on, one after the
/// other and without gaps: each batch ends where the next one starts, holds
/// at most `HASH_BATCH` files, and the last one ends at the last file.
pub proof fn law_batches_tile_the_listing(start: int, len: int, count: int)
    requires
        0 <= start < len,
        count == (len - start + 63) / 64,
    ensures
        count > 0,
        batch_at(start, len, 0).0 == start,
        batch_at(start, len, count - 1).1 == len,
        forall|k: int| 0 <= k < count ==> {
            &&& #[trigger] batch_at(start, len, k).0 < batch_at(start, len, k).1
            &&& batch_at(start, len, k).1 - batch_at(start, len, k).0 <= 64
        },
        forall|k: int| 0 <= k < count - 1 ==> #[trigger] batch_at(start, len, k).1 == batch_at(start, len, k + 1).0,
{
    assert(count > 0) by (nonlinear_arith)
        requires
            0 <= start < len,
            count == (len - start + 63) / 64;
    assert(start + 64 * (count - 1) < len && len <= start + 64 * count) by (nonlinear_arith)
        requires
            0 <= start < len,
            count == (len - start + 63) / 64;
    assert forall|k: int| 0 <= k < count implies {
        &&& #[trigger] batch_at(start, len, k).0 < batch_at(start, len, k).1
        &&& batch_at(start, len, k).1 - batch_at(start, len, k).0 <= 64
    } by {
        assert(start + k * 64 <= start + 64 * (count - 1)) by (nonlinear_arith)
            requires
                0 <= k < count;
    }
    assert forall|k: int| 0 <= k < count - 1 implies #[trigger] batch_at(start, len, k).1 == batch_at(start, len, k + 1).0 by {
        assert(start + k * 64 + 64 <= start + 64 * (count - 1)) by (nonlinear_arith)
            requires
                0 <= k < count - 1;
        assert((k + 1) * 64 == k * 64 + 64) by (nonlinear_arith);
    }
    assert((count - 1) * 64 == 64 * (count - 1)) by (nonlinear_arith);
}

/// What the database remembers of a file from an earlier scan of the same
/// source and path.
#[derive(Debug, Clone)]
pub struct StoredHash {
    pub content_hash: Option<String>,
    pub md5_checksum: Option<String>,
    pub size_bytes: i64,
    pub modified_at: Option<String>,
}

/// Whether an earlier scan's hash still describes a listed file: it has a hash,
/// the size is the same, and so is the modification time when the listing
/// gives one.
pub open spec fn cache_hit(stored: StoredHash, item: ScannedItem) -> bool {
    &&& stored.content_hash is Some
    &&& stored.size_bytes == item.size_bytes as i64
    &&& (item.modified_at is None || opt_string_view(stored.modified_at) == opt_string_view(item.modified_at))
}

/// The hash (and MD5 column) to reuse for a listed file instead of reading it
/// again, when the stored record still describes it.
pub fn cached_hash(stored: &Option<StoredHash>, item: &ScannedItem) -> (r: Option<(String, Option<String>)>)
    ensures
        match stored {
            Some(s) => if cache_hit(*s, *item) {
                r matches Some((h, m)) && s.content_hash matches Some(sh) && h@ == sh@
                    && opt_string_view(m) == opt_string_view(s.md5_checksum)
            } else {
                r is None
            },
            None => r is None,
        },
{
    let s = match stored {
        Some(s) => s,
        None => return None,
    };
    let h = match &s.content_hash {
        Some(h) => h,
        None => return None,
    };
    if s.size_bytes != item.size_bytes as i64 {
        return None;
    }
    let same_time = match (&item.modified_at, &s.modified_at) {
        (None, _) => true,
        (Some(t), Some(u)) => str_eq(t.as_str(), u.as_str()),
        (Some(_), None) => false,
    };
    if !same_time {
        return None;
    }
    Some((h.clone(), s.md5_checksum.clone()))
}

} // verus!
