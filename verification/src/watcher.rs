//! Noticing phones that are plugged in.

use vstd::prelude::*;
use crate::scanner::mtp::MtpDevice;
use crate::text::{before_first, chars_of, concat2, concat3, owned, str_eq, string_from_range};

verus! {

#[derive(Debug, Clone)]
pub struct WatcherStatus {
    pub active: bool,
    pub phase: &'static str,
    pub connected_devices: Vec<String>,
    pub immich_integration: &'static str,
}

/// How a connected phone is listed: "name (storage)".
pub open spec fn device_label(d: MtpDevice) -> Seq<char> {
    d.name@ + " ("@ + d.storage_name@ + ")"@
}

/// The watcher's status for the phones that device detection reports.
pub fn get_status(devices: &Vec<MtpDevice>) -> (r: WatcherStatus)
    ensures
        r.active,
        r.phase@ == "USB polling every 30s — tray notification on new device"@,
        r.immich_integration@ == "planned for v2"@,
        r.connected_devices@.len() == devices@.len(),
        forall|k: int| 0 <= k < devices@.len() ==> (#[trigger] r.connected_devices@[k])@ == device_label(devices@[k]),
{
    let mut list: Vec<String> = Vec::new();
    let mut i: usize = 0;
    while i < devices.len()
        invariant
            i <= devices@.len(),
            list@.len() == i,
            forall|k: int| 0 <= k < i ==> (#[trigger] list@[k])@ == device_label(devices@[k]),
        decreases devices.len() - i,
    {
        let d = &devices[i];
        let mut s = concat3(d.name.as_str(), " (", d.storage_name.as_str());
        s.append(")");
        list.push(s);
        i += 1;
    }
    WatcherStatus {
        active: true,
        phase: "USB polling every 30s — tray notification on new device",
        connected_devices: list,
        immich_integration: "planned for v2",
    }
}

/// The key under which a phone storage is remembered: "name|storage path".
pub open spec fn device_key_spec(d: MtpDevice) -> Seq<char> {
    d.name@ + "|"@ + d.storage_path@
}

/// The keys of the detected phones, in detection order.
pub fn device_keys(devices: &Vec<MtpDevice>) -> (r: Vec<String>)
    ensures
        r@.len() == devices@.len(),
        forall|k: int| 0 <= k < devices@.len() ==> (#[trigger] r@[k])@ == device_key_spec(devices@[k]),
{
    let mut r: Vec<String> = Vec::new();
    let mut i: usize = 0;
    while i < devices.len()
        invariant
            i <= devices@.len(),
            r@.len() == i,
            forall|k: int| 0 <= k < i ==> (#[trigger] r@[k])@ == device_key_spec(devices@[k]),
        decreases devices.len() - i,
    {
        r.push(concat3(devices[i].name.as_str(), "|", devices[i].storage_path.as_str()));
        i += 1;
    }
    r
}

/// Whether a key list holds `key`.
pub open spec fn has_key(keys: Seq<String>, key: Seq<char>) -> bool {
    exists|k: int| 0 <= k < keys.len() && (#[trigger] keys[k])@ == key
}

fn contains_key(keys: &Vec<String>, key: &str) -> (r: bool)
    ensures
        r == has_key(keys@, key@),
{
    let mut i: usize = 0;
    while i < keys.len()
        invariant
            i <= keys@.len(),
            forall|k: int| 0 <= k < i ==> (#[trigger] keys@[k])@ != key@,
        decreases keys.len() - i,
    {
        if str_eq(keys[i].as_str(), key) {
            return true;
        }
        i += 1;
    }
    false
}

/// The keys seen now that were not seen at the previous poll, each once, in
/// the order they first appear now.
pub open spec fn new_keys_spec(previous: Seq<String>, current: Seq<String>) -> Seq<Seq<char>>
    decreases current.len(),
{
    if current.len() == 0 {
        Seq::empty()
    } else if has_key(previous, current.last()@) || has_key(current.drop_last(), current.last()@) {
        new_keys_spec(previous, current.drop_last())
    } else {
        new_keys_spec(previous, current.drop_last()).push(current.last()@)
    }
}

fn contains_key_before(keys: &Vec<String>, n: usize, key: &str) -> (r: bool)
    requires
        n <= keys@.len(),
    ensures
        r == has_key(keys@.take(n as int), key@),
{
    let mut i: usize = 0;
    while i < n
        invariant
            n <= keys@.len(),
            i <= n,
            forall|k: int| 0 <= k < i ==> (#[trigger] keys@[k])@ != key@,
        decreases n - i,
    {
        if str_eq(keys[i].as_str(), key) {
            assert(keys@.take(n as int)[i as int] == keys@[i as int]);
            return true;
        }
        i += 1;
    }
    proof {
        if has_key(keys@.take(n as int), key@) {
            let k = choose|k: int| 0 <= k < n && (#[trigger] keys@.take(n as int)[k])@ == key@;
            assert(keys@.take(n as int)[k] == keys@[k]);
        }
    }
    false
}

/// The phones that appeared since the previous poll, each once.
pub fn newly_connected(previous: &Vec<String>, current: &Vec<String>) -> (r: Vec<String>)
    ensures
        crate::text::strings_match(r@, new_keys_spec(previous@, current@)),
{
    let mut r: Vec<String> = Vec::new();
    let mut i: usize = 0;
    while i < current.len()
        invariant
            i <= current@.len(),
            crate::text::strings_match(r@, new_keys_spec(previous@, current@.take(i as int))),
        decreases current.len() - i,
    {
        assert(current@.take(i + 1).drop_last() =~= current@.take(i as int));
        assert(current@.take(i + 1).last() == current@[i as int]);
        let key = current[i].as_str();
        if !contains_key(previous, key) && !contains_key_before(current, i, key) {
            r.push(current[i].clone());
        }
        i += 1;
    }
    assert(current@.take(current@.len() as int) =~= current@);
    r
}

/// Each phone that appears is announced once: the new keys are exactly the
/// keys seen now and not at the previous poll, with no key twice.
pub proof fn law_each_new_phone_once(previous: Seq<String>, current: Seq<String>)
    ensures
        forall|a: int, b: int|
            0 <= a < b < new_keys_spec(previous, current).len() ==> new_keys_spec(previous, current)[a]
                != new_keys_spec(previous, current)[b],
        forall|k: int|
            0 <= k < new_keys_spec(previous, current).len() ==> has_key(
                current,
                #[trigger] new_keys_spec(previous, current)[k],
            ) && !has_key(previous, new_keys_spec(previous, current)[k]),
        forall|j: int|
            0 <= j < current.len() && !has_key(previous, (#[trigger] current[j])@) ==> new_keys_spec(
                previous,
                current,
            ).contains(current[j]@),
    decreases current.len(),
{
    if current.len() > 0 {
        let init = current.drop_last();
        let last = current.last();
        law_each_new_phone_once(previous, init);
        let prev = new_keys_spec(previous, init);
        let res = new_keys_spec(previous, current);
        // Every key of `prev` occurs in `init`.
        assert forall|k: int| 0 <= k < prev.len() implies has_key(current, #[trigger] prev[k]) by {
            let j = choose|j: int| 0 <= j < init.len() && (#[trigger] init[j])@ == prev[k];
            assert(current[j] == init[j]);
        }
        assert forall|j: int| 0 <= j < current.len() && !has_key(previous, (#[trigger] current[j])@)
            implies res.contains(current[j]@) by {
            if j < init.len() {
                assert(init[j] == current[j]);
                assert(prev.contains(init[j]@));
                let m = choose|m: int| 0 <= m < prev.len() && prev[m] == init[j]@;
                assert(res[m] == prev[m]);
            } else {
                assert(current[j] == last);
                if has_key(init, last@) {
                    let i0 = choose|i0: int| 0 <= i0 < init.len() && (#[trigger] init[i0])@ == last@;
                    assert(prev.contains(init[i0]@));
                    let m = choose|m: int| 0 <= m < prev.len() && prev[m] == init[i0]@;
                    assert(res[m] == prev[m]);
                } else {
                    assert(res[res.len() - 1] == last@);
                }
            }
        }
        if !(has_key(previous, last@) || has_key(init, last@)) {
            assert forall|k: int| 0 <= k < prev.len() implies prev[k] != last@ by {
                let j = choose|j: int| 0 <= j < init.len() && (#[trigger] init[j])@ == prev[k];
            }
            assert(has_key(current, last@)) by {
                assert(current[current.len() - 1] == last);
            }
        }
    }
}

/// The device name in a remembered key: the text before the first `|`.
pub fn device_name_of_key(key: &str) -> (r: String)
    ensures
        r@ == before_first(key@, '|'),
{
    let cs = chars_of(key);
    let mut i: usize = 0;
    assert(cs@.skip(0) =~= cs@);
    assert(cs@.subrange(0, 0) + before_first(cs@, '|') =~= before_first(cs@, '|'));
    while i < cs.len() && cs[i] != '|'
        invariant
            cs@ == key@,
            i <= cs.len(),
            before_first(key@, '|') == cs@.subrange(0, i as int) + before_first(cs@.skip(i as int), '|'),
        decreases cs.len() - i,
    {
        assert(cs@.skip(i as int)[0] == cs@[i as int]);
        assert(cs@.skip(i as int).drop_first() =~= cs@.skip(i + 1));
        assert(cs@.subrange(0, i + 1) =~= cs@.subrange(0, i as int) + seq![cs@[i as int]]);
        i += 1;
    }
    proof {
        if i < cs.len() {
            assert(cs@.skip(i as int)[0] == '|');
        } else {
            assert(cs@.skip(i as int) =~= Seq::<char>::empty());
        }
    }
    string_from_range(&cs, 0, i)
}

/// The notification for a newly connected phone.
pub fn connected_message(device_name: &str) -> (r: String)
    ensures
        r@ == device_name@ + " connected — open Deduper to scan your photos."@,
{
    concat2(device_name, " connected — open Deduper to scan your photos.")
}

} // verus!
