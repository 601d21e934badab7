//! Sharing a folder with a device, and taking the share back: edits of the
//! device list inside the daemon's folder document.
//!
//! A folder document is whatever the daemon sent. The only part these
//! operations know is the array under `devices`, whose entries name a device
//! under `deviceID`. Everything else is carried along untouched.
//!
//! Nothing here guards against another writer: the caller fetches a
//! document, edits it and writes the whole of it back, and a change made to
//! the daemon's copy in between is overwritten.

use vstd::prelude::*;
use crate::error::SyncError;
use crate::json::{
    array_of, array_value, empty_object, json_array, json_member, json_object, json_string, member,
    set_member, string_of, string_value,
};
use crate::text::same_text;

verus! {

/// The key of the device list in a folder document.
pub const DEVICES: &'static str = "devices";

/// The key of the device identifier in an entry of the device list.
pub const DEVICE_ID: &'static str = "deviceID";

/// The key of the encryption password in an entry of the device list.
pub const ENCRYPTION_PASSWORD: &'static str = "encryptionPassword";

/// The key of the introducer in an entry of the device list.
pub const INTRODUCED_BY: &'static str = "introducedBy";

/// The entries of the document's device list: `None` unless the document is
/// an object with an array under `devices`.
pub open spec fn device_list(doc: serde_json::Value) -> Option<Seq<serde_json::Value>> {
    match json_member(doc, DEVICES@) {
        Some(list) => json_array(list),
        None => None,
    }
}

/// The device that an entry names: `None` unless the entry is an object
/// with a string under `deviceID`.
pub open spec fn entry_device_id(entry: serde_json::Value) -> Option<Seq<char>> {
    match json_member(entry, DEVICE_ID@) {
        Some(id) => json_string(id),
        None => None,
    }
}

/// The test for the entries that name `device_id`.
pub open spec fn names_device(device_id: Seq<char>) -> spec_fn(serde_json::Value) -> bool {
    |entry: serde_json::Value| entry_device_id(entry) == Some(device_id)
}

/// The test for the entries that do not name `device_id`; an entry that
/// names no device at all is among them.
pub open spec fn names_another(device_id: Seq<char>) -> spec_fn(serde_json::Value) -> bool {
    |entry: serde_json::Value| entry_device_id(entry) != Some(device_id)
}

/// `entry` is what sharing adds for `device_id`: an object of exactly three
/// members, the device identifier and two empty strings.
pub open spec fn is_device_entry(entry: serde_json::Value, device_id: Seq<char>) -> bool {
    &&& json_object(entry) matches Some(members)
    &&& members.dom() == set![DEVICE_ID@, ENCRYPTION_PASSWORD@, INTRODUCED_BY@]
    &&& json_string(members[DEVICE_ID@]) == Some(device_id)
    &&& json_string(members[ENCRYPTION_PASSWORD@]) == Some(Seq::<char>::empty())
    &&& json_string(members[INTRODUCED_BY@]) == Some(Seq::<char>::empty())
}

/// Both documents are objects, and apart from the member `devices` they
/// have the same members with the same values.
pub open spec fn same_outside_devices(before: serde_json::Value, after: serde_json::Value) -> bool {
    &&& json_object(before) is Some
    &&& json_object(after) is Some
    &&& json_object(after)->0.remove(DEVICES@) == json_object(before)->0.remove(DEVICES@)
}

/// `after` is `before` shared with `device_id`: the device list has one more
/// entry, at its end, which is a fresh entry for the device; the entries
/// before it, and all that lies outside the device list, are unchanged.
pub open spec fn shared(
    before: serde_json::Value,
    after: serde_json::Value,
    device_id: Seq<char>,
) -> bool {
    &&& same_outside_devices(before, after)
    &&& device_list(before) is Some
    &&& device_list(after) is Some
    &&& device_list(after)->0.len() == device_list(before)->0.len() + 1
    &&& device_list(after)->0.drop_last() == device_list(before)->0
    &&& is_device_entry(device_list(after)->0.last(), device_id)
}

/// `after` is `before` no longer shared with `device_id`: the device list
/// holds the entries that do not name the device, each as it was and in the
/// order it had; all that lies outside the device list is unchanged.
pub open spec fn unshared(
    before: serde_json::Value,
    after: serde_json::Value,
    device_id: Seq<char>,
) -> bool {
    &&& same_outside_devices(before, after)
    &&& device_list(before) is Some
    &&& device_list(after) == Some(device_list(before)->0.filter(names_another(device_id)))
}

/// A fresh entry of a device list for `device_id`, with empty placeholders
/// for the encryption password and the introducer.
pub fn device_entry(device_id: &str) -> (r: serde_json::Value)
    ensures
        is_device_entry(r, device_id@),
        entry_device_id(r) == Some(device_id@),
{
    proof {
        reveal_strlit("deviceID");
        reveal_strlit("encryptionPassword");
        reveal_strlit("introducedBy");
        reveal_strlit("");
    }
    let mut entry = empty_object();
    set_member(&mut entry, DEVICE_ID, string_value(device_id));
    set_member(&mut entry, ENCRYPTION_PASSWORD, string_value(""));
    set_member(&mut entry, INTRODUCED_BY, string_value(""));
    proof {
        let members = json_object(entry)->0;
        assert(DEVICE_ID@.len() == 8);
        assert(ENCRYPTION_PASSWORD@.len() == 18);
        assert(INTRODUCED_BY@.len() == 12);
        assert(members.dom() =~= set![DEVICE_ID@, ENCRYPTION_PASSWORD@, INTRODUCED_BY@]);
        assert(""@ =~= Seq::<char>::empty());
    }
    entry
}

/// Whether the entry names the device `device_id`.
pub fn entry_names(entry: &serde_json::Value, device_id: &str) -> (r: bool)
    ensures
        r == (entry_device_id(*entry) == Some(device_id@)),
{
    match member(entry, DEVICE_ID) {
        Some(id) => match string_of(id) {
            Some(text) => same_text(text, device_id),
            None => false,
        },
        None => false,
    }
}

/// A copy of the document's device list, where it has one.
fn copy_device_list(doc: &serde_json::Value) -> (r: Option<Vec<serde_json::Value>>)
    ensures
        match r {
            Some(list) => device_list(*doc) == Some(list@),
            None => device_list(*doc) is None,
        },
{
    match member(doc, DEVICES) {
        Some(list) => match array_of(list) {
            Some(items) => {
                let mut copy: Vec<serde_json::Value> = Vec::new();
                let mut i: usize = 0;
                while i < items.len()
                    invariant
                        i <= items.len(),
                        copy@ == items@.take(i as int),
                    decreases items.len() - i,
                {
                    copy.push(items[i].clone());
                    proof {
                        items@.lemma_take_succ_push(i as int);
                    }
                    i += 1;
                }
                proof {
                    items@.lemma_take_len();
                }
                Some(copy)
            },
            None => None,
        },
        None => None,
    }
}

/// Puts `list` in place of the document's device list.
fn put_device_list(doc: &mut serde_json::Value, list: Vec<serde_json::Value>)
    requires
        device_list(*old(doc)) is Some,
    ensures
        device_list(*final(doc)) == Some(list@),
        same_outside_devices(*old(doc), *final(doc)),
{
    let ghost before = json_object(*doc)->0;
    set_member(doc, DEVICES, array_value(list));
    assert(before.insert(DEVICES@, json_object(*doc)->0[DEVICES@]).remove(DEVICES@) =~= before.remove(
        DEVICES@,
    ));
}

/// Shares the folder with `device_id`: appends a fresh entry for the device
/// to the document's device list. Whether the device is listed already is
/// not looked at, so sharing twice lists the device twice.
///
/// A document without a device list is left as it is and reported as
/// `UnexpectedShape`.
pub fn share(doc: &mut serde_json::Value, device_id: &str) -> (r: Result<(), SyncError>)
    ensures
        match r {
            Ok(_) => shared(*old(doc), *final(doc), device_id@),
            Err(e) => {
                &&& e == SyncError::UnexpectedShape
                &&& device_list(*old(doc)) is None
                &&& *final(doc) == *old(doc)
            },
        },
{
    match copy_device_list(doc) {
        Some(mut list) => {
            let ghost before = list@;
            list.push(device_entry(device_id));
            assert(list@.drop_last() =~= before);
            put_device_list(doc, list);
            Ok(())
        },
        None => Err(SyncError::UnexpectedShape),
    }
}

/// Takes the share with `device_id` back: removes from the document's
/// device list every entry that names the device, however many there are.
/// The other entries stay as they are, in their order.
///
/// A document without a device list is left as it is and reported as
/// `UnexpectedShape`.
pub fn unshare(doc: &mut serde_json::Value, device_id: &str) -> (r: Result<(), SyncError>)
    ensures
        match r {
            Ok(_) => unshared(*old(doc), *final(doc), device_id@),
            Err(e) => {
                &&& e == SyncError::UnexpectedShape
                &&& device_list(*old(doc)) is None
                &&& *final(doc) == *old(doc)
            },
        },
{
    match copy_device_list(doc) {
        Some(list) => {
            let ghost keep = names_another(device_id@);
            let mut kept: Vec<serde_json::Value> = Vec::new();
            let mut i: usize = 0;
            assert(list@.take(0).filter(keep) =~= Seq::empty()) by {
                reveal(Seq::filter);
            }
            while i < list.len()
                invariant
                    i <= list.len(),
                    keep == names_another(device_id@),
                    kept@ == list@.take(i as int).filter(keep),
                decreases list.len() - i,
            {
                proof {
                    list@.lemma_take_succ_push(i as int);
                    list@.take(i as int).lemma_filter_push(list@[i as int], keep);
                }
                if !entry_names(&list[i], device_id) {
                    kept.push(list[i].clone());
                }
                i += 1;
            }
            proof {
                list@.lemma_take_len();
            }
            put_device_list(doc, kept);
            Ok(())
        },
        None => Err(SyncError::UnexpectedShape),
    }
}

/// How many entries of the device list name `device_id`.
pub open spec fn times_listed(doc: serde_json::Value, device_id: Seq<char>) -> nat
    recommends
        device_list(doc) is Some,
{
    device_list(doc)->0.filter(names_device(device_id)).len()
}

/// Sharing does not look for the device in the list: every sharing adds an
/// entry. After two sharings with the same device the list ends in two
/// entries for it, and the device is listed two times more than before.
pub proof fn law_share_twice_lists_twice(
    start: serde_json::Value,
    once: serde_json::Value,
    twice: serde_json::Value,
    device_id: Seq<char>,
)
    requires
        shared(start, once, device_id),
        shared(once, twice, device_id),
    ensures
        device_list(twice)->0.len() == device_list(start)->0.len() + 2,
        device_list(twice)->0.take(device_list(start)->0.len() as int) == device_list(start)->0,
        is_device_entry(device_list(twice)->0[device_list(start)->0.len() as int], device_id),
        is_device_entry(device_list(twice)->0[device_list(start)->0.len() as int + 1], device_id),
        times_listed(twice, device_id) == times_listed(start, device_id) + 2,
        same_outside_devices(start, twice),
{
    let a = device_list(start)->0;
    let b = device_list(once)->0;
    let c = device_list(twice)->0;
    let named = names_device(device_id);
    assert(b =~= a.push(b.last()));
    assert(c =~= b.push(c.last()));
    assert(c.take(a.len() as int) =~= a);
    assert(named(b.last()));
    assert(named(c.last()));
    a.lemma_filter_push(b.last(), named);
    b.lemma_filter_push(c.last(), named);
}

/// Taking a share back removes every entry for the device, however often it
/// was listed: afterwards no entry of the list names the device.
pub proof fn law_unshare_removes_every_entry(
    before: serde_json::Value,
    after: serde_json::Value,
    device_id: Seq<char>,
)
    requires
        unshared(before, after, device_id),
    ensures
        forall|i: int|
            0 <= i < device_list(after)->0.len() ==> entry_device_id(
                #[trigger] device_list(after)->0[i],
            ) != Some(device_id),
        times_listed(after, device_id) == 0,
{
    let old_list = device_list(before)->0;
    let new_list = device_list(after)->0;
    let others = names_another(device_id);
    let named = names_device(device_id);
    assert forall|i: int| 0 <= i < new_list.len() implies entry_device_id(#[trigger] new_list[i])
        != Some(device_id) by {
        old_list.lemma_filter_pred(others, i);
    }
    assert forall|i: int| 0 <= i < new_list.len() implies !named(#[trigger] new_list[i]) by {}
    new_list.lemma_all_neg_filter_empty(named);
}

/// Sharing with a device and then taking the share back leaves no entry for
/// the device, also where it was listed before or several times; what is
/// left is the list from before the sharing without its entries for the
/// device.
pub proof fn law_unshare_undoes_share(
    start: serde_json::Value,
    with: serde_json::Value,
    without: serde_json::Value,
    device_id: Seq<char>,
)
    requires
        shared(start, with, device_id),
        unshared(with, without, device_id),
    ensures
        device_list(without) == Some(device_list(start)->0.filter(names_another(device_id))),
        times_listed(without, device_id) == 0,
        same_outside_devices(start, without),
{
    let a = device_list(start)->0;
    let b = device_list(with)->0;
    let others = names_another(device_id);
    assert(b =~= a.push(b.last()));
    assert(!others(b.last()));
    a.lemma_filter_push(b.last(), others);
    law_unshare_removes_every_entry(with, without, device_id);
}

/// Sharing disturbs nothing: every member of the document other than the
/// device list, and every entry that the list had, is afterwards what it
/// was, extra fields included.
pub proof fn law_share_keeps_the_rest(
    before: serde_json::Value,
    after: serde_json::Value,
    device_id: Seq<char>,
)
    requires
        shared(before, after, device_id),
    ensures
        forall|key: Seq<char>|
            key != DEVICES@ ==> #[trigger] json_member(after, key) == json_member(before, key),
        forall|i: int|
            0 <= i < device_list(before)->0.len() ==> #[trigger] device_list(after)->0[i]
                == device_list(before)->0[i],
{
    lemma_members_outside_devices(before, after);
    let a = device_list(before)->0;
    let b = device_list(after)->0;
    assert forall|i: int| 0 <= i < a.len() implies #[trigger] b[i] == a[i] by {
        assert(b.drop_last()[i] == b[i]);
    }
}

/// Taking a share back disturbs nothing else: every member of the document
/// other than the device list is afterwards what it was, and an entry is in
/// the list afterwards exactly if it was there before and names another
/// device or none; such an entry is the very value it was, extra fields
/// included.
pub proof fn law_unshare_keeps_the_rest(
    before: serde_json::Value,
    after: serde_json::Value,
    device_id: Seq<char>,
    entry: serde_json::Value,
)
    requires
        unshared(before, after, device_id),
    ensures
        forall|key: Seq<char>|
            key != DEVICES@ ==> #[trigger] json_member(after, key) == json_member(before, key),
        device_list(after)->0.contains(entry) <==> device_list(before)->0.contains(entry)
            && entry_device_id(entry) != Some(device_id),
{
    lemma_members_outside_devices(before, after);
    let a = device_list(before)->0;
    let others = names_another(device_id);
    if a.filter(others).contains(entry) {
        a.lemma_filter_contains_rev(others, entry);
    }
    if a.contains(entry) && others(entry) {
        let i = choose|i: int| 0 <= i < a.len() && a[i] == entry;
        a.lemma_filter_contains(others, i);
    }
}

proof fn lemma_members_outside_devices(before: serde_json::Value, after: serde_json::Value)
    requires
        same_outside_devices(before, after),
    ensures
        forall|key: Seq<char>|
            key != DEVICES@ ==> #[trigger] json_member(after, key) == json_member(before, key),
{
    let a = json_object(before)->0;
    let b = json_object(after)->0;
    assert forall|key: Seq<char>| key != DEVICES@ implies #[trigger] json_member(after, key)
        == json_member(before, key) by {
        assert(a.remove(DEVICES@).contains_key(key) == a.contains_key(key));
        assert(b.remove(DEVICES@).contains_key(key) == b.contains_key(key));
        if a.contains_key(key) {
            assert(a.remove(DEVICES@)[key] == a[key]);
            assert(b.remove(DEVICES@)[key] == b[key]);
        }
    }
}

} // verus!
