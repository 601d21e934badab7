//! The configuration as the daemon sends it, a JSON document, read into the
//! library's own types.
//!
//! A document is read all or nothing: where any part lacks the expected
//! shape, nothing is made of the rest. Members that are not named here are
//! passed over, and a list that is not there at all is an empty list.

use vstd::prelude::*;
use crate::config::{
    Configuration, ConfigurationView, Device, DeviceView, Folder, FolderDevice, FolderView, Gui,
};
use crate::json::{
    array_of, is_null, is_object, json_array, json_is_null, json_member, json_object, json_string,
    member, string_of,
};
use crate::parse::{all_of, lemma_all_of_push};

verus! {

/// The string under `key` in a document, if it is an object with a string
/// there.
pub open spec fn string_member(doc: serde_json::Value, key: Seq<char>) -> Option<Seq<char>> {
    match json_member(doc, key) {
        Some(s) => json_string(s),
        None => None,
    }
}

/// A string that a document gives under one of two keys: the string, where
/// exactly one of the keys is present and a string stands there.
pub open spec fn text_member(doc: serde_json::Value, key: Seq<char>, other: Seq<char>) -> Option<
    Seq<char>,
> {
    match (json_member(doc, key), json_member(doc, other)) {
        (Some(s), None) => json_string(s),
        (None, Some(s)) => json_string(s),
        _ => None,
    }
}

/// A list that a document gives under one of two keys: the elements of the
/// array that stands under the one key that is present, and no elements
/// where neither is. With both keys present, or with something else than an
/// array, there is no list.
pub open spec fn list_member(doc: serde_json::Value, key: Seq<char>, other: Seq<char>) -> Option<
    Seq<serde_json::Value>,
> {
    match (json_member(doc, key), json_member(doc, other)) {
        (Some(list), None) => json_array(list),
        (None, Some(list)) => json_array(list),
        (None, None) => Some(Seq::empty()),
        (Some(_), Some(_)) => None,
    }
}

/// The device that an entry of a folder's device list refers to: the string
/// under `deviceID` or under `@id`.
pub open spec fn remote_folder_device_of(entry: serde_json::Value) -> Option<Seq<char>> {
    text_member(entry, "deviceID"@, "@id"@)
}

/// The devices that a folder document refers to: the entries of the list
/// under `device` or `devices`.
pub open spec fn remote_folder_devices_of(doc: serde_json::Value) -> Option<Seq<Seq<char>>> {
    match list_member(doc, "device"@, "devices"@) {
        Some(entries) => all_of(
            entries.map_values(|entry: serde_json::Value| remote_folder_device_of(entry)),
        ),
        None => None,
    }
}

/// The folder that a document describes: its identifier under `@id` or
/// `id`, its label under `@label` or `label`, its path under `@path` or
/// `path`, and the devices it refers to.
pub open spec fn remote_folder_of(doc: serde_json::Value) -> Option<FolderView> {
    if text_member(doc, "@id"@, "id"@) is Some && text_member(doc, "@label"@, "label"@) is Some
        && text_member(doc, "@path"@, "path"@) is Some && remote_folder_devices_of(doc) is Some {
        Some(
            FolderView {
                id: text_member(doc, "@id"@, "id"@)->0,
                label: text_member(doc, "@label"@, "label"@)->0,
                path: text_member(doc, "@path"@, "path"@)->0,
                devices: remote_folder_devices_of(doc)->0,
            },
        )
    } else {
        None
    }
}

/// The name that a device document gives under `@name`: none where the key
/// is missing or `null` stands there, the string where one stands there.
/// Anything else there is not a name; the outer `None` says so.
pub open spec fn remote_name_of(doc: serde_json::Value) -> Option<Option<Seq<char>>> {
    match json_member(doc, "@name"@) {
        None => Some(None),
        Some(name) => if json_is_null(name) {
            Some(None)
        } else if json_string(name) is Some {
            Some(json_string(name))
        } else {
            None
        },
    }
}

/// The device that a document describes: its identifier under `@id`, and
/// its name.
pub open spec fn remote_device_of(doc: serde_json::Value) -> Option<DeviceView> {
    if string_member(doc, "@id"@) is Some && remote_name_of(doc) is Some {
        Some(DeviceView { id: string_member(doc, "@id"@)->0, name: remote_name_of(doc)->0 })
    } else {
        None
    }
}

/// The API key of a configuration document: the string under `apikey` in
/// the object under `gui`, and the empty key where there is no `gui`.
pub open spec fn remote_api_key_of(doc: serde_json::Value) -> Option<Seq<char>> {
    match json_member(doc, "gui"@) {
        Some(gui) => string_member(gui, "apikey"@),
        None => Some(Seq::empty()),
    }
}

/// The folders of a configuration document: the entries of the list under
/// `folder` or `folders`.
pub open spec fn remote_folders_of(doc: serde_json::Value) -> Option<Seq<FolderView>> {
    match list_member(doc, "folder"@, "folders"@) {
        Some(entries) => all_of(
            entries.map_values(|entry: serde_json::Value| remote_folder_of(entry)),
        ),
        None => None,
    }
}

/// The devices of a configuration document: the entries of the list under
/// `device` or `devices`.
pub open spec fn remote_devices_of(doc: serde_json::Value) -> Option<Seq<DeviceView>> {
    match list_member(doc, "device"@, "devices"@) {
        Some(entries) => all_of(
            entries.map_values(|entry: serde_json::Value| remote_device_of(entry)),
        ),
        None => None,
    }
}

/// The configuration that a JSON document holds: it must be an object, and
/// its folders, its devices and its API key must each have their shape.
pub open spec fn remote_configuration_of(doc: serde_json::Value) -> Option<ConfigurationView> {
    if json_object(doc) is Some && remote_folders_of(doc) is Some && remote_devices_of(doc) is Some
        && remote_api_key_of(doc) is Some {
        Some(
            ConfigurationView {
                folders: remote_folders_of(doc)->0,
                devices: remote_devices_of(doc)->0,
                api_key: remote_api_key_of(doc)->0,
            },
        )
    } else {
        None
    }
}

/// The characters of an optional string.
pub open spec fn text_view(text: Option<String>) -> Option<Seq<char>> {
    match text {
        Some(t) => Some(t@),
        None => None,
    }
}

/// The string under `key`.
pub fn read_string(doc: &serde_json::Value, key: &str) -> (r: Option<String>)
    ensures
        text_view(r) == string_member(*doc, key@),
{
    match member(doc, key) {
        Some(s) => match string_of(s) {
            Some(text) => Some(text.to_owned()),
            None => None,
        },
        None => None,
    }
}

/// The string under one of two keys.
fn read_text(doc: &serde_json::Value, key: &str, other: &str) -> (r: Option<String>)
    ensures
        text_view(r) == text_member(*doc, key@, other@),
{
    let found = match (member(doc, key), member(doc, other)) {
        (Some(s), None) => string_of(s),
        (None, Some(s)) => string_of(s),
        _ => None,
    };
    match found {
        Some(text) => Some(text.to_owned()),
        None => None,
    }
}

/// The elements of the list under one of two keys; the inner `None` stands
/// for the list that is not there.
fn read_list<'a>(doc: &'a serde_json::Value, key: &str, other: &str) -> (r: Option<
    Option<&'a Vec<serde_json::Value>>,
>)
    ensures
        match r {
            Some(Some(items)) => list_member(*doc, key@, other@) == Some(items@),
            Some(None) => list_member(*doc, key@, other@) == Some(
                Seq::<serde_json::Value>::empty(),
            ),
            None => list_member(*doc, key@, other@) is None,
        },
{
    match (member(doc, key), member(doc, other)) {
        (Some(list), None) => match array_of(list) {
            Some(items) => Some(Some(items)),
            None => None,
        },
        (None, Some(list)) => match array_of(list) {
            Some(items) => Some(Some(items)),
            None => None,
        },
        (None, None) => Some(None),
        (Some(_), Some(_)) => None,
    }
}

/// Reads a reference from a folder to a device.
pub fn read_remote_folder_device(entry: &serde_json::Value) -> (r: Option<FolderDevice>)
    ensures
        match r {
            Some(device) => remote_folder_device_of(*entry) == Some(device@),
            None => remote_folder_device_of(*entry) is None,
        },
{
    match read_text(entry, "deviceID", "@id") {
        Some(id) => Some(FolderDevice { id }),
        None => None,
    }
}

/// With one item missing, not all items are there.
proof fn lemma_all_of_missing<A, T>(items: Seq<A>, value: spec_fn(A) -> Option<T>, i: int)
    requires
        0 <= i < items.len(),
        value(items[i]) is None,
    ensures
        all_of(items.map_values(value)) is None,
{
    assert(items.map_values(value)[i] is None);
}

/// The devices that a folder document refers to.
fn read_remote_folder_devices(doc: &serde_json::Value) -> (r: Option<Vec<FolderDevice>>)
    ensures
        match r {
            Some(items) => remote_folder_devices_of(*doc) == Some(
                items@.map_values(|x: FolderDevice| x@),
            ),
            None => remote_folder_devices_of(*doc) is None,
        },
{
    let ghost value = |entry: serde_json::Value| remote_folder_device_of(entry);
    let ghost view = |x: FolderDevice| x@;
    let mut out: Vec<FolderDevice> = Vec::new();
    proof {
        assert(out@.map_values(view) =~= Seq::empty());
        assert(Seq::<serde_json::Value>::empty().map_values(value) =~= Seq::empty());
        assert(Seq::<Option<Seq<char>>>::empty().map_values(|item: Option<Seq<char>>| item->0)
            =~= Seq::empty());
    }
    match read_list(doc, "device", "devices") {
        Some(Some(entries)) => {
            let mut i: usize = 0;
            proof {
                assert(entries@.take(0) =~= Seq::empty());
            }
            while i < entries.len()
                invariant
                    i <= entries.len(),
                    list_member(*doc, "device"@, "devices"@) == Some(entries@),
                    value == |entry: serde_json::Value| remote_folder_device_of(entry),
                    view == |x: FolderDevice| x@,
                    all_of(entries@.take(i as int).map_values(value)) == Some(
                        out@.map_values(view),
                    ),
                decreases entries.len() - i,
            {
                proof {
                    entries@.lemma_take_succ_push(i as int);
                    entries@.take(i as int).lemma_push_map_commute(value, entries@[i as int]);
                    lemma_all_of_push(
                        entries@.take(i as int).map_values(value),
                        remote_folder_device_of(entries@[i as int]),
                    );
                }
                match read_remote_folder_device(&entries[i]) {
                    Some(x) => {
                        proof {
                            out@.lemma_push_map_commute(view, x);
                        }
                        out.push(x);
                    },
                    None => {
                        proof {
                            lemma_all_of_missing(entries@, value, i as int);
                        }
                        return None;
                    },
                }
                i += 1;
            }
            proof {
                entries@.lemma_take_len();
            }
            Some(out)
        },
        Some(None) => Some(out),
        None => None,
    }
}

/// Reads a folder.
pub fn read_remote_folder(doc: &serde_json::Value) -> (r: Option<Folder>)
    ensures
        match r {
            Some(folder) => remote_folder_of(*doc) == Some(folder@),
            None => remote_folder_of(*doc) is None,
        },
{
    let id = read_text(doc, "@id", "id");
    let label = read_text(doc, "@label", "label");
    let path = read_text(doc, "@path", "path");
    let devices = read_remote_folder_devices(doc);
    match (id, label, path, devices) {
        (Some(id), Some(label), Some(path), Some(devices)) => Some(
            Folder { id, label, path, devices },
        ),
        _ => None,
    }
}

/// Reads a device.
pub fn read_remote_device(doc: &serde_json::Value) -> (r: Option<Device>)
    ensures
        match r {
            Some(device) => remote_device_of(*doc) == Some(device@),
            None => remote_device_of(*doc) is None,
        },
{
    let name = match member(doc, "@name") {
        None => Some(None),
        Some(name) => {
            if is_null(name) {
                Some(None)
            } else {
                match string_of(name) {
                    Some(text) => Some(Some(text.to_owned())),
                    None => None,
                }
            }
        },
    };
    match (read_string(doc, "@id"), name) {
        (Some(id), Some(name)) => Some(Device { id, name }),
        _ => None,
    }
}

/// The folders of a configuration document.
fn read_remote_folders(doc: &serde_json::Value) -> (r: Option<Vec<Folder>>)
    ensures
        match r {
            Some(items) => remote_folders_of(*doc) == Some(
                items@.map_values(|x: Folder| x@),
            ),
            None => remote_folders_of(*doc) is None,
        },
{
    let ghost value = |entry: serde_json::Value| remote_folder_of(entry);
    let ghost view = |x: Folder| x@;
    let mut out: Vec<Folder> = Vec::new();
    proof {
        assert(out@.map_values(view) =~= Seq::empty());
        assert(Seq::<serde_json::Value>::empty().map_values(value) =~= Seq::empty());
        assert(Seq::<Option<FolderView>>::empty().map_values(|item: Option<FolderView>| item->0)
            =~= Seq::empty());
    }
    match read_list(doc, "folder", "folders") {
        Some(Some(entries)) => {
            let mut i: usize = 0;
            proof {
                assert(entries@.take(0) =~= Seq::empty());
            }
            while i < entries.len()
                invariant
                    i <= entries.len(),
                    list_member(*doc, "folder"@, "folders"@) == Some(entries@),
                    value == |entry: serde_json::Value| remote_folder_of(entry),
                    view == |x: Folder| x@,
                    all_of(entries@.take(i as int).map_values(value)) == Some(
                        out@.map_values(view),
                    ),
                decreases entries.len() - i,
            {
                proof {
                    entries@.lemma_take_succ_push(i as int);
                    entries@.take(i as int).lemma_push_map_commute(value, entries@[i as int]);
                    lemma_all_of_push(
                        entries@.take(i as int).map_values(value),
                        remote_folder_of(entries@[i as int]),
                    );
                }
                match read_remote_folder(&entries[i]) {
                    Some(x) => {
                        proof {
                            out@.lemma_push_map_commute(view, x);
                        }
                        out.push(x);
                    },
                    None => {
                        proof {
                            lemma_all_of_missing(entries@, value, i as int);
                        }
                        return None;
                    },
                }
                i += 1;
            }
            proof {
                entries@.lemma_take_len();
            }
            Some(out)
        },
        Some(None) => Some(out),
        None => None,
    }
}

/// The devices of a configuration document.
fn read_remote_devices(doc: &serde_json::Value) -> (r: Option<Vec<Device>>)
    ensures
        match r {
            Some(items) => remote_devices_of(*doc) == Some(
                items@.map_values(|x: Device| x@),
            ),
            None => remote_devices_of(*doc) is None,
        },
{
    let ghost value = |entry: serde_json::Value| remote_device_of(entry);
    let ghost view = |x: Device| x@;
    let mut out: Vec<Device> = Vec::new();
    proof {
        assert(out@.map_values(view) =~= Seq::empty());
        assert(Seq::<serde_json::Value>::empty().map_values(value) =~= Seq::empty());
        assert(Seq::<Option<DeviceView>>::empty().map_values(|item: Option<DeviceView>| item->0)
            =~= Seq::empty());
    }
    match read_list(doc, "device", "devices") {
        Some(Some(entries)) => {
            let mut i: usize = 0;
            proof {
                assert(entries@.take(0) =~= Seq::empty());
            }
            while i < entries.len()
                invariant
                    i <= entries.len(),
                    list_member(*doc, "device"@, "devices"@) == Some(entries@),
                    value == |entry: serde_json::Value| remote_device_of(entry),
                    view == |x: Device| x@,
                    all_of(entries@.take(i as int).map_values(value)) == Some(
                        out@.map_values(view),
                    ),
                decreases entries.len() - i,
            {
                proof {
                    entries@.lemma_take_succ_push(i as int);
                    entries@.take(i as int).lemma_push_map_commute(value, entries@[i as int]);
                    lemma_all_of_push(
                        entries@.take(i as int).map_values(value),
                        remote_device_of(entries@[i as int]),
                    );
                }
                match read_remote_device(&entries[i]) {
                    Some(x) => {
                        proof {
                            out@.lemma_push_map_commute(view, x);
                        }
                        out.push(x);
                    },
                    None => {
                        proof {
                            lemma_all_of_missing(entries@, value, i as int);
                        }
                        return None;
                    },
                }
                i += 1;
            }
            proof {
                entries@.lemma_take_len();
            }
            Some(out)
        },
        Some(None) => Some(out),
        None => None,
    }
}

/// Reads the configuration out of a JSON document.
pub fn read_remote_configuration(doc: &serde_json::Value) -> (r: Option<Configuration>)
    ensures
        match r {
            Some(config) => remote_configuration_of(*doc) == Some(config@),
            None => remote_configuration_of(*doc) is None,
        },
{
    let gui = match member(doc, "gui") {
        Some(gui) => match read_string(gui, "apikey") {
            Some(api_key) => Some(Gui { api_key }),
            None => None,
        },
        None => Some(Gui::default()),
    };
    let folders = read_remote_folders(doc);
    let devices = read_remote_devices(doc);
    match (is_object(doc), folders, devices, gui) {
        (true, Some(folders), Some(devices), Some(gui)) => Some(
            Configuration { folders, devices, gui },
        ),
        _ => None,
    }
}

} // verus!
