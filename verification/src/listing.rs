//! The table of folders and the devices each is shared with.

use vstd::prelude::*;
use vstd::string::*;
use crate::config::{
    get_folder_devices, Configuration, ConfigurationView, Device, DeviceView, FolderView,
};
use crate::text::{join, joined, pad_right, padded};

verus! {

/// The width of the label column.
pub const LABEL_WIDTH: usize = 20;

/// The width of the path column.
pub const PATH_WIDTH: usize = 50;

/// The width of the device column.
pub const DEVICE_WIDTH: usize = 20;

/// A line of the table: three columns, each padded to its width, with one
/// space between them. A text wider than its column is not cut.
pub open spec fn row(label: Seq<char>, path: Seq<char>, devices: Seq<char>) -> Seq<char> {
    padded(label, LABEL_WIDTH as nat) + seq![' '] + padded(path, PATH_WIDTH as nat) + seq![' ']
        + padded(devices, DEVICE_WIDTH as nat)
}

/// The first line of the table.
pub open spec fn header() -> Seq<char> {
    row("Label"@, "Path"@, "Shared Devices"@)
}

/// The test for the devices that have a name.
pub open spec fn has_name() -> spec_fn(DeviceView) -> bool {
    |d: DeviceView| d.name is Some
}

/// The names of the devices that have one, in the order of the devices.
pub open spec fn shown_names(devices: Seq<DeviceView>) -> Seq<Seq<char>> {
    devices.filter(has_name()).map_values(|d: DeviceView| d.name->0)
}

/// The line of the table for `folder`: its label, its path, and the names
/// of the devices it is shared with, the daemon `own_id` left out,
/// separated by a comma and a space.
pub open spec fn folder_row(c: ConfigurationView, folder: FolderView, own_id: Seq<char>) -> Seq<
    char,
> {
    row(folder.label, folder.path, joined(shown_names(c.shared_with(folder, own_id)), ", "@))
}

/// Lays out one line of the table.
pub fn format_row(label: &str, path: &str, devices: &str) -> (r: String)
    ensures
        r@ == row(label@, path@, devices@),
{
    proof {
        reveal_strlit(" ");
        assert(" "@ =~= seq![' ']);
    }
    let mut line = pad_right(label, LABEL_WIDTH);
    line.append(" ");
    line.append(pad_right(path, PATH_WIDTH).as_str());
    line.append(" ");
    line.append(pad_right(devices, DEVICE_WIDTH).as_str());
    line
}

/// The names of the devices that have one.
pub fn device_names(devices: &Vec<&Device>) -> (r: Vec<String>)
    ensures
        r@.map_values(|n: String| n@) == shown_names(devices@.map_values(|d: &Device| d@)),
{
    let ghost views = devices@.map_values(|d: &Device| d@);
    let ghost text = |n: String| n@;
    let ghost name = |d: DeviceView| d.name->0;
    let mut names: Vec<String> = Vec::new();
    let mut i: usize = 0;
    proof {
        assert(views.take(0).filter(has_name()) =~= Seq::empty()) by {
            reveal(Seq::filter);
        }
        assert(names@.map_values(text) =~= Seq::<DeviceView>::empty().map_values(name));
    }
    while i < devices.len()
        invariant
            i <= devices.len(),
            views == devices@.map_values(|d: &Device| d@),
            text == |n: String| n@,
            name == |d: DeviceView| d.name->0,
            names@.map_values(text) == views.take(i as int).filter(has_name()).map_values(name),
        decreases devices.len() - i,
    {
        proof {
            views.lemma_take_succ_push(i as int);
            views.take(i as int).lemma_filter_push(views[i as int], has_name());
        }
        match &devices[i].name {
            Some(n) => {
                let copy = n.clone();
                proof {
                    names@.lemma_push_map_commute(text, copy);
                    views.take(i as int).filter(has_name()).lemma_push_map_commute(
                        name,
                        views[i as int],
                    );
                }
                names.push(copy);
            },
            None => {},
        }
        i += 1;
    }
    proof {
        views.lemma_take_len();
    }
    names
}

/// The table of folders: a header, then one line for each folder in
/// document order with the names of the devices it is shared with.
pub fn list_folders(config: &Configuration, own_id: &str) -> (lines: Vec<String>)
    ensures
        lines@.len() == config@.folders.len() + 1,
        lines@[0]@ == header(),
        forall|i: int|
            0 <= i < config@.folders.len() ==> (#[trigger] lines@[i + 1])@ == folder_row(
                config@,
                config@.folders[i],
                own_id@,
            ),
{
    let mut lines: Vec<String> = Vec::new();
    lines.push(format_row("Label", "Path", "Shared Devices"));
    let mut i: usize = 0;
    while i < config.folders.len()
        invariant
            i <= config.folders.len(),
            lines@.len() == i + 1,
            lines@[0]@ == header(),
            forall|k: int|
                0 <= k < i ==> (#[trigger] lines@[k + 1])@ == folder_row(
                    config@,
                    config@.folders[k],
                    own_id@,
                ),
        decreases config.folders.len() - i,
    {
        let folder = &config.folders[i];
        let devices = get_folder_devices(config, folder, own_id);
        let names = join(&device_names(&devices), ", ");
        let line = format_row(folder.label.as_str(), folder.path.as_str(), names.as_str());
        let ghost before = lines@;
        lines.push(line);
        proof {
            assert forall|k: int| 0 <= k < i + 1 implies (#[trigger] lines@[k + 1])@ == folder_row(
                config@,
                config@.folders[k],
                own_id@,
            ) by {
                if k < i {
                    assert(lines@[k + 1] == before[k + 1]);
                }
            }
        }
        i += 1;
    }
    lines
}

} // verus!
