//! The local configuration: folders, devices and the API credential, with
//! the lookups from human labels to stable identifiers.

use vstd::prelude::*;
use crate::error::{LabelKind, SyncError};
use crate::text::{glue, same_text, to_chars};

verus! {

/// A reference from a folder to one of the devices it is shared with.
#[derive(Debug, Clone, PartialEq, Eq)]
pub struct FolderDevice {
    pub id: String,
}

/// A synchronised directory tree.
#[derive(Debug, Clone, PartialEq, Eq)]
pub struct Folder {
    pub id: String,
    pub label: String,
    pub path: String,
    pub devices: Vec<FolderDevice>,
}

/// A peer taking part in synchronisation.
#[derive(Debug, Clone, PartialEq, Eq)]
pub struct Device {
    pub id: String,
    pub name: Option<String>,
}

/// The settings of the daemon's management interface.
#[derive(Debug, Clone, PartialEq, Eq)]
pub struct Gui {
    pub api_key: String,
}

/// The whole local configuration, in document order.
#[derive(Debug, Clone, PartialEq, Eq)]
pub struct Configuration {
    pub folders: Vec<Folder>,
    pub devices: Vec<Device>,
    pub gui: Gui,
}

/// A folder as contracts see it: its texts and the identifiers it refers to.
pub struct FolderView {
    pub id: Seq<char>,
    pub label: Seq<char>,
    pub path: Seq<char>,
    pub devices: Seq<Seq<char>>,
}

/// A device as contracts see it.
pub struct DeviceView {
    pub id: Seq<char>,
    pub name: Option<Seq<char>>,
}

/// A configuration as contracts see it.
pub struct ConfigurationView {
    pub folders: Seq<FolderView>,
    pub devices: Seq<DeviceView>,
    pub api_key: Seq<char>,
}

impl View for FolderDevice {
    type V = Seq<char>;

    open spec fn view(&self) -> Seq<char> {
        self.id@
    }
}

impl View for Folder {
    type V = FolderView;

    open spec fn view(&self) -> FolderView {
        FolderView {
            id: self.id@,
            label: self.label@,
            path: self.path@,
            devices: self.devices@.map_values(|d: FolderDevice| d@),
        }
    }
}

impl View for Device {
    type V = DeviceView;

    open spec fn view(&self) -> DeviceView {
        DeviceView {
            id: self.id@,
            name: match self.name {
                Some(n) => Some(n@),
                None => None,
            },
        }
    }
}

impl View for Gui {
    type V = Seq<char>;

    open spec fn view(&self) -> Seq<char> {
        self.api_key@
    }
}

impl View for Configuration {
    type V = ConfigurationView;

    open spec fn view(&self) -> ConfigurationView {
        ConfigurationView {
            folders: self.folders@.map_values(|f: Folder| f@),
            devices: self.devices@.map_values(|d: Device| d@),
            api_key: self.gui@,
        }
    }
}

/// Where the configuration file lies below the user's home directory.
pub const CONFIG_FILE: &'static str = ".config/syncthing/config.xml";

/// The path of the configuration file for the home directory `home`: the
/// two joined by one `/`, which is left out where `home` is empty or ends
/// in one already.
pub open spec fn config_path_of(home: Seq<char>) -> Seq<char> {
    if home.len() == 0 || home.last() == '/' {
        home + CONFIG_FILE@
    } else {
        home + seq!['/'] + CONFIG_FILE@
    }
}

/// The path of the configuration file for the home directory `home`.
pub fn config_path(home: &str) -> (r: String)
    ensures
        r@ == config_path_of(home@),
{
    let chars = to_chars(home);
    if chars.len() == 0 || chars[chars.len() - 1] == '/' {
        glue(home, CONFIG_FILE)
    } else {
        proof {
            reveal_strlit("/");
            assert("/"@ =~= seq!['/']);
        }
        let with_separator = glue(home, "/");
        glue(with_separator.as_str(), CONFIG_FILE)
    }
}

/// The path of the configuration file, given the home directory if the
/// user has one: without a home directory the file cannot be
/// located, which is `ConfigNotFound`.
pub fn locate_config(home: Option<&str>) -> (r: Result<String, SyncError>)
    ensures
        match home {
            Some(h) => r matches Ok(path) && path@ == config_path_of(h@),
            None => r == Err::<String, SyncError>(SyncError::ConfigNotFound),
        },
{
    match home {
        Some(h) => Ok(config_path(h)),
        None => Err(SyncError::ConfigNotFound),
    }
}

/// The test that picks the peers of `folder`: the folder refers to the
/// device, and the device is not the daemon identified by `own_id`.
pub open spec fn is_peer_of(folder: FolderView, own_id: Seq<char>) -> spec_fn(DeviceView) -> bool {
    |d: DeviceView| folder.devices.contains(d.id) && d.id != own_id
}

/// The characters behind an optional string slice.
pub open spec fn text_of(s: Option<&str>) -> Option<Seq<char>> {
    match s {
        Some(t) => Some(t@),
        None => None,
    }
}

impl ConfigurationView {
    /// The folder labels, in document order.
    pub open spec fn folder_labels(self) -> Seq<Seq<char>> {
        self.folders.map_values(|f: FolderView| f.label)
    }

    /// The device names, in document order; `None` for a device without one.
    pub open spec fn device_names(self) -> Seq<Option<Seq<char>>> {
        self.devices.map_values(|d: DeviceView| d.name)
    }

    /// The identifier of the first folder labelled `label`, if any folder is.
    pub open spec fn file_id(self, label: Seq<char>) -> Option<Seq<char>> {
        match self.folder_labels().index_of_first(label) {
            Some(i) => Some(self.folders[i].id),
            None => None,
        }
    }

    /// The identifier of the first device named `name`, if any device is.
    /// A device without a name is never found.
    pub open spec fn device_id(self, name: Seq<char>) -> Option<Seq<char>> {
        match self.device_names().index_of_first(Some(name)) {
            Some(i) => Some(self.devices[i].id),
            None => None,
        }
    }

    /// The devices that `folder` is shared with, the daemon itself left out:
    /// every configured device that the folder refers to and whose identifier
    /// is not `own_id`, in the order of the configuration's device list.
    pub open spec fn shared_with(self, folder: FolderView, own_id: Seq<char>) -> Seq<DeviceView> {
        self.devices.filter(is_peer_of(folder, own_id))
    }

    /// Folder `i` is the first one that carries `label`.
    pub open spec fn first_labelled(self, i: int, label: Seq<char>) -> bool {
        &&& 0 <= i < self.folders.len()
        &&& self.folders[i].label == label
        &&& forall|j: int| 0 <= j < i ==> self.folders[j].label != label
    }

    /// Device `i` is the first one that carries the name `name`.
    pub open spec fn first_named(self, i: int, name: Seq<char>) -> bool {
        &&& 0 <= i < self.devices.len()
        &&& self.devices[i].name == Some(name)
        &&& forall|j: int| 0 <= j < i ==> self.devices[j].name != Some(name)
    }
}

impl Default for Gui {
    fn default() -> (r: Gui)
        ensures
            r@ == Seq::<char>::empty(),
    {
        Gui { api_key: String::new() }
    }
}

impl Configuration {
    /// Resolves a folder label to the folder's identifier: the first folder
    /// in document order whose label is exactly `label`.
    pub fn file_id<'a>(&'a self, label: &str) -> (r: Option<&'a str>)
        ensures
            text_of(r) == self@.file_id(label@),
    {
        let mut i: usize = 0;
        while i < self.folders.len()
            invariant
                i <= self.folders.len(),
                forall|j: int| 0 <= j < i ==> self@.folders[j].label != label@,
            decreases self.folders.len() - i,
        {
            if same_text(self.folders[i].label.as_str(), label) {
                proof {
                    law_first_label_wins(self@, i as int, label@);
                }
                return Some(self.folders[i].id.as_str());
            }
            i += 1;
        }
        proof {
            self@.folder_labels().index_of_first_ensures(label@);
        }
        None
    }

    /// The identifier of the folder labelled `label`, for an operation that
    /// cannot go on without it: a label that no folder carries is
    /// `LabelNotFound`, with the label and the kind `Folder`.
    pub fn require_folder<'a>(&'a self, label: &str) -> (r: Result<&'a str, SyncError>)
        ensures
            match r {
                Ok(id) => self@.file_id(label@) == Some(id@),
                Err(e) => {
                    &&& self@.file_id(label@) is None
                    &&& e matches SyncError::LabelNotFound { kind, label: missing }
                    &&& kind == LabelKind::Folder
                    &&& missing@ == label@
                },
            },
    {
        match self.file_id(label) {
            Some(id) => Ok(id),
            None => Err(
                SyncError::LabelNotFound { kind: LabelKind::Folder, label: label.to_owned() },
            ),
        }
    }

    /// The identifier of the device named `name`, for an operation that
    /// cannot go on without it: a name that no device carries is
    /// `LabelNotFound`, with the name and the kind `Device`.
    pub fn require_device<'a>(&'a self, name: &str) -> (r: Result<&'a str, SyncError>)
        ensures
            match r {
                Ok(id) => self@.device_id(name@) == Some(id@),
                Err(e) => {
                    &&& self@.device_id(name@) is None
                    &&& e matches SyncError::LabelNotFound { kind, label: missing }
                    &&& kind == LabelKind::Device
                    &&& missing@ == name@
                },
            },
    {
        match self.device_id(name) {
            Some(id) => Ok(id),
            None => Err(
                SyncError::LabelNotFound { kind: LabelKind::Device, label: name.to_owned() },
            ),
        }
    }

    /// Resolves a device name to the device's identifier: the first device
    /// in document order whose name is exactly `name`.
    pub fn device_id<'a>(&'a self, name: &str) -> (r: Option<&'a str>)
        ensures
            text_of(r) == self@.device_id(name@),
    {
        let mut i: usize = 0;
        while i < self.devices.len()
            invariant
                i <= self.devices.len(),
                forall|j: int| 0 <= j < i ==> self@.devices[j].name != Some(name@),
            decreases self.devices.len() - i,
        {
            let found = match &self.devices[i].name {
                Some(n) => same_text(n.as_str(), name),
                None => false,
            };
            if found {
                proof {
                    law_first_name_wins(self@, i as int, name@);
                }
                return Some(self.devices[i].id.as_str());
            }
            i += 1;
        }
        proof {
            self@.device_names().index_of_first_ensures(Some(name@));
        }
        None
    }
}

impl Folder {
    /// Whether the folder's reference list names the device `device_id`.
    pub fn refers_to(&self, device_id: &str) -> (r: bool)
        ensures
            r == self@.devices.contains(device_id@),
    {
        let mut i: usize = 0;
        while i < self.devices.len()
            invariant
                i <= self.devices.len(),
                forall|j: int| 0 <= j < i ==> self@.devices[j] != device_id@,
            decreases self.devices.len() - i,
        {
            if same_text(self.devices[i].id.as_str(), device_id) {
                assert(self@.devices[i as int] == device_id@);
                return true;
            }
            i += 1;
        }
        false
    }
}

/// The devices that `folder` is shared with, for display: the configured
/// devices that the folder refers to, without the daemon's own identity
/// `own_id`, in the order of the configuration's device list.
pub fn get_folder_devices<'a>(config: &'a Configuration, folder: &Folder, own_id: &str) -> (r: Vec<
    &'a Device,
>)
    ensures
        r@.map_values(|d: &Device| d@) == config@.shared_with(folder@, own_id@),
{
    let ghost keep = is_peer_of(folder@, own_id@);
    let ghost view = |d: &Device| d@;
    let mut out: Vec<&'a Device> = Vec::new();
    let mut i: usize = 0;
    assert(config@.devices.take(0) =~= Seq::empty());
    assert(out@.map_values(view) =~= Seq::empty());
    while i < config.devices.len()
        invariant
            i <= config.devices.len(),
            keep == is_peer_of(folder@, own_id@),
            view == |d: &Device| d@,
            out@.map_values(view) == config@.devices.take(i as int).filter(keep),
        decreases config.devices.len() - i,
    {
        let device = &config.devices[i];
        proof {
            config@.devices.lemma_take_succ_push(i as int);
            config@.devices.take(i as int).lemma_filter_push(device@, keep);
        }
        if folder.refers_to(device.id.as_str()) && !same_text(device.id.as_str(), own_id) {
            proof {
                out@.lemma_push_map_commute(view, device);
            }
            out.push(device);
        }
        i += 1;
    }
    proof {
        config@.devices.lemma_take_len();
    }
    out
}

/// Resolving the label of folder `i` gives back the identifier of folder `i`
/// whenever the first folder that carries this label has that identifier;
/// with an earlier folder of the same label and another identifier, the
/// earlier one is found instead.
pub proof fn law_folder_label_round_trip(c: ConfigurationView, i: int)
    requires
        0 <= i < c.folders.len(),
        forall|k: int|
            c.first_labelled(k, c.folders[i].label) ==> c.folders[k].id == c.folders[i].id,
    ensures
        c.file_id(c.folders[i].label) == Some(c.folders[i].id),
{
    let label = c.folders[i].label;
    let labels = c.folder_labels();
    assert(labels[i] == label);
    labels.index_of_first_ensures(label);
    let k = labels.index_of_first(label)->0;
    assert(c.first_labelled(k, label)) by {
        assert forall|j: int| 0 <= j < k implies c.folders[j].label != label by {
            assert(labels[j] != label);
        }
        assert(labels[k] == label);
    }
}

/// Resolving the name of device `i` gives back the identifier of device `i`
/// whenever the first device that carries this name has that identifier.
pub proof fn law_device_name_round_trip(c: ConfigurationView, i: int)
    requires
        0 <= i < c.devices.len(),
        c.devices[i].name is Some,
        forall|k: int|
            c.first_named(k, c.devices[i].name->0) ==> c.devices[k].id == c.devices[i].id,
    ensures
        c.device_id(c.devices[i].name->0) == Some(c.devices[i].id),
{
    let name = c.devices[i].name->0;
    let names = c.device_names();
    assert(names[i] == Some(name));
    names.index_of_first_ensures(Some(name));
    let k = names.index_of_first(Some(name))->0;
    assert(c.first_named(k, name)) by {
        assert forall|j: int| 0 <= j < k implies c.devices[j].name != Some(name) by {
            assert(names[j] != Some(name));
        }
        assert(names[k] == Some(name));
    }
}

/// A device is listed as a peer of a folder exactly when it is configured,
/// the folder refers to it, and it is not the daemon itself.
pub proof fn law_shared_with_membership(
    c: ConfigurationView,
    folder: FolderView,
    own_id: Seq<char>,
    d: DeviceView,
)
    ensures
        c.shared_with(folder, own_id).contains(d) <==> c.devices.contains(d)
            && folder.devices.contains(d.id) && d.id != own_id,
{
    let keep = is_peer_of(folder, own_id);
    let shared = c.devices.filter(keep);
    if shared.contains(d) {
        c.devices.lemma_filter_contains_rev(keep, d);
    }
    if c.devices.contains(d) && keep(d) {
        let i = choose|i: int| 0 <= i < c.devices.len() && c.devices[i] == d;
        c.devices.lemma_filter_contains(keep, i);
    }
}

/// The peers of a folder do not depend on the order of the folder's
/// reference list, nor on repetitions in it: two folders that refer to the
/// same set of devices have the same peers, in the same order.
pub proof fn law_shared_with_ignores_reference_order(
    c: ConfigurationView,
    a: FolderView,
    b: FolderView,
    own_id: Seq<char>,
)
    requires
        a.devices.to_set() == b.devices.to_set(),
    ensures
        c.shared_with(a, own_id) == c.shared_with(b, own_id),
{
    let keep_a = is_peer_of(a, own_id);
    let keep_b = is_peer_of(b, own_id);
    assert forall|d: DeviceView| #[trigger] keep_a(d) == keep_b(d) by {
        assert(a.devices.contains(d.id) == a.devices.to_set().contains(d.id));
        assert(b.devices.contains(d.id) == b.devices.to_set().contains(d.id));
    }
    assert(keep_a =~= keep_b);
}

/// Where several folders share a label, the label resolves to the identifier
/// of the one that comes first in document order.
pub proof fn law_first_label_wins(c: ConfigurationView, i: int, label: Seq<char>)
    requires
        c.first_labelled(i, label),
    ensures
        c.file_id(label) == Some(c.folders[i].id),
{
    let labels = c.folder_labels();
    labels.index_of_first_ensures(label);
    assert(labels[i] == label);
}

/// Where several devices share a name, the name resolves to the identifier
/// of the one that comes first in document order.
pub proof fn law_first_name_wins(c: ConfigurationView, i: int, name: Seq<char>)
    requires
        c.first_named(i, name),
    ensures
        c.device_id(name) == Some(c.devices[i].id),
{
    let names = c.device_names();
    names.index_of_first_ensures(Some(name));
    assert(names[i] == Some(name));
}

} // verus!
