//! Reading the configuration out of an XML document.
//!
//! The document's root element may have any name. Directly inside it, each
//! element called `folder` or `folders` is a folder, each called `device` or
//! `devices` is a device, and one called `gui` holds the API key. A folder
//! gives its `id`, `label` and `path` either as an attribute or as an
//! element of that name, and each `device` or `devices` element inside it
//! refers to a device. Whatever else the document holds is passed over.
//! Folders and devices may stand in any order and between other elements,
//! and there may be none of them.
//!
//! Reading is all or nothing: a document that is not well-formed, or in
//! which a folder, a device or the `gui` element lacks what it must have or
//! has it twice, gives no configuration at all.

use vstd::prelude::*;
use crate::config::{
    Configuration, ConfigurationView, Device, DeviceView, Folder, FolderDevice, FolderView, Gui,
};
use crate::error::SyncError;
use crate::text::same_text;
use crate::xml::{
    document_root, optional_text, pairs_view, read_document, tokenize, xml_tokens, Element,
    TextPair, XmlNode,
};

verus! {

/// The test for the attributes called `name`.
pub open spec fn is_attribute(name: Seq<char>) -> spec_fn(TextPair) -> bool {
    |pair: TextPair| pair.0 == name
}

/// The test for the elements called `name`.
pub open spec fn is_called(name: Seq<char>) -> spec_fn(XmlNode) -> bool {
    |node: XmlNode| node.name == name
}

/// The test for the elements called `name` or `other`.
pub open spec fn is_called_either(name: Seq<char>, other: Seq<char>) -> spec_fn(XmlNode) -> bool {
    |node: XmlNode| node.name == name || node.name == other
}

/// The text that an element stands for as a value: its character data,
/// unless it has elements inside.
pub open spec fn element_text(node: XmlNode) -> Option<Seq<char>> {
    if node.children.len() == 0 {
        Some(node.text)
    } else {
        None
    }
}

/// The values of the attributes of `node` that are called `name`.
pub open spec fn attribute_texts(node: XmlNode, name: Seq<char>) -> Seq<Option<Seq<char>>> {
    node.attributes.filter(is_attribute(name)).map_values(|pair: TextPair| Some(pair.1))
}

/// The texts of the elements directly inside `node` that are called `name`;
/// `None` for one that has elements inside.
pub open spec fn child_texts(node: XmlNode, name: Seq<char>) -> Seq<Option<Seq<char>>> {
    node.children.filter(is_called(name)).map_values(|child: XmlNode| element_text(child))
}

/// The one value among `sources`: `None` unless there is exactly one source
/// and it is a text.
pub open spec fn single(sources: Seq<Option<Seq<char>>>) -> Option<Seq<char>> {
    if sources.len() == 1 {
        sources[0]
    } else {
        None
    }
}

/// A value that `node` gives either as the attribute `name` or as the
/// element `name` inside it: the text, where it is given exactly once.
pub open spec fn field(node: XmlNode, name: Seq<char>) -> Option<Seq<char>> {
    single(attribute_texts(node, name) + child_texts(node, name))
}

/// All the values of `items`, where none is missing.
pub open spec fn all_of<T>(items: Seq<Option<T>>) -> Option<Seq<T>> {
    if forall|i: int| 0 <= i < items.len() ==> (#[trigger] items[i]) is Some {
        Some(items.map_values(|item: Option<T>| item->0))
    } else {
        None
    }
}

/// The device that a `device` element inside a folder refers to: given
/// once, as the element `deviceID` or as the attribute `id`.
pub open spec fn folder_device_of(node: XmlNode) -> Option<Seq<char>> {
    single(child_texts(node, "deviceID"@) + attribute_texts(node, "id"@))
}

/// The devices that the `device` and `devices` elements inside a folder
/// refer to, in document order.
pub open spec fn folder_devices_of(node: XmlNode) -> Option<Seq<Seq<char>>> {
    all_of(
        node.children.filter(is_called_either("device"@, "devices"@)).map_values(
            |child: XmlNode| folder_device_of(child),
        ),
    )
}

/// The folder that a `folder` element describes.
pub open spec fn folder_of(node: XmlNode) -> Option<FolderView> {
    if field(node, "id"@) is Some && field(node, "label"@) is Some && field(node, "path"@) is Some
        && folder_devices_of(node) is Some {
        Some(
            FolderView {
                id: field(node, "id"@)->0,
                label: field(node, "label"@)->0,
                path: field(node, "path"@)->0,
                devices: folder_devices_of(node)->0,
            },
        )
    } else {
        None
    }
}

/// The device that a `device` element describes: its attribute `id`, and
/// its attribute `name` if it has one.
pub open spec fn device_of(node: XmlNode) -> Option<DeviceView> {
    if single(attribute_texts(node, "id"@)) is Some && attribute_texts(node, "name"@).len() <= 1 {
        Some(
            DeviceView {
                id: single(attribute_texts(node, "id"@))->0,
                name: single(attribute_texts(node, "name"@)),
            },
        )
    } else {
        None
    }
}

/// The API key that a `gui` element holds: the text of the one element
/// `apikey` inside it.
pub open spec fn gui_of(node: XmlNode) -> Option<Seq<char>> {
    single(child_texts(node, "apikey"@))
}

/// The API key of a document with the given `gui` elements: empty without
/// such an element, and undefined with more than one.
pub open spec fn api_key_of(guis: Seq<XmlNode>) -> Option<Seq<char>> {
    if guis.len() == 0 {
        Some(Seq::empty())
    } else if guis.len() == 1 {
        gui_of(guis[0])
    } else {
        None
    }
}

/// The folders of a document, in document order.
pub open spec fn folders_of(root: XmlNode) -> Option<Seq<FolderView>> {
    all_of(
        root.children.filter(is_called_either("folder"@, "folders"@)).map_values(
            |child: XmlNode| folder_of(child),
        ),
    )
}

/// The devices of a document, in document order.
pub open spec fn devices_of(root: XmlNode) -> Option<Seq<DeviceView>> {
    all_of(
        root.children.filter(is_called_either("device"@, "devices"@)).map_values(
            |child: XmlNode| device_of(child),
        ),
    )
}

/// The configuration that a document with the given root element holds.
pub open spec fn configuration_of(root: XmlNode) -> Option<ConfigurationView> {
    if folders_of(root) is Some && devices_of(root) is Some && api_key_of(
        root.children.filter(is_called("gui"@)),
    ) is Some {
        Some(
            ConfigurationView {
                folders: folders_of(root)->0,
                devices: devices_of(root)->0,
                api_key: api_key_of(root.children.filter(is_called("gui"@)))->0,
            },
        )
    } else {
        None
    }
}

/// The configuration that an XML text holds.
pub open spec fn parsed(text: Seq<char>) -> Option<ConfigurationView> {
    match document_root(xml_tokens(text)) {
        Some(root) => configuration_of(root),
        None => None,
    }
}

/// The characters of each of a sequence of optional strings.
pub open spec fn options_view(items: Seq<Option<String>>) -> Seq<Option<Seq<char>>> {
    items.map_values(|item: Option<String>| optional_text(item))
}

/// Adds the values of the attributes called `name` to `out`.
fn push_attribute_texts(element: &Element, name: &str, out: &mut Vec<Option<String>>)
    ensures
        options_view(final(out)@) == options_view(old(out)@) + attribute_texts(element@, name@),
{
    let ghost pairs = element@.attributes;
    let ghost wanted = is_attribute(name@);
    let ghost value = |pair: TextPair| Some(pair.1);
    let ghost start = options_view(out@);
    let mut i: usize = 0;
    proof {
        assert(pairs.take(0).filter(wanted) =~= Seq::empty()) by {
            reveal(Seq::filter);
        }
        assert(start + pairs.take(0).filter(wanted).map_values(value) =~= start);
    }
    while i < element.attributes.len()
        invariant
            i <= element.attributes.len(),
            pairs == element@.attributes,
            pairs == pairs_view(element.attributes@),
            wanted == is_attribute(name@),
            value == |pair: TextPair| Some(pair.1),
            options_view(out@) == start + pairs.take(i as int).filter(wanted).map_values(value),
        decreases element.attributes.len() - i,
    {
        proof {
            pairs.lemma_take_succ_push(i as int);
            pairs.take(i as int).lemma_filter_push(pairs[i as int], wanted);
        }
        if same_text(element.attributes[i].0.as_str(), name) {
            let text = element.attributes[i].1.clone();
            proof {
                let kept = pairs.take(i as int).filter(wanted);
                kept.lemma_push_map_commute(value, pairs[i as int]);
                assert(options_view(out@.push(Some(text))) =~= options_view(out@).push(
                    Some(text@),
                ));
                assert((start + kept.map_values(value)).push(Some(text@)) =~= start
                    + kept.map_values(value).push(Some(text@)));
            }
            out.push(Some(text));
        }
        i += 1;
    }
    proof {
        pairs.lemma_take_len();
    }
}

/// The text that an element stands for as a value.
fn text_of_element(element: &Element) -> (r: Option<String>)
    ensures
        optional_text(r) == element_text(element@),
{
    if element.children.len() == 0 {
        Some(element.text.clone())
    } else {
        None
    }
}

/// The children of an element, as contracts see them, one by one.
proof fn lemma_child_view(element: Element, i: int)
    requires
        0 <= i < element.children@.len(),
    ensures
        element@.children.len() == element.children@.len(),
        element@.children[i] == element.children@[i]@,
{
    crate::xml::lemma_children_view(element);
}

/// Adds the texts of the elements called `name` inside `element` to `out`.
fn push_child_texts(element: &Element, name: &str, out: &mut Vec<Option<String>>)
    ensures
        options_view(final(out)@) == options_view(old(out)@) + child_texts(element@, name@),
{
    let ghost nodes = element@.children;
    let ghost wanted = is_called(name@);
    let ghost value = |child: XmlNode| element_text(child);
    let ghost start = options_view(out@);
    let mut i: usize = 0;
    proof {
        crate::xml::lemma_children_view(*element);
        assert(nodes.take(0).filter(wanted) =~= Seq::empty()) by {
            reveal(Seq::filter);
        }
        assert(start + nodes.take(0).filter(wanted).map_values(value) =~= start);
    }
    while i < element.children.len()
        invariant
            i <= element.children.len(),
            nodes == element@.children,
            nodes.len() == element.children@.len(),
            wanted == is_called(name@),
            value == |child: XmlNode| element_text(child),
            options_view(out@) == start + nodes.take(i as int).filter(wanted).map_values(value),
        decreases element.children.len() - i,
    {
        proof {
            lemma_child_view(*element, i as int);
            nodes.lemma_take_succ_push(i as int);
            nodes.take(i as int).lemma_filter_push(nodes[i as int], wanted);
        }
        if same_text(element.children[i].name.as_str(), name) {
            let text = text_of_element(&element.children[i]);
            proof {
                let kept = nodes.take(i as int).filter(wanted);
                kept.lemma_push_map_commute(value, nodes[i as int]);
                assert(options_view(out@.push(text)) =~= options_view(out@).push(
                    optional_text(text),
                ));
                assert((start + kept.map_values(value)).push(optional_text(text)) =~= start
                    + kept.map_values(value).push(optional_text(text)));
            }
            out.push(text);
        }
        i += 1;
    }
    proof {
        nodes.lemma_take_len();
    }
}

/// The one value among the sources.
fn only(sources: Vec<Option<String>>) -> (r: Option<String>)
    ensures
        optional_text(r) == single(options_view(sources@)),
{
    let mut sources = sources;
    if sources.len() == 1 {
        match sources.pop() {
            Some(value) => value,
            None => None,
        }
    } else {
        None
    }
}

/// A value given as the attribute `name` or as the element `name`.
fn read_field(element: &Element, name: &str) -> (r: Option<String>)
    ensures
        optional_text(r) == field(element@, name@),
{
    let mut sources: Vec<Option<String>> = Vec::new();
    push_attribute_texts(element, name, &mut sources);
    push_child_texts(element, name, &mut sources);
    proof {
        assert(options_view(Seq::<Option<String>>::empty()) + attribute_texts(element@, name@)
            =~= attribute_texts(element@, name@));
    }
    only(sources)
}

/// The values of the attribute `name`.
fn read_attribute(element: &Element, name: &str) -> (r: Vec<Option<String>>)
    ensures
        options_view(r@) == attribute_texts(element@, name@),
{
    let mut sources: Vec<Option<String>> = Vec::new();
    push_attribute_texts(element, name, &mut sources);
    proof {
        assert(options_view(Seq::<Option<String>>::empty()) + attribute_texts(element@, name@)
            =~= attribute_texts(element@, name@));
    }
    sources
}

/// Reads a reference from a folder to a device.
pub fn read_folder_device(element: &Element) -> (r: Option<FolderDevice>)
    ensures
        match r {
            Some(device) => folder_device_of(element@) == Some(device@),
            None => folder_device_of(element@) is None,
        },
{
    let mut sources: Vec<Option<String>> = Vec::new();
    push_child_texts(element, "deviceID", &mut sources);
    push_attribute_texts(element, "id", &mut sources);
    proof {
        assert(options_view(Seq::<Option<String>>::empty()) + child_texts(element@, "deviceID"@)
            =~= child_texts(element@, "deviceID"@));
    }
    match only(sources) {
        Some(id) => Some(FolderDevice { id }),
        None => None,
    }
}

/// Reading one more item: the items read so far, followed by this one, are
/// all the items up to here; and with one item missing, not all are there.
pub proof fn lemma_all_of_push<T>(items: Seq<Option<T>>, item: Option<T>)
    ensures
        all_of(items.push(item)) == match (all_of(items), item) {
            (Some(values), Some(value)) => Some(values.push(value)),
            _ => None,
        },
{
    let more = items.push(item);
    let pick = |item: Option<T>| item->0;
    if all_of(items) is Some && item is Some {
        assert forall|i: int| 0 <= i < more.len() implies (#[trigger] more[i]) is Some by {
            if i < items.len() {
                assert(items[i] is Some);
            }
        }
        assert(more.map_values(pick) =~= items.map_values(pick).push(item->0));
    } else if item is None {
        assert(more[items.len() as int] is None);
    } else {
        let i = choose|i: int| 0 <= i < items.len() && !((#[trigger] items[i]) is Some);
        assert(more[i] == items[i]);
    }
}

/// The references from a folder to devices, in document order.
fn read_folder_devices(element: &Element) -> (r: Option<Vec<FolderDevice>>)
    ensures
        match r {
            Some(items) => folder_devices_of(element@) == Some(
                items@.map_values(|x: FolderDevice| x@),
            ),
            None => folder_devices_of(element@) is None,
        },
{
    let ghost nodes = element@.children;
    let ghost wanted = is_called_either("device"@, "devices"@);
    let ghost value = |child: XmlNode| folder_device_of(child);
    let ghost view = |x: FolderDevice| x@;
    let mut out: Vec<FolderDevice> = Vec::new();
    let mut i: usize = 0;
    proof {
        crate::xml::lemma_children_view(*element);
        assert(nodes.take(0).filter(wanted) =~= Seq::empty()) by {
            reveal(Seq::filter);
        }
        assert(nodes.take(0).filter(wanted).map_values(value) =~= Seq::empty());
        assert(out@.map_values(view) =~= Seq::empty());
        assert(Seq::<Option<Seq<char>>>::empty().map_values(|item: Option<Seq<char>>| item->0)
            =~= Seq::empty());
    }
    while i < element.children.len()
        invariant
            i <= element.children.len(),
            nodes == element@.children,
            nodes.len() == element.children@.len(),
            wanted == is_called_either("device"@, "devices"@),
            value == |child: XmlNode| folder_device_of(child),
            view == |x: FolderDevice| x@,
            all_of(nodes.take(i as int).filter(wanted).map_values(value)) == Some(
                out@.map_values(view),
            ),
        decreases element.children.len() - i,
    {
        let child = &element.children[i];
        proof {
            lemma_child_view(*element, i as int);
            nodes.lemma_take_succ_push(i as int);
            nodes.take(i as int).lemma_filter_push(nodes[i as int], wanted);
        }
        if same_text(child.name.as_str(), "device") || same_text(child.name.as_str(), "devices") {
            let item = read_folder_device(child);
            proof {
                let kept = nodes.take(i as int).filter(wanted);
                kept.lemma_push_map_commute(value, nodes[i as int]);
                lemma_all_of_push(kept.map_values(value), folder_device_of(nodes[i as int]));
            }
            match item {
                Some(x) => {
                    proof {
                        out@.lemma_push_map_commute(view, x);
                    }
                    out.push(x);
                },
                None => {
                    proof {
                        lemma_all_of_prefix(nodes, wanted, value, i + 1);
                    }
                    return None;
                },
            }
        }
        i += 1;
    }
    proof {
        nodes.lemma_take_len();
    }
    Some(out)
}

/// Where the items up to some place are not all there, the items of the
/// whole are not all there either.
proof fn lemma_all_of_prefix<A, T>(
    nodes: Seq<A>,
    wanted: spec_fn(A) -> bool,
    value: spec_fn(A) -> Option<T>,
    upto: int,
)
    requires
        0 <= upto <= nodes.len(),
        all_of(nodes.take(upto).filter(wanted).map_values(value)) is None,
    ensures
        all_of(nodes.filter(wanted).map_values(value)) is None,
{
    let front = nodes.take(upto).filter(wanted);
    let whole = nodes.filter(wanted);
    assert(nodes =~= nodes.take(upto) + nodes.skip(upto));
    Seq::filter_distributes_over_add(nodes.take(upto), nodes.skip(upto), wanted);
    let missing = front.map_values(value);
    let i = choose|i: int| 0 <= i < missing.len() && !((#[trigger] missing[i]) is Some);
    assert(whole[i] == front[i]);
    assert(whole.map_values(value)[i] == front.map_values(value)[i]);
}

/// Reads a folder.
pub fn read_folder(element: &Element) -> (r: Option<Folder>)
    ensures
        match r {
            Some(folder) => folder_of(element@) == Some(folder@),
            None => folder_of(element@) is None,
        },
{
    let id = read_field(element, "id");
    let label = read_field(element, "label");
    let path = read_field(element, "path");
    let devices = read_folder_devices(element);
    match (id, label, path, devices) {
        (Some(id), Some(label), Some(path), Some(devices)) => Some(
            Folder { id, label, path, devices },
        ),
        _ => None,
    }
}

/// Reads a device.
pub fn read_device(element: &Element) -> (r: Option<Device>)
    ensures
        match r {
            Some(device) => device_of(element@) == Some(device@),
            None => device_of(element@) is None,
        },
{
    let id = only(read_attribute(element, "id"));
    let names = read_attribute(element, "name");
    if names.len() > 1 {
        return None;
    }
    let name = only(names);
    match id {
        Some(id) => Some(Device { id, name }),
        None => None,
    }
}

/// The folders of a document, in document order.
fn read_folders(element: &Element) -> (r: Option<Vec<Folder>>)
    ensures
        match r {
            Some(items) => folders_of(element@) == Some(
                items@.map_values(|x: Folder| x@),
            ),
            None => folders_of(element@) is None,
        },
{
    let ghost nodes = element@.children;
    let ghost wanted = is_called_either("folder"@, "folders"@);
    let ghost value = |child: XmlNode| folder_of(child);
    let ghost view = |x: Folder| x@;
    let mut out: Vec<Folder> = Vec::new();
    let mut i: usize = 0;
    proof {
        crate::xml::lemma_children_view(*element);
        assert(nodes.take(0).filter(wanted) =~= Seq::empty()) by {
            reveal(Seq::filter);
        }
        assert(nodes.take(0).filter(wanted).map_values(value) =~= Seq::empty());
        assert(out@.map_values(view) =~= Seq::empty());
        assert(Seq::<Option<FolderView>>::empty().map_values(|item: Option<FolderView>| item->0)
            =~= Seq::empty());
    }
    while i < element.children.len()
        invariant
            i <= element.children.len(),
            nodes == element@.children,
            nodes.len() == element.children@.len(),
            wanted == is_called_either("folder"@, "folders"@),
            value == |child: XmlNode| folder_of(child),
            view == |x: Folder| x@,
            all_of(nodes.take(i as int).filter(wanted).map_values(value)) == Some(
                out@.map_values(view),
            ),
        decreases element.children.len() - i,
    {
        let child = &element.children[i];
        proof {
            lemma_child_view(*element, i as int);
            nodes.lemma_take_succ_push(i as int);
            nodes.take(i as int).lemma_filter_push(nodes[i as int], wanted);
        }
        if same_text(child.name.as_str(), "folder") || same_text(child.name.as_str(), "folders") {
            let item = read_folder(child);
            proof {
                let kept = nodes.take(i as int).filter(wanted);
                kept.lemma_push_map_commute(value, nodes[i as int]);
                lemma_all_of_push(kept.map_values(value), folder_of(nodes[i as int]));
            }
            match item {
                Some(x) => {
                    proof {
                        out@.lemma_push_map_commute(view, x);
                    }
                    out.push(x);
                },
                None => {
                    proof {
                        lemma_all_of_prefix(nodes, wanted, value, i + 1);
                    }
                    return None;
                },
            }
        }
        i += 1;
    }
    proof {
        nodes.lemma_take_len();
    }
    Some(out)
}

/// The devices of a document, in document order.
fn read_devices(element: &Element) -> (r: Option<Vec<Device>>)
    ensures
        match r {
            Some(items) => devices_of(element@) == Some(
                items@.map_values(|x: Device| x@),
            ),
            None => devices_of(element@) is None,
        },
{
    let ghost nodes = element@.children;
    let ghost wanted = is_called_either("device"@, "devices"@);
    let ghost value = |child: XmlNode| device_of(child);
    let ghost view = |x: Device| x@;
    let mut out: Vec<Device> = Vec::new();
    let mut i: usize = 0;
    proof {
        crate::xml::lemma_children_view(*element);
        assert(nodes.take(0).filter(wanted) =~= Seq::empty()) by {
            reveal(Seq::filter);
        }
        assert(nodes.take(0).filter(wanted).map_values(value) =~= Seq::empty());
        assert(out@.map_values(view) =~= Seq::empty());
        assert(Seq::<Option<DeviceView>>::empty().map_values(|item: Option<DeviceView>| item->0)
            =~= Seq::empty());
    }
    while i < element.children.len()
        invariant
            i <= element.children.len(),
            nodes == element@.children,
            nodes.len() == element.children@.len(),
            wanted == is_called_either("device"@, "devices"@),
            value == |child: XmlNode| device_of(child),
            view == |x: Device| x@,
            all_of(nodes.take(i as int).filter(wanted).map_values(value)) == Some(
                out@.map_values(view),
            ),
        decreases element.children.len() - i,
    {
        let child = &element.children[i];
        proof {
            lemma_child_view(*element, i as int);
            nodes.lemma_take_succ_push(i as int);
            nodes.take(i as int).lemma_filter_push(nodes[i as int], wanted);
        }
        if same_text(child.name.as_str(), "device") || same_text(child.name.as_str(), "devices") {
            let item = read_device(child);
            proof {
                let kept = nodes.take(i as int).filter(wanted);
                kept.lemma_push_map_commute(value, nodes[i as int]);
                lemma_all_of_push(kept.map_values(value), device_of(nodes[i as int]));
            }
            match item {
                Some(x) => {
                    proof {
                        out@.lemma_push_map_commute(view, x);
                    }
                    out.push(x);
                },
                None => {
                    proof {
                        lemma_all_of_prefix(nodes, wanted, value, i + 1);
                    }
                    return None;
                },
            }
        }
        i += 1;
    }
    proof {
        nodes.lemma_take_len();
    }
    Some(out)
}

/// Reads the `gui` element.
pub fn read_gui(element: &Element) -> (r: Option<Gui>)
    ensures
        match r {
            Some(gui) => gui_of(element@) == Some(gui@),
            None => gui_of(element@) is None,
        },
{
    let mut sources: Vec<Option<String>> = Vec::new();
    push_child_texts(element, "apikey", &mut sources);
    proof {
        assert(options_view(Seq::<Option<String>>::empty()) + child_texts(element@, "apikey"@)
            =~= child_texts(element@, "apikey"@));
    }
    match only(sources) {
        Some(api_key) => Some(Gui { api_key }),
        None => None,
    }
}

/// Reads the API key of a document: that of its one `gui` element, the
/// empty key where it has none.
fn read_api_key(root: &Element) -> (r: Option<Gui>)
    ensures
        match r {
            Some(gui) => api_key_of(root@.children.filter(is_called("gui"@))) == Some(gui@),
            None => api_key_of(root@.children.filter(is_called("gui"@))) is None,
        },
{
    let ghost nodes = root@.children;
    let ghost wanted = is_called("gui"@);
    let mut found: Option<Option<Gui>> = None;
    let mut i: usize = 0;
    proof {
        crate::xml::lemma_children_view(*root);
        assert(nodes.take(0).filter(wanted) =~= Seq::empty()) by {
            reveal(Seq::filter);
        }
    }
    while i < root.children.len()
        invariant
            i <= root.children.len(),
            nodes == root@.children,
            nodes.len() == root.children@.len(),
            wanted == is_called("gui"@),
            match found {
                None => nodes.take(i as int).filter(wanted).len() == 0,
                Some(gui) => {
                    &&& nodes.take(i as int).filter(wanted).len() == 1
                    &&& match gui {
                        Some(g) => gui_of(nodes.take(i as int).filter(wanted)[0]) == Some(g@),
                        None => gui_of(nodes.take(i as int).filter(wanted)[0]) is None,
                    }
                },
            },
        decreases root.children.len() - i,
    {
        let child = &root.children[i];
        proof {
            lemma_child_view(*root, i as int);
            nodes.lemma_take_succ_push(i as int);
            nodes.take(i as int).lemma_filter_push(nodes[i as int], wanted);
        }
        if same_text(child.name.as_str(), "gui") {
            if found.is_some() {
                proof {
                    let front = nodes.take(i + 1);
                    assert(nodes =~= front + nodes.skip(i + 1));
                    Seq::filter_distributes_over_add(front, nodes.skip(i + 1), wanted);
                }
                return None;
            }
            found = Some(read_gui(child));
        }
        i += 1;
    }
    proof {
        nodes.lemma_take_len();
    }
    match found {
        None => Some(Gui::default()),
        Some(gui) => gui,
    }
}

/// Reads the configuration out of a document's root element.
pub fn read_configuration(root: &Element) -> (r: Option<Configuration>)
    ensures
        match r {
            Some(config) => configuration_of(root@) == Some(config@),
            None => configuration_of(root@) is None,
        },
{
    let folders = read_folders(root);
    let devices = read_devices(root);
    let gui = read_api_key(root);
    match (folders, devices, gui) {
        (Some(folders), Some(devices), Some(gui)) => Some(Configuration { folders, devices, gui }),
        _ => None,
    }
}

impl Configuration {
    /// Reads the configuration out of the text of a configuration file.
    ///
    /// A text that is no well-formed XML document, or whose elements do not
    /// have the expected shape, is `ConfigMalformed`; nothing is made of the
    /// parts that could be read.
    pub fn parse(text: &str) -> (r: Result<Configuration, SyncError>)
        ensures
            match r {
                Ok(config) => parsed(text@) == Some(config@),
                Err(e) => parsed(text@) is None && e == SyncError::ConfigMalformed,
            },
    {
        let tokens = tokenize(text);
        match read_document(&tokens) {
            Some(root) => match read_configuration(&root) {
                Some(config) => Ok(config),
                None => Err(SyncError::ConfigMalformed),
            },
            None => Err(SyncError::ConfigMalformed),
        }
    }

    /// Reads the configuration out of what was read from the configuration
    /// file, if the file could be read: without it the outcome is
    /// `ConfigNotFound`.
    pub fn parse_file(contents: Option<&str>) -> (r: Result<Configuration, SyncError>)
        ensures
            match r {
                Ok(config) => contents matches Some(text) && parsed(text@) == Some(config@),
                Err(e) => match contents {
                    Some(text) => parsed(text@) is None && e == SyncError::ConfigMalformed,
                    None => e == SyncError::ConfigNotFound,
                },
            },
    {
        match contents {
            Some(text) => Configuration::parse(text),
            None => Err(SyncError::ConfigNotFound),
        }
    }
}

} // verus!
