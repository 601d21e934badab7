//! The directory listing of a folder, as the daemon sends it.

use vstd::prelude::*;
use vstd::std_specs::vec::axiom_vec_index_decreases;
use crate::json::{array_of, integer_of, json_array, json_i64, json_member, member};
use crate::remote::{read_string, string_member};

verus! {

/// An entry of a folder's directory listing: a file, or a directory with
/// the entries below it.
#[derive(Debug, PartialEq, Eq)]
pub struct FileInfoBrowse {
    pub name: String,
    pub mod_time: String,
    pub size: i64,
    pub file_type: String,
    pub children: Vec<FileInfoBrowse>,
}

/// An entry of a directory listing, as contracts see it.
pub struct FileInfoView {
    pub name: Seq<char>,
    pub mod_time: Seq<char>,
    pub size: int,
    pub file_type: Seq<char>,
    pub children: Seq<FileInfoView>,
}

impl FileInfoBrowse {
    /// The entry as contracts see it.
    pub open spec fn model(self) -> FileInfoView
        decreases self,
    {
        FileInfoView {
            name: self.name@,
            mod_time: self.mod_time@,
            size: self.size as int,
            file_type: self.file_type@,
            children: Seq::new(
                self.children@.len(),
                |i: int|
                    if 0 <= i < self.children@.len() {
                        proof {
                            axiom_vec_index_decreases(self.children, i);
                        }
                        self.children[i].model()
                    } else {
                        arbitrary()
                    },
            ),
        }
    }
}

impl View for FileInfoBrowse {
    type V = FileInfoView;

    open spec fn view(&self) -> FileInfoView {
        self.model()
    }
}

/// The entries of a sequence, as contracts see them.
pub open spec fn entries_view(entries: Seq<FileInfoBrowse>) -> Seq<FileInfoView> {
    entries.map_values(|e: FileInfoBrowse| e@)
}

/// The children of an entry's view are the views of its children.
pub proof fn lemma_entry_children(entry: FileInfoBrowse)
    ensures
        entry@.children == entries_view(entry.children@),
{
    let children = entry@.children;
    assert forall|i: int| 0 <= i < children.len() implies children[i] == entry.children@[i]@ by {
        assert(entry.children[i] == entry.children@[i]);
    }
    assert(children =~= entries_view(entry.children@));
}

/// How many directories deep a listing is read. A JSON text that
/// `serde_json` reads cannot nest a listing deeper than this.
pub const MAX_DEPTH: usize = 64;

/// The entry that a document describes, read at most `depth` levels deep:
/// an object with the strings `name`, `modTime` and `type`, the integer
/// `size`, and under `children`, where it has that key, the list of the
/// entries below it.
pub open spec fn entry_at(doc: serde_json::Value, depth: nat) -> Option<FileInfoView>
    decreases depth, 0nat,
{
    if depth == 0 {
        None
    } else {
        let children = match json_member(doc, "children"@) {
            Some(list) => match json_array(list) {
                Some(items) => entries_from(items, (depth - 1) as nat),
                None => None,
            },
            None => Some(Seq::empty()),
        };
        if string_member(doc, "name"@) is Some && string_member(doc, "modTime"@) is Some
            && json_member(doc, "size"@) is Some && json_i64(json_member(doc, "size"@)->0) is Some
            && string_member(doc, "type"@) is Some && children is Some {
            Some(
                FileInfoView {
                    name: string_member(doc, "name"@)->0,
                    mod_time: string_member(doc, "modTime"@)->0,
                    size: json_i64(json_member(doc, "size"@)->0)->0 as int,
                    file_type: string_member(doc, "type"@)->0,
                    children: children->0,
                },
            )
        } else {
            None
        }
    }
}

/// The entries that the items of a list describe, each read at most
/// `depth` levels deep: all of them in order, or none where one of the
/// items is no entry.
pub open spec fn entries_from(items: Seq<serde_json::Value>, depth: nat) -> Option<
    Seq<FileInfoView>,
>
    decreases depth, items.len(),
{
    if items.len() == 0 {
        Some(Seq::empty())
    } else {
        match (entries_from(items.drop_last(), depth), entry_at(items.last(), depth)) {
            (Some(front), Some(entry)) => Some(front.push(entry)),
            _ => None,
        }
    }
}

/// The entries that a list describes, read at most `depth` levels deep:
/// the list must be an array of entries.
pub open spec fn entries_at(list: serde_json::Value, depth: nat) -> Option<Seq<FileInfoView>> {
    match json_array(list) {
        Some(items) => entries_from(items, depth),
        None => None,
    }
}

/// Where one item of a list is no entry, the list gives no entries.
pub proof fn lemma_entries_from_missing(items: Seq<serde_json::Value>, depth: nat, i: int)
    requires
        0 <= i < items.len(),
        entry_at(items[i], depth) is None,
    ensures
        entries_from(items, depth) is None,
    decreases items.len(),
{
    if i < items.len() - 1 {
        lemma_entries_from_missing(items.drop_last(), depth, i);
    }
}

/// The directory listing that a document holds.
pub open spec fn listing_of(doc: serde_json::Value) -> Option<Seq<FileInfoView>> {
    entries_at(doc, MAX_DEPTH as nat)
}

/// Reads an entry, at most `depth` levels deep.
pub fn read_entry(doc: &serde_json::Value, depth: usize) -> (r: Option<FileInfoBrowse>)
    ensures
        match r {
            Some(entry) => entry_at(*doc, depth as nat) == Some(entry@),
            None => entry_at(*doc, depth as nat) is None,
        },
    decreases depth, 0nat,
{
    if depth == 0 {
        return None;
    }
    let children = match member(doc, "children") {
        Some(list) => read_entries(list, depth - 1),
        None => {
            let none: Vec<FileInfoBrowse> = Vec::new();
            proof {
                assert(entries_view(none@) =~= Seq::empty());
            }
            Some(none)
        },
    };
    let size = match member(doc, "size") {
        Some(number) => integer_of(number),
        None => None,
    };
    let name = read_string(doc, "name");
    let mod_time = read_string(doc, "modTime");
    let file_type = read_string(doc, "type");
    match (name, mod_time, size, file_type, children) {
        (Some(name), Some(mod_time), Some(size), Some(file_type), Some(children)) => {
            let entry = FileInfoBrowse { name, mod_time, size, file_type, children };
            proof {
                lemma_entry_children(entry);
            }
            Some(entry)
        },
        _ => None,
    }
}

/// Reads a list of entries, at most `depth` levels deep.
pub fn read_entries(list: &serde_json::Value, depth: usize) -> (r: Option<Vec<FileInfoBrowse>>)
    ensures
        match r {
            Some(entries) => entries_at(*list, depth as nat) == Some(entries_view(entries@)),
            None => entries_at(*list, depth as nat) is None,
        },
    decreases depth, 1nat,
{
    match array_of(list) {
        Some(items) => {
            let mut out: Vec<FileInfoBrowse> = Vec::new();
            let mut i: usize = 0;
            proof {
                assert(items@.take(0) =~= Seq::empty());
                assert(entries_view(out@) =~= Seq::empty());
            }
            while i < items.len()
                invariant
                    i <= items.len(),
                    json_array(*list) == Some(items@),
                    entries_from(items@.take(i as int), depth as nat) == Some(entries_view(out@)),
                decreases items.len() - i,
            {
                proof {
                    let next = items@.take(i + 1);
                    assert(next.drop_last() =~= items@.take(i as int));
                    assert(next.last() == items@[i as int]);
                }
                match read_entry(&items[i], depth) {
                    Some(entry) => {
                        proof {
                            assert(entries_view(out@.push(entry)) =~= entries_view(out@).push(
                                entry@,
                            ));
                        }
                        out.push(entry);
                    },
                    None => {
                        proof {
                            lemma_entries_from_missing(items@, depth as nat, i as int);
                        }
                        return None;
                    },
                }
                i += 1;
            }
            proof {
                items@.lemma_take_len();
            }
            Some(out)
        },
        None => None,
    }
}

} // verus!
