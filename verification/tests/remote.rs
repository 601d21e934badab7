use syncth::api::{fetch_folder_contents, get_config, Reply};
use syncth::browse::{read_entries, read_entry, FileInfoBrowse, MAX_DEPTH};
use syncth::config::{Configuration, Device, Folder, FolderDevice, Gui};
use syncth::error::SyncError;
use syncth::remote::{read_remote_configuration, read_remote_device, read_remote_folder};

fn answer(body: &str) -> Reply {
    Reply::Answer { status: 200, body: body.to_string() }
}

fn doc(text: &str) -> serde_json::Value {
    serde_json::from_str(text).unwrap()
}

fn file(name: &str, size: i64) -> FileInfoBrowse {
    FileInfoBrowse {
        name: name.to_string(),
        mod_time: "2024-01-02T03:04:05Z".to_string(),
        size,
        file_type: "file".to_string(),
        children: vec![],
    }
}

#[test]
fn reads_a_directory_listing() {
    let body = r#"[
        {"name": "a.txt", "modTime": "2024-01-02T03:04:05Z", "size": 12, "type": "file"},
        {"name": "dir", "modTime": "2020-01-01T00:00:00Z", "size": 128, "type": "directory",
         "children": [
            {"name": "b.txt", "modTime": "2024-01-02T03:04:05Z", "size": 0, "type": "file", "extra": true},
            {"name": "empty", "modTime": "", "size": -1, "type": "directory", "children": []}
         ]}
    ]"#;
    let listing = fetch_folder_contents(&answer(body)).unwrap();
    assert_eq!(
        listing,
        vec![
            file("a.txt", 12),
            FileInfoBrowse {
                name: "dir".to_string(),
                mod_time: "2020-01-01T00:00:00Z".to_string(),
                size: 128,
                file_type: "directory".to_string(),
                children: vec![
                    file("b.txt", 0),
                    FileInfoBrowse {
                        name: "empty".to_string(),
                        mod_time: String::new(),
                        size: -1,
                        file_type: "directory".to_string(),
                        children: vec![],
                    },
                ],
            },
        ]
    );
    assert_eq!(fetch_folder_contents(&answer("[]")), Ok(vec![]));
}

#[test]
fn refuses_listings_of_another_shape() {
    for body in [
        "{}",
        "null",
        r#"[1]"#,
        r#"[{"name": "a", "modTime": "t", "size": 1}]"#,
        r#"[{"name": "a", "modTime": "t", "type": "file"}]"#,
        r#"[{"name": "a", "size": 1, "type": "file"}]"#,
        r#"[{"modTime": "t", "size": 1, "type": "file"}]"#,
        r#"[{"name": "a", "modTime": "t", "size": 1.5, "type": "file"}]"#,
        r#"[{"name": "a", "modTime": "t", "size": "1", "type": "file"}]"#,
        r#"[{"name": "a", "modTime": "t", "size": 9223372036854775808, "type": "file"}]"#,
        r#"[{"name": 1, "modTime": "t", "size": 1, "type": "file"}]"#,
        r#"[{"name": "a", "modTime": "t", "size": 1, "type": "file", "children": null}]"#,
        r#"[{"name": "a", "modTime": "t", "size": 1, "type": "file", "children": [{}]}]"#,
    ] {
        assert_eq!(fetch_folder_contents(&answer(body)), Err(SyncError::UnexpectedShape), "{}", body);
    }
    assert_eq!(
        fetch_folder_contents(&Reply::Answer { status: 404, body: "[]".to_string() }),
        Err(SyncError::RemoteFetchError { status: Some(404) })
    );
    assert_eq!(
        fetch_folder_contents(&answer("[")),
        Err(SyncError::RemoteFetchError { status: Some(200) })
    );
    assert_eq!(
        fetch_folder_contents(&Reply::Unreachable),
        Err(SyncError::RemoteFetchError { status: None })
    );
}

#[test]
fn listings_are_read_to_a_bounded_depth() {
    assert_eq!(MAX_DEPTH, 64);
    let entry = doc(r#"{"name": "d", "modTime": "t", "size": 1, "type": "directory",
        "children": [{"name": "f", "modTime": "t", "size": 2, "type": "file"}]}"#);
    assert_eq!(read_entry(&entry, 0), None);
    assert_eq!(read_entry(&entry, 1), None);
    assert_eq!(read_entry(&entry, 2).unwrap().children.len(), 1);
    let list = doc(&format!("[{}]", entry));
    assert_eq!(read_entries(&list, 1), None);
    assert_eq!(read_entries(&list, 2).unwrap().len(), 1);
    assert_eq!(read_entries(&doc("[]"), 0), Some(vec![]));
    let largest = doc(r#"{"name": "", "modTime": "", "size": 9223372036854775807, "type": ""}"#);
    assert_eq!(read_entry(&largest, 1).unwrap().size, i64::MAX);
}

fn nested_listing(levels: usize) -> String {
    let mut body = String::new();
    for _ in 1..levels {
        body.push_str(r#"[{"name": "d", "modTime": "t", "size": 1, "type": "directory", "children": "#);
    }
    body.push_str(r#"[{"name": "f", "modTime": "t", "size": 1, "type": "file"}]"#);
    for _ in 1..levels {
        body.push_str("}]");
    }
    body
}

#[test]
fn deepest_listing_that_a_text_can_hold_is_read() {
    let mut entries = fetch_folder_contents(&answer(&nested_listing(63))).unwrap();
    let mut depth = 0;
    while let Some(entry) = entries.pop() {
        depth += 1;
        entries = entry.children;
    }
    assert_eq!(depth, 63);
    assert_eq!(
        fetch_folder_contents(&answer(&nested_listing(64))),
        Err(SyncError::RemoteFetchError { status: Some(200) })
    );
}

#[test]
fn reads_a_configuration_document() {
    let body = r#"{
        "version": 37,
        "folder": [
            {"@id": "f1", "@label": "One", "@path": "/one", "device": [{"deviceID": "A"}, {"@id": "B"}]},
            {"id": "f2", "label": "Two", "path": "/two", "devices": []}
        ],
        "devices": [
            {"@id": "A", "@name": "laptop"},
            {"@id": "B", "@name": null},
            {"@id": "C", "other": 1}
        ],
        "gui": {"apikey": "k", "theme": "dark"}
    }"#;
    assert_eq!(
        get_config(&answer(body)),
        Ok(Configuration {
            folders: vec![
                Folder {
                    id: "f1".to_string(),
                    label: "One".to_string(),
                    path: "/one".to_string(),
                    devices: vec![FolderDevice { id: "A".to_string() }, FolderDevice { id: "B".to_string() }],
                },
                Folder {
                    id: "f2".to_string(),
                    label: "Two".to_string(),
                    path: "/two".to_string(),
                    devices: vec![],
                },
            ],
            devices: vec![
                Device { id: "A".to_string(), name: Some("laptop".to_string()) },
                Device { id: "B".to_string(), name: None },
                Device { id: "C".to_string(), name: None },
            ],
            gui: Gui { api_key: "k".to_string() },
        })
    );
    assert_eq!(
        get_config(&answer("{}")),
        Ok(Configuration { folders: vec![], devices: vec![], gui: Gui::default() })
    );
}

#[test]
fn refuses_configuration_documents_of_another_shape() {
    for body in [
        "[]",
        "null",
        "3",
        r#"{"folder": [], "folders": []}"#,
        r#"{"device": [], "devices": []}"#,
        r#"{"folder": {}}"#,
        r#"{"devices": null}"#,
        r#"{"gui": null}"#,
        r#"{"gui": {}}"#,
        r#"{"gui": {"apikey": 5}}"#,
        r#"{"folder": [{"@id": "f", "id": "f", "label": "l", "path": "p"}]}"#,
        r#"{"folder": [{"label": "l", "path": "p"}]}"#,
        r#"{"folder": [{"id": "f", "label": "l", "path": 1}]}"#,
        r#"{"folder": [{"id": "f", "label": "l", "path": "p", "device": [{}]}]}"#,
        r#"{"folder": [{"id": "f", "label": "l", "path": "p", "device": [{"deviceID": "A", "@id": "A"}]}]}"#,
        r#"{"device": [{"id": "A"}]}"#,
        r#"{"device": [{"@id": "A", "@name": 5}]}"#,
        r#"{"device": ["A"]}"#,
    ] {
        assert_eq!(get_config(&answer(body)), Err(SyncError::UnexpectedShape), "{}", body);
    }
    assert_eq!(get_config(&Reply::Unreachable), Err(SyncError::RemoteFetchError { status: None }));
    assert_eq!(
        get_config(&Reply::Answer { status: 500, body: "{}".to_string() }),
        Err(SyncError::RemoteFetchError { status: Some(500) })
    );
}

#[test]
fn reads_single_folders_and_devices() {
    assert_eq!(read_remote_configuration(&doc("7")), None);
    assert_eq!(
        read_remote_device(&doc(r#"{"@id": "A", "@name": ""}"#)),
        Some(Device { id: "A".to_string(), name: Some(String::new()) })
    );
    assert_eq!(read_remote_device(&doc(r#"{"@name": "x"}"#)), None);
    assert_eq!(
        read_remote_folder(&doc(r#"{"@id": "f", "label": "l", "@path": "p"}"#)),
        Some(Folder { id: "f".to_string(), label: "l".to_string(), path: "p".to_string(), devices: vec![] })
    );
    assert_eq!(read_remote_folder(&doc(r#"["f", "l", "p", []]"#)), None);
}
