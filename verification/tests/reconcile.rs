use serde_json::Value;
use syncth::error::SyncError;
use syncth::reconcile::{device_entry, entry_names, share, unshare};

fn doc(text: &str) -> Value {
    serde_json::from_str(text).unwrap()
}

fn ids(document: &Value) -> Vec<String> {
    document["devices"]
        .as_array()
        .unwrap()
        .iter()
        .map(|e| e["deviceID"].as_str().unwrap_or("<none>").to_string())
        .collect()
}

const FOLDER: &str = r#"{
    "id": "abc12-xyz34",
    "label": "Documents",
    "rescanIntervalS": 3600,
    "paused": false,
    "versioning": {"type": "simple", "params": {"keep": "5"}},
    "devices": [
        {"deviceID": "SELF", "introducedBy": "", "encryptionPassword": ""},
        {"deviceID": "OTHER", "introducedBy": "SELF", "encryptionPassword": "secret"}
    ]
}"#;

#[test]
fn share_appends_a_fresh_entry() {
    let mut document = doc(FOLDER);
    assert_eq!(share(&mut document, "NEW"), Ok(()));
    assert_eq!(ids(&document), vec!["SELF", "OTHER", "NEW"]);
    let added = &document["devices"][2];
    assert_eq!(
        *added,
        doc(r#"{"deviceID": "NEW", "encryptionPassword": "", "introducedBy": ""}"#)
    );
    assert_eq!(added.as_object().unwrap().len(), 3);
}

#[test]
fn share_twice_lists_the_device_twice() {
    let mut document = doc(FOLDER);
    share(&mut document, "NEW").unwrap();
    share(&mut document, "NEW").unwrap();
    assert_eq!(ids(&document), vec!["SELF", "OTHER", "NEW", "NEW"]);
    let count = ids(&document).iter().filter(|d| d.as_str() == "NEW").count();
    assert_eq!(count, 2);
}

#[test]
fn share_of_a_listed_device_adds_another_entry() {
    let mut document = doc(FOLDER);
    share(&mut document, "OTHER").unwrap();
    assert_eq!(ids(&document), vec!["SELF", "OTHER", "OTHER"]);
    assert_eq!(document["devices"][1]["encryptionPassword"], "secret");
    assert_eq!(document["devices"][2]["encryptionPassword"], "");
}

#[test]
fn unshare_after_share_leaves_no_entry_for_the_device() {
    let mut document = doc(FOLDER);
    share(&mut document, "NEW").unwrap();
    share(&mut document, "NEW").unwrap();
    assert_eq!(unshare(&mut document, "NEW"), Ok(()));
    assert_eq!(ids(&document), vec!["SELF", "OTHER"]);
    assert_eq!(document, doc(FOLDER));
}

#[test]
fn unshare_removes_every_entry_for_the_device() {
    let mut document = doc(
        r#"{"devices": [{"deviceID": "A"}, {"deviceID": "B"}, {"deviceID": "A"}, {"deviceID": "C"}, {"deviceID": "A"}]}"#,
    );
    unshare(&mut document, "A").unwrap();
    assert_eq!(ids(&document), vec!["B", "C"]);
}

#[test]
fn unshare_of_an_unlisted_device_changes_nothing() {
    let mut document = doc(FOLDER);
    unshare(&mut document, "NOBODY").unwrap();
    assert_eq!(document, doc(FOLDER));
}

#[test]
fn unshare_can_empty_the_list() {
    let mut document = doc(r#"{"devices": [{"deviceID": "A"}], "id": "x"}"#);
    unshare(&mut document, "A").unwrap();
    assert_eq!(document, doc(r#"{"devices": [], "id": "x"}"#));
}

#[test]
fn updates_keep_everything_else() {
    let before = doc(FOLDER);
    let mut shared = before.clone();
    share(&mut shared, "NEW").unwrap();
    let mut unshared = before.clone();
    unshare(&mut unshared, "SELF").unwrap();
    for after in [&shared, &unshared] {
        for (key, value) in before.as_object().unwrap() {
            if key != "devices" {
                assert_eq!(&after[key], value);
                assert_eq!(after[key].to_string(), value.to_string());
            }
        }
        assert_eq!(after.as_object().unwrap().len(), before.as_object().unwrap().len());
    }
    assert_eq!(shared["devices"][0], before["devices"][0]);
    assert_eq!(shared["devices"][1], before["devices"][1]);
    assert_eq!(unshared["devices"][0], before["devices"][1]);
    assert_eq!(unshared["devices"][0]["encryptionPassword"], "secret");
    assert_eq!(unshared["devices"][0]["introducedBy"], "SELF");
}

#[test]
fn share_into_an_empty_list() {
    let mut document = doc(r#"{"devices": []}"#);
    share(&mut document, "A").unwrap();
    assert_eq!(ids(&document), vec!["A"]);
}

#[test]
fn documents_without_a_device_list_are_refused_unchanged() {
    for text in [
        r#"{"id": "x"}"#,
        r#"{"devices": {"deviceID": "A"}}"#,
        r#"{"devices": "A"}"#,
        r#"{"devices": null}"#,
        r#"[{"deviceID": "A"}]"#,
        r#""devices""#,
        "null",
        "17",
    ] {
        let mut document = doc(text);
        assert_eq!(share(&mut document, "A"), Err(SyncError::UnexpectedShape));
        assert_eq!(document, doc(text));
        assert_eq!(unshare(&mut document, "A"), Err(SyncError::UnexpectedShape));
        assert_eq!(document, doc(text));
    }
}

#[test]
fn entries_that_name_no_device_are_kept() {
    let text = r#"{"devices": [{"name": "x"}, 5, {"deviceID": 7}, {"deviceID": "A"}, "A", null, ["A"]]}"#;
    let mut document = doc(text);
    unshare(&mut document, "A").unwrap();
    assert_eq!(
        document,
        doc(r#"{"devices": [{"name": "x"}, 5, {"deviceID": 7}, "A", null, ["A"]]}"#)
    );
}

#[test]
fn device_identifiers_are_compared_exactly() {
    let mut document = doc(r#"{"devices": [{"deviceID": "a"}, {"deviceID": "A "}, {"deviceID": ""}]}"#);
    unshare(&mut document, "A").unwrap();
    assert_eq!(ids(&document), vec!["a", "A ", ""]);
    unshare(&mut document, "").unwrap();
    assert_eq!(ids(&document), vec!["a", "A "]);
}

#[test]
fn fresh_entries_name_their_device() {
    let entry = device_entry("DEV-é");
    assert_eq!(entry.to_string(), r#"{"deviceID":"DEV-é","encryptionPassword":"","introducedBy":""}"#);
    assert!(entry_names(&entry, "DEV-é"));
    assert!(!entry_names(&entry, "DEV-e"));
    assert!(!entry_names(&doc("{}"), ""));
    assert!(!entry_names(&doc(r#"{"deviceID": null}"#), "null"));
}
