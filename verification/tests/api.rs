use serde_json::Value;
use syncth::api::{
    add_folder_body, add_folder_request, check_folder, fetch_document, fetch_folder_contents_request,
    get_config_request, get_folder, get_folder_request, get_own_id, get_own_id_request, is_success,
    own_id_of, post_add_folder, post_add_folder_request, put_folder, put_folder_request,
    share_folder, unshare_folder, Method, Reply, Request, SendType, API_KEY_HEADER, DEFAULT_URL,
};
use syncth::error::{LabelKind, SyncError};

fn answer(status: u16, body: &str) -> Reply {
    Reply::Answer { status, body: body.to_string() }
}

fn doc(text: &str) -> Value {
    serde_json::from_str(text).unwrap()
}

#[test]
fn send_types_are_spelled_as_the_daemon_spells_them() {
    assert_eq!(SendType::ReceiveOnly.to_string(), "receiveonly");
    assert_eq!(SendType::SendOnly.to_string(), "sendonly");
    assert_eq!(SendType::SendReceive.to_string(), "sendreceive");
}

#[test]
fn success_is_a_status_from_200_to_299() {
    assert!(!is_success(0));
    assert!(!is_success(199));
    assert!(is_success(200));
    assert!(is_success(204));
    assert!(is_success(299));
    assert!(!is_success(300));
    assert!(!is_success(404));
    assert!(!is_success(65535));
}

#[test]
fn read_requests_carry_the_key_and_no_body() {
    assert_eq!(DEFAULT_URL, "http://localhost:8384");
    assert_eq!(API_KEY_HEADER, "X-API-Key");
    assert_eq!(
        get_folder_request("k", "abc12-xyz34"),
        Request {
            method: Method::Get,
            url: "http://localhost:8384/rest/config/folders/abc12-xyz34".to_string(),
            api_key: "k".to_string(),
            body: None,
        }
    );
    assert_eq!(get_own_id_request("k").url, "http://localhost:8384/rest/system/status");
    assert_eq!(get_config_request("k").url, "http://localhost:8384/rest/config");
    assert_eq!(
        fetch_folder_contents_request("k2", "f x").url,
        "http://localhost:8384/rest/db/browse?folder=f x"
    );
    assert_eq!(fetch_folder_contents_request("k2", "f").api_key, "k2");
    assert_eq!(get_config_request("k").method, Method::Get);
    assert_eq!(get_own_id_request("k").body, None);
}

#[test]
fn documents_are_read_from_successful_replies() {
    assert_eq!(fetch_document(&answer(200, r#"{"a": [1, 2]}"#)), Ok(doc(r#"{"a":[1,2]}"#)));
    assert_eq!(fetch_document(&answer(200, "7")), Ok(doc("7")));
    assert_eq!(
        fetch_document(&answer(500, r#"{"a": 1}"#)),
        Err(SyncError::RemoteFetchError { status: Some(500) })
    );
    assert_eq!(
        fetch_document(&answer(200, "{not json")),
        Err(SyncError::RemoteFetchError { status: Some(200) })
    );
    assert_eq!(fetch_document(&answer(200, "")), Err(SyncError::RemoteFetchError { status: Some(200) }));
    assert_eq!(fetch_document(&Reply::Unreachable), Err(SyncError::RemoteFetchError { status: None }));
}

#[test]
fn fetched_folders_are_held_against_the_request() {
    let body = r#"{"id": "f1", "devices": []}"#;
    assert_eq!(get_folder(&answer(200, body), "f1"), Ok(doc(body)));
    assert_eq!(get_folder(&answer(200, body), "f2"), Err(SyncError::RemoteInconsistency));
    assert_eq!(get_folder(&answer(200, body), "F1"), Err(SyncError::RemoteInconsistency));
    assert_eq!(get_folder(&answer(200, r#"{"devices": []}"#), "f1"), Err(SyncError::RemoteInconsistency));
    assert_eq!(get_folder(&answer(200, r#"{"id": 1}"#), "1"), Err(SyncError::RemoteInconsistency));
    assert_eq!(get_folder(&answer(200, r#"["f1"]"#), "f1"), Err(SyncError::RemoteInconsistency));
    assert_eq!(
        get_folder(&answer(404, body), "f1"),
        Err(SyncError::RemoteFetchError { status: Some(404) })
    );
    assert_eq!(get_folder(&Reply::Unreachable, "f1"), Err(SyncError::RemoteFetchError { status: None }));
    assert_eq!(check_folder(doc(body), "f1"), Ok(doc(body)));
    assert_eq!(check_folder(doc("null"), ""), Err(SyncError::RemoteInconsistency));
}

#[test]
fn writes_send_the_whole_document() {
    let document = doc(r#"{"id": "f1", "label": "é", "devices": [{"deviceID": "A"}], "n": 1.5}"#);
    let request = put_folder_request("key", "f1", &document);
    assert_eq!(request.method, Method::Put);
    assert_eq!(request.url, "http://localhost:8384/rest/config/folders/f1");
    assert_eq!(request.api_key, "key");
    assert_eq!(request.body, Some(document.to_string()));
    assert_eq!(doc(request.body.as_ref().unwrap()), document);
    assert_eq!(
        request.body.unwrap(),
        r#"{"devices":[{"deviceID":"A"}],"id":"f1","label":"é","n":1.5}"#
    );
}

#[test]
fn writes_fail_unless_the_daemon_reports_success() {
    assert_eq!(put_folder(&answer(200, "")), Ok(()));
    assert_eq!(put_folder(&answer(204, "ignored")), Ok(()));
    assert_eq!(put_folder(&answer(400, "")), Err(SyncError::RemoteWriteError { status: Some(400) }));
    assert_eq!(put_folder(&Reply::Unreachable), Err(SyncError::RemoteWriteError { status: None }));
    assert_eq!(post_add_folder(&answer(201, "")), Ok(()));
    assert_eq!(post_add_folder(&answer(403, "")), Err(SyncError::RemoteWriteError { status: Some(403) }));
    assert_eq!(post_add_folder(&Reply::Unreachable), Err(SyncError::RemoteWriteError { status: None }));
}

#[test]
fn the_daemon_names_itself_in_its_status() {
    assert_eq!(get_own_id(&answer(200, r#"{"myID": "SELF", "uptime": 5}"#)), Ok("SELF".to_string()));
    assert_eq!(get_own_id(&answer(200, r#"{"uptime": 5}"#)), Err(SyncError::UnexpectedShape));
    assert_eq!(get_own_id(&answer(200, r#"{"myID": 5}"#)), Err(SyncError::UnexpectedShape));
    assert_eq!(get_own_id(&answer(503, "")), Err(SyncError::RemoteFetchError { status: Some(503) }));
    assert_eq!(get_own_id(&Reply::Unreachable), Err(SyncError::RemoteFetchError { status: None }));
    assert_eq!(own_id_of(&doc(r#"{"myID": ""}"#)), Some(String::new()));
    assert_eq!(own_id_of(&doc(r#"[]"#)), None);
}

#[test]
fn new_folders_are_described_by_four_strings() {
    let body = add_folder_body("/home/ann/Music", "abc12-xyz34", &SendType::ReceiveOnly, "Music");
    assert_eq!(
        body,
        doc(r#"{"path": "/home/ann/Music", "id": "abc12-xyz34", "type": "receiveonly", "label": "Music"}"#)
    );
    let request = add_folder_request("k", "/home/ann/Music/", &SendType::SendOnly, "id-1").unwrap();
    assert_eq!(request.method, Method::Post);
    assert_eq!(request.url, "http://localhost:8384/rest/config/folders");
    assert_eq!(request.api_key, "k");
    assert_eq!(
        doc(request.body.as_ref().unwrap()),
        doc(r#"{"path": "/home/ann/Music/", "id": "id-1", "type": "sendonly", "label": "Music"}"#)
    );
    assert_eq!(add_folder_request("k", "/", &SendType::SendOnly, "id-1"), None);
    assert_eq!(add_folder_request("k", "/a/..", &SendType::SendOnly, "id-1"), None);
}

#[test]
fn new_folders_get_a_generated_identifier() {
    let request = post_add_folder_request("k", "/srv/data", &SendType::SendReceive).unwrap();
    let body = doc(request.body.as_ref().unwrap());
    assert_eq!(body["path"], "/srv/data");
    assert_eq!(body["label"], "data");
    assert_eq!(body["type"], "sendreceive");
    let id: Vec<char> = body["id"].as_str().unwrap().chars().collect();
    assert_eq!(id.len(), 11);
    assert_eq!(id[5], '-');
    assert!(id.iter().enumerate().all(|(i, c)| i == 5 || c.is_ascii_alphanumeric()));
    assert_eq!(body.as_object().unwrap().len(), 4);
    assert_eq!(post_add_folder_request("k", "", &SendType::SendReceive), None);
}

const FOLDER: &str = r#"{"id": "f1", "label": "L", "devices": [{"deviceID": "SELF", "encryptionPassword": "secret"}]}"#;

#[test]
fn sharing_goes_from_the_fetched_document_to_the_one_to_write() {
    let after = share_folder(&answer(200, FOLDER), "f1", "NEW").unwrap();
    assert_eq!(
        after,
        doc(r#"{"id": "f1", "label": "L", "devices": [
            {"deviceID": "SELF", "encryptionPassword": "secret"},
            {"deviceID": "NEW", "encryptionPassword": "", "introducedBy": ""}]}"#)
    );
    let again = share_folder(&answer(200, &after.to_string()), "f1", "NEW").unwrap();
    assert_eq!(again["devices"].as_array().unwrap().len(), 3);
    let back = unshare_folder(&answer(200, &again.to_string()), "f1", "NEW").unwrap();
    assert_eq!(back, doc(FOLDER));
}

#[test]
fn sharing_fails_as_fetching_does() {
    for run in [share_folder, unshare_folder] {
        assert_eq!(run(&answer(200, FOLDER), "f2", "D"), Err(SyncError::RemoteInconsistency));
        assert_eq!(run(&answer(200, r#"{"id": "f1"}"#), "f1", "D"), Err(SyncError::UnexpectedShape));
        assert_eq!(
            run(&answer(200, r#"{"id": "f1", "devices": 3}"#), "f1", "D"),
            Err(SyncError::UnexpectedShape)
        );
        assert_eq!(
            run(&answer(401, FOLDER), "f1", "D"),
            Err(SyncError::RemoteFetchError { status: Some(401) })
        );
        assert_eq!(run(&Reply::Unreachable, "f1", "D"), Err(SyncError::RemoteFetchError { status: None }));
    }
}

#[test]
fn errors_have_messages() {
    assert_eq!(SyncError::ConfigNotFound.message(), "Could not find the configuration file");
    assert_eq!(SyncError::ConfigMalformed.message(), "Could not parse the configuration file");
    assert_eq!(
        SyncError::LabelNotFound { kind: LabelKind::Folder, label: "Docs".to_string() }.message(),
        "Could not find folder with label: Docs"
    );
    assert_eq!(
        SyncError::LabelNotFound { kind: LabelKind::Device, label: "tv".to_string() }.message(),
        "Could not find device with label: tv"
    );
    assert_eq!(
        SyncError::RemoteFetchError { status: Some(404) }.message(),
        "Failed to fetch from the daemon: status 404"
    );
    assert_eq!(SyncError::RemoteFetchError { status: None }.message(), "Could not reach the daemon");
    assert_eq!(
        SyncError::RemoteWriteError { status: Some(500) }.message(),
        "Failed to write to the daemon: status 500"
    );
    assert_eq!(SyncError::RemoteWriteError { status: None }.message(), "Could not reach the daemon");
    assert_eq!(SyncError::RemoteInconsistency.message(), "The daemon answered with another folder");
    assert_eq!(SyncError::UnexpectedShape.message(), "Could not set devices in folder config");
}
