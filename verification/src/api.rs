//! The daemon's management interface: the requests that the client sends
//! and what it makes of the answers.
//!
//! Nothing here talks to the network. A function named `..._request` says
//! what to send; its counterpart reads the reply that came back. The caller
//! carries the one to the daemon and the other back.

use vstd::prelude::*;
use crate::browse::{entries_view, listing_of, read_entries, FileInfoBrowse, MAX_DEPTH};
use crate::config::Configuration;
use crate::error::SyncError;
use crate::ident::{generate_id, is_folder_id};
use crate::json::{
    empty_object, json_object, json_parse, json_string, json_text, member, parse_value, set_member,
    string_of, string_value, to_text,
};
use crate::reconcile::{device_list, share, shared, unshare, unshared};
use crate::remote::{read_remote_configuration, remote_configuration_of, string_member};
use crate::text::{file_name, file_name_of, glue, same_text};

verus! {

/// Where the daemon listens.
pub const DEFAULT_URL: &'static str = "http://localhost:8384";

/// The header that carries the API key with every request.
pub const API_KEY_HEADER: &'static str = "X-API-Key";

/// How a folder takes part in synchronisation.
#[derive(Debug, Clone, Copy, PartialEq, Eq)]
pub enum SendType {
    ReceiveOnly,
    SendOnly,
    SendReceive,
}

/// The name of a send type as the daemon spells it.
pub open spec fn send_type_name(t: SendType) -> Seq<char> {
    match t {
        SendType::ReceiveOnly => "receiveonly"@,
        SendType::SendOnly => "sendonly"@,
        SendType::SendReceive => "sendreceive"@,
    }
}

impl SendType {
    /// The name of the send type as the daemon spells it.
    pub fn to_string(&self) -> (r: String)
        ensures
            r@ == send_type_name(*self),
    {
        match self {
            SendType::ReceiveOnly => "receiveonly",
            SendType::SendOnly => "sendonly",
            SendType::SendReceive => "sendreceive",
        }.to_owned()
    }
}

/// The verb of a request.
#[derive(Debug, Clone, Copy, PartialEq, Eq)]
pub enum Method {
    Get,
    Post,
    Put,
}

/// A request to the daemon. The API key travels in the header
/// `X-API-Key`; a body, where there is one, is JSON text.
#[derive(Debug, Clone, PartialEq, Eq)]
pub struct Request {
    pub method: Method,
    pub url: String,
    pub api_key: String,
    pub body: Option<String>,
}

/// A request as contracts see it.
pub struct RequestView {
    pub method: Method,
    pub url: Seq<char>,
    pub api_key: Seq<char>,
    pub body: Option<Seq<char>>,
}

impl View for Request {
    type V = RequestView;

    open spec fn view(&self) -> RequestView {
        RequestView {
            method: self.method,
            url: self.url@,
            api_key: self.api_key@,
            body: match self.body {
                Some(b) => Some(b@),
                None => None,
            },
        }
    }
}

/// What came back for a request: nothing, where the daemon could not be
/// reached, or a status with a body.
#[derive(Debug, Clone, PartialEq, Eq)]
pub enum Reply {
    Unreachable,
    Answer { status: u16, body: String },
}

/// Whether an HTTP status reports success: the codes from 200 to 299.
pub open spec fn is_success_status(status: u16) -> bool {
    200 <= status < 300
}

/// Whether an HTTP status reports success.
pub fn is_success(status: u16) -> (r: bool)
    ensures
        r == is_success_status(status),
{
    200 <= status && status < 300
}

/// The address of the folder `folder_id` in the daemon's configuration.
pub open spec fn folder_url(folder_id: Seq<char>) -> Seq<char> {
    DEFAULT_URL@ + "/rest/config/folders/"@ + folder_id
}

/// The address of the folder collection in the daemon's configuration.
pub open spec fn folders_url() -> Seq<char> {
    DEFAULT_URL@ + "/rest/config/folders"@
}

/// The address of the daemon's status.
pub open spec fn status_url() -> Seq<char> {
    DEFAULT_URL@ + "/rest/system/status"@
}

/// The address of the daemon's whole configuration.
pub open spec fn config_url() -> Seq<char> {
    DEFAULT_URL@ + "/rest/config"@
}

/// The address of the directory listing of the folder `folder_id`.
pub open spec fn browse_url(folder_id: Seq<char>) -> Seq<char> {
    DEFAULT_URL@ + "/rest/db/browse?folder="@ + folder_id
}

/// A request without a body.
fn read_request(url: String, api_key: &str) -> (r: Request)
    ensures
        r@ == (RequestView { method: Method::Get, url: url@, api_key: api_key@, body: None }),
{
    Request { method: Method::Get, url, api_key: api_key.to_owned(), body: None }
}

/// The document that a reply to a read carries.
///
/// There is none where the daemon was unreachable, where it answered with a
/// status other than success, and where the body is no JSON document: each
/// is a `RemoteFetchError`, with the status where there was one.
pub open spec fn fetched(reply: Reply) -> Result<serde_json::Value, SyncError> {
    match reply {
        Reply::Unreachable => Err(SyncError::RemoteFetchError { status: None }),
        Reply::Answer { status, body } => if !is_success_status(status) {
            Err(SyncError::RemoteFetchError { status: Some(status) })
        } else {
            match json_parse(body@) {
                Some(doc) => Ok(doc),
                None => Err(SyncError::RemoteFetchError { status: Some(status) }),
            }
        },
    }
}

/// Reads the document that a reply to a read carries.
pub fn fetch_document(reply: &Reply) -> (r: Result<serde_json::Value, SyncError>)
    ensures
        r == fetched(*reply),
{
    match reply {
        Reply::Unreachable => Err(SyncError::RemoteFetchError { status: None }),
        Reply::Answer { status, body } => {
            if !is_success(*status) {
                Err(SyncError::RemoteFetchError { status: Some(*status) })
            } else {
                match parse_value(body.as_str()) {
                    Ok(doc) => Ok(doc),
                    Err(_) => Err(SyncError::RemoteFetchError { status: Some(*status) }),
                }
            }
        },
    }
}

/// The outcome of a write, read off the reply: success for a status from
/// 200 to 299, `RemoteWriteError` otherwise.
pub open spec fn written(reply: Reply) -> Result<(), SyncError> {
    match reply {
        Reply::Unreachable => Err(SyncError::RemoteWriteError { status: None }),
        Reply::Answer { status, body } => if is_success_status(status) {
            Ok(())
        } else {
            Err(SyncError::RemoteWriteError { status: Some(status) })
        },
    }
}

fn write_outcome(reply: &Reply) -> (r: Result<(), SyncError>)
    ensures
        r == written(*reply),
{
    match reply {
        Reply::Unreachable => Err(SyncError::RemoteWriteError { status: None }),
        Reply::Answer { status, body } => {
            if is_success(*status) {
                Ok(())
            } else {
                Err(SyncError::RemoteWriteError { status: Some(*status) })
            }
        },
    }
}

/// The request for the configuration of the folder `folder_id`.
pub fn get_folder_request(api_key: &str, folder_id: &str) -> (r: Request)
    ensures
        r@ == (RequestView {
            method: Method::Get,
            url: folder_url(folder_id@),
            api_key: api_key@,
            body: None,
        }),
{
    let base = glue(DEFAULT_URL, "/rest/config/folders/");
    read_request(glue(base.as_str(), folder_id), api_key)
}

/// A fetched folder document, held against the folder that was asked for:
/// the document itself where its `id` is the string `folder_id`, and
/// `RemoteInconsistency` where it is anything else or missing.
pub open spec fn checked_folder(doc: serde_json::Value, folder_id: Seq<char>) -> Result<
    serde_json::Value,
    SyncError,
> {
    if string_member(doc, "id"@) == Some(folder_id) {
        Ok(doc)
    } else {
        Err(SyncError::RemoteInconsistency)
    }
}

/// Holds a fetched folder document against the folder that was asked for.
pub fn check_folder(doc: serde_json::Value, folder_id: &str) -> (r: Result<
    serde_json::Value,
    SyncError,
>)
    ensures
        r == checked_folder(doc, folder_id@),
{
    let same = match member(&doc, "id") {
        Some(id) => match string_of(id) {
            Some(text) => same_text(text, folder_id),
            None => false,
        },
        None => false,
    };
    if same {
        Ok(doc)
    } else {
        Err(SyncError::RemoteInconsistency)
    }
}

/// What `get_folder` makes of a reply.
pub open spec fn folder_of(reply: Reply, folder_id: Seq<char>) -> Result<
    serde_json::Value,
    SyncError,
> {
    match fetched(reply) {
        Ok(doc) => checked_folder(doc, folder_id),
        Err(e) => Err(e),
    }
}

/// The folder document in the reply to `get_folder_request`.
///
/// Fails with `RemoteFetchError` where the reply carries no document, and
/// with `RemoteInconsistency` where the document is that of another folder.
pub fn get_folder(reply: &Reply, folder_id: &str) -> (r: Result<serde_json::Value, SyncError>)
    ensures
        r == folder_of(*reply, folder_id@),
{
    match fetch_document(reply) {
        Ok(doc) => check_folder(doc, folder_id),
        Err(e) => Err(e),
    }
}

/// The request that replaces the configuration of the folder `folder_id`
/// by `folder_json`: the whole document is sent, not a patch.
pub fn put_folder_request(api_key: &str, folder_id: &str, folder_json: &serde_json::Value) -> (r:
    Request)
    ensures
        r@ == (RequestView {
            method: Method::Put,
            url: folder_url(folder_id@),
            api_key: api_key@,
            body: Some(json_text(*folder_json)),
        }),
{
    let base = glue(DEFAULT_URL, "/rest/config/folders/");
    Request {
        method: Method::Put,
        url: glue(base.as_str(), folder_id),
        api_key: api_key.to_owned(),
        body: Some(to_text(folder_json)),
    }
}

/// The outcome of `put_folder_request`, read off the reply: it fails with
/// `RemoteWriteError` unless the daemon answered with success.
pub fn put_folder(reply: &Reply) -> (r: Result<(), SyncError>)
    ensures
        r == written(*reply),
{
    write_outcome(reply)
}

/// The request for the daemon's status, which holds its own identity.
pub fn get_own_id_request(api_key: &str) -> (r: Request)
    ensures
        r@ == (RequestView {
            method: Method::Get,
            url: status_url(),
            api_key: api_key@,
            body: None,
        }),
{
    read_request(glue(DEFAULT_URL, "/rest/system/status"), api_key)
}

/// The daemon's identity in a status document: the string under `myID`.
pub fn own_id_of(status: &serde_json::Value) -> (r: Option<String>)
    ensures
        match r {
            Some(id) => string_member(*status, "myID"@) == Some(id@),
            None => string_member(*status, "myID"@) is None,
        },
{
    match member(status, "myID") {
        Some(id) => match string_of(id) {
            Some(text) => Some(text.to_owned()),
            None => None,
        },
        None => None,
    }
}

/// The daemon's own identity in the reply to `get_own_id_request`.
///
/// Fails with `RemoteFetchError` where the reply carries no document, and
/// with `UnexpectedShape` where the document has no string under `myID`.
pub fn get_own_id(reply: &Reply) -> (r: Result<String, SyncError>)
    ensures
        match r {
            Ok(id) => fetched(*reply) matches Ok(doc) && string_member(doc, "myID"@) == Some(id@),
            Err(e) => match fetched(*reply) {
                Ok(doc) => string_member(doc, "myID"@) is None && e == SyncError::UnexpectedShape,
                Err(f) => e == f,
            },
        },
{
    match fetch_document(reply) {
        Ok(doc) => match own_id_of(&doc) {
            Some(id) => Ok(id),
            None => Err(SyncError::UnexpectedShape),
        },
        Err(e) => Err(e),
    }
}

/// The request for the daemon's whole configuration.
pub fn get_config_request(api_key: &str) -> (r: Request)
    ensures
        r@ == (RequestView {
            method: Method::Get,
            url: config_url(),
            api_key: api_key@,
            body: None,
        }),
{
    read_request(glue(DEFAULT_URL, "/rest/config"), api_key)
}

/// The daemon's configuration in the reply to `get_config_request`.
///
/// Fails with `RemoteFetchError` where the reply carries no document, and
/// with `UnexpectedShape` where the document does not hold a configuration.
pub fn get_config(reply: &Reply) -> (r: Result<Configuration, SyncError>)
    ensures
        match r {
            Ok(config) => fetched(*reply) matches Ok(doc) && remote_configuration_of(doc) == Some(
                config@,
            ),
            Err(e) => match fetched(*reply) {
                Ok(doc) => remote_configuration_of(doc) is None && e == SyncError::UnexpectedShape,
                Err(f) => e == f,
            },
        },
{
    match fetch_document(reply) {
        Ok(doc) => match read_remote_configuration(&doc) {
            Some(config) => Ok(config),
            None => Err(SyncError::UnexpectedShape),
        },
        Err(e) => Err(e),
    }
}

/// The request for the directory listing of the folder `folder_id`.
pub fn fetch_folder_contents_request(api_key: &str, folder_id: &str) -> (r: Request)
    ensures
        r@ == (RequestView {
            method: Method::Get,
            url: browse_url(folder_id@),
            api_key: api_key@,
            body: None,
        }),
{
    let base = glue(DEFAULT_URL, "/rest/db/browse?folder=");
    read_request(glue(base.as_str(), folder_id), api_key)
}

/// The directory listing in the reply to `fetch_folder_contents_request`.
///
/// Fails with `RemoteFetchError` where the reply carries no document, and
/// with `UnexpectedShape` where the document is no list of entries.
pub fn fetch_folder_contents(reply: &Reply) -> (r: Result<Vec<FileInfoBrowse>, SyncError>)
    ensures
        match r {
            Ok(entries) => fetched(*reply) matches Ok(doc) && listing_of(doc) == Some(
                entries_view(entries@),
            ),
            Err(e) => match fetched(*reply) {
                Ok(doc) => listing_of(doc) is None && e == SyncError::UnexpectedShape,
                Err(f) => e == f,
            },
        },
{
    match fetch_document(reply) {
        Ok(doc) => match read_entries(&doc, MAX_DEPTH) {
            Some(entries) => Ok(entries),
            None => Err(SyncError::UnexpectedShape),
        },
        Err(e) => Err(e),
    }
}

/// `body` is what is sent to create a folder: an object of exactly four
/// strings, the folder's path, identifier, send type and label.
pub open spec fn is_add_folder_body(
    body: serde_json::Value,
    path: Seq<char>,
    id: Seq<char>,
    send_type: SendType,
    label: Seq<char>,
) -> bool {
    &&& json_object(body) matches Some(members)
    &&& members.dom() == set!["path"@, "id"@, "type"@, "label"@]
    &&& json_string(members["path"@]) == Some(path)
    &&& json_string(members["id"@]) == Some(id)
    &&& json_string(members["type"@]) == Some(send_type_name(send_type))
    &&& json_string(members["label"@]) == Some(label)
}

/// The document that asks the daemon to create a folder.
pub fn add_folder_body(path: &str, id: &str, send_type: &SendType, label: &str) -> (r:
    serde_json::Value)
    ensures
        is_add_folder_body(r, path@, id@, *send_type, label@),
{
    proof {
        reveal_strlit("path");
        reveal_strlit("id");
        reveal_strlit("type");
        reveal_strlit("label");
    }
    let mut body = empty_object();
    set_member(&mut body, "path", string_value(path));
    set_member(&mut body, "id", string_value(id));
    set_member(&mut body, "type", string_value(send_type.to_string().as_str()));
    set_member(&mut body, "label", string_value(label));
    proof {
        assert("path"@.len() == 4);
        assert("id"@.len() == 2);
        assert("type"@[0] == 't');
        assert("path"@[0] == 'p');
        assert("label"@.len() == 5);
        assert(json_object(body)->0.dom() =~= set!["path"@, "id"@, "type"@, "label"@]);
    }
    body
}

/// `request` creates a folder at `path` under the identifier `id`: a POST
/// to the folder collection whose body is the JSON text of the folder's
/// path, identifier, send type and label, the label being the path's file
/// name.
pub open spec fn is_add_folder_request(
    request: RequestView,
    api_key: Seq<char>,
    path: Seq<char>,
    send_type: SendType,
    id: Seq<char>,
) -> bool {
    &&& request.method == Method::Post
    &&& request.url == folders_url()
    &&& request.api_key == api_key
    &&& file_name_of(path) is Some
    &&& request.body matches Some(text)
    &&& exists|body: serde_json::Value| #[trigger]
        is_add_folder_body(body, path, id, send_type, file_name_of(path)->0) && text == json_text(
            body,
        )
}

/// The request that creates a folder at `folder_path` under the identifier
/// `id`, labelled with the path's file name. There is none for a path
/// without a file name.
pub fn add_folder_request(api_key: &str, folder_path: &str, send_type: &SendType, id: &str) -> (r:
    Option<Request>)
    ensures
        match r {
            Some(request) => is_add_folder_request(
                request@,
                api_key@,
                folder_path@,
                *send_type,
                id@,
            ),
            None => file_name_of(folder_path@) is None,
        },
{
    match file_name(folder_path) {
        Some(label) => {
            let body = add_folder_body(folder_path, id, send_type, label.as_str());
            let request = Request {
                method: Method::Post,
                url: glue(DEFAULT_URL, "/rest/config/folders"),
                api_key: api_key.to_owned(),
                body: Some(to_text(&body)),
            };
            proof {
                let name = file_name_of(folder_path@)->0;
                assert(is_add_folder_body(body, folder_path@, id@, *send_type, name));
                assert(request@.body == Some(json_text(body)));
            }
            Some(request)
        },
        None => None,
    }
}

/// The request that creates a folder at `folder_path` under a newly
/// generated identifier. There is none for a path without a file name.
///
/// The identifier is random, so two calls may give different requests; it is
/// not compared with the identifiers that the daemon has in use.
pub fn post_add_folder_request(api_key: &str, folder_path: &str, send_type: &SendType) -> (r:
    Option<Request>)
    ensures
        match r {
            Some(request) => exists|id: Seq<char>| #[trigger]
                is_folder_id(id) && is_add_folder_request(
                    request@,
                    api_key@,
                    folder_path@,
                    *send_type,
                    id,
                ),
            None => file_name_of(folder_path@) is None,
        },
{
    let id = generate_id();
    add_folder_request(api_key, folder_path, send_type, id.as_str())
}

/// The outcome of `post_add_folder_request`, read off the reply: it fails
/// with `RemoteWriteError` unless the daemon answered with success.
pub fn post_add_folder(reply: &Reply) -> (r: Result<(), SyncError>)
    ensures
        r == written(*reply),
{
    write_outcome(reply)
}

/// The folder document to write back so that the folder is shared with
/// `device_id`, from the reply to `get_folder_request`.
///
/// The document is the fetched one with a fresh entry for the device at
/// the end of its device list. It fails as `get_folder` does, and with
/// `UnexpectedShape` where the fetched document has no device list.
pub fn share_folder(reply: &Reply, folder_id: &str, device_id: &str) -> (r: Result<
    serde_json::Value,
    SyncError,
>)
    ensures
        match r {
            Ok(after) => folder_of(*reply, folder_id@) matches Ok(before) && shared(
                before,
                after,
                device_id@,
            ),
            Err(e) => match folder_of(*reply, folder_id@) {
                Ok(before) => device_list(before) is None && e == SyncError::UnexpectedShape,
                Err(f) => e == f,
            },
        },
{
    match get_folder(reply, folder_id) {
        Ok(mut doc) => match share(&mut doc, device_id) {
            Ok(_) => Ok(doc),
            Err(e) => Err(e),
        },
        Err(e) => Err(e),
    }
}

/// The folder document to write back so that the folder is no longer
/// shared with `device_id`, from the reply to `get_folder_request`.
///
/// The document is the fetched one without the entries of its device list
/// that name the device. It fails as `get_folder` does, and with
/// `UnexpectedShape` where the fetched document has no device list.
pub fn unshare_folder(reply: &Reply, folder_id: &str, device_id: &str) -> (r: Result<
    serde_json::Value,
    SyncError,
>)
    ensures
        match r {
            Ok(after) => folder_of(*reply, folder_id@) matches Ok(before) && unshared(
                before,
                after,
                device_id@,
            ),
            Err(e) => match folder_of(*reply, folder_id@) {
                Ok(before) => device_list(before) is None && e == SyncError::UnexpectedShape,
                Err(f) => e == f,
            },
        },
{
    match get_folder(reply, folder_id) {
        Ok(mut doc) => match unshare(&mut doc, device_id) {
            Ok(_) => Ok(doc),
            Err(e) => Err(e),
        },
        Err(e) => Err(e),
    }
}

} // verus!
