//! The course of a change to a folder's sharing: one document is fetched,
//! edited and written back, and the first failure ends it.
//!
//! The caller sends each request and hands the reply to `Operation::step`,
//! until the step says that the operation is finished. Nothing is retried,
//! and the write is not conditional: what another writer changed between the
//! fetch and the write is overwritten.

use vstd::prelude::*;
use crate::api::{
    folder_of, folder_url, get_folder_request, put_folder, put_folder_request, share_folder,
    unshare_folder, written, Method, Reply, Request, RequestView,
};
use crate::error::SyncError;
use crate::json::json_text;
use crate::reconcile::{device_list, shared, unshared};

verus! {

/// What is done to the folder's device list.
#[derive(Debug, Clone, Copy, PartialEq, Eq)]
pub enum Change {
    /// The folder is shared with the device.
    Share,
    /// The share of the folder with the device is taken back.
    Unshare,
}

/// How far an operation has come: which reply it waits for.
#[derive(Debug, Clone, Copy, PartialEq, Eq)]
pub enum Phase {
    /// The folder document has been asked for.
    Fetching,
    /// The edited document has been sent.
    Writing,
}

/// What the caller does next.
#[derive(Debug, PartialEq, Eq)]
pub enum Action {
    /// Send this request, and hand its reply to the next step, which is in
    /// the phase `Writing`.
    Send(Request),
    /// The operation is over, with this outcome.
    Finish(Result<(), SyncError>),
}

/// A change to the sharing of one folder with one device.
#[derive(Debug, Clone, PartialEq, Eq)]
pub struct Operation {
    pub change: Change,
    pub api_key: String,
    pub folder_id: String,
    pub device_id: String,
}

/// An operation as contracts see it.
pub struct OperationView {
    pub change: Change,
    pub api_key: Seq<char>,
    pub folder_id: Seq<char>,
    pub device_id: Seq<char>,
}

impl View for Operation {
    type V = OperationView;

    open spec fn view(&self) -> OperationView {
        OperationView {
            change: self.change,
            api_key: self.api_key@,
            folder_id: self.folder_id@,
            device_id: self.device_id@,
        }
    }
}

impl OperationView {
    /// `after` is `before` with the operation's change made to it.
    pub open spec fn changes(self, before: serde_json::Value, after: serde_json::Value) -> bool {
        match self.change {
            Change::Share => shared(before, after, self.device_id),
            Change::Unshare => unshared(before, after, self.device_id),
        }
    }

    /// The request with which the operation begins: it asks for the
    /// folder's document.
    pub open spec fn first_request(self) -> RequestView {
        RequestView {
            method: Method::Get,
            url: folder_url(self.folder_id),
            api_key: self.api_key,
            body: None,
        }
    }

    /// `request` writes the whole of `document` back as the folder's
    /// document.
    pub open spec fn writes(self, request: RequestView, document: serde_json::Value) -> bool {
        request == (RequestView {
            method: Method::Put,
            url: folder_url(self.folder_id),
            api_key: self.api_key,
            body: Some(json_text(document)),
        })
    }

    /// What follows on a reply in a phase.
    ///
    /// While fetching: a reply without the folder's document, or with a
    /// document that has no device list, finishes the operation with the
    /// error; any other reply is followed by the request that writes the
    /// changed document. While writing: the operation is finished, well if
    /// the daemon reported success.
    pub open spec fn follows(self, phase: Phase, reply: Reply, action: Action) -> bool {
        match phase {
            Phase::Fetching => match folder_of(reply, self.folder_id) {
                Ok(before) => if device_list(before) is None {
                    action == Action::Finish(Err(SyncError::UnexpectedShape))
                } else {
                    &&& action matches Action::Send(request)
                    &&& exists|after: serde_json::Value| #[trigger]
                        self.changes(before, after) && self.writes(request@, after)
                },
                Err(e) => action == Action::Finish(Err(e)),
            },
            Phase::Writing => action == Action::Finish(written(reply)),
        }
    }
}

impl Operation {
    /// The request with which the operation begins.
    pub fn first_request(&self) -> (r: Request)
        ensures
            r@ == self@.first_request(),
    {
        get_folder_request(self.api_key.as_str(), self.folder_id.as_str())
    }

    /// What the caller does next, given the reply to the request that was
    /// sent last.
    pub fn step(&self, phase: Phase, reply: &Reply) -> (action: Action)
        ensures
            self@.follows(phase, *reply, action),
    {
        match phase {
            Phase::Fetching => {
                let changed = match self.change {
                    Change::Share => share_folder(
                        reply,
                        self.folder_id.as_str(),
                        self.device_id.as_str(),
                    ),
                    Change::Unshare => unshare_folder(
                        reply,
                        self.folder_id.as_str(),
                        self.device_id.as_str(),
                    ),
                };
                match changed {
                    Ok(after) => {
                        let request = put_folder_request(
                            self.api_key.as_str(),
                            self.folder_id.as_str(),
                            &after,
                        );
                        proof {
                            let before = folder_of(*reply, self.folder_id@)->Ok_0;
                            assert(self@.changes(before, after));
                            assert(self@.writes(request@, after));
                        }
                        Action::Send(request)
                    },
                    Err(e) => Action::Finish(Err(e)),
                }
            },
            Phase::Writing => Action::Finish(put_folder(reply)),
        }
    }
}

} // verus!
