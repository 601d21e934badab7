//! The ways in which an operation of this library fails.

use vstd::prelude::*;
use crate::text::{decimal, decimal_text, glue};

verus! {

/// What a label that did not resolve was meant to name.
#[derive(Debug, Clone, Copy, PartialEq, Eq)]
pub enum LabelKind {
    Folder,
    Device,
}

/// A failure, final for the invocation: nothing is retried or rolled back.
#[derive(Debug, Clone, PartialEq, Eq)]
pub enum SyncError {
    /// The local configuration file could not be located or opened.
    ConfigNotFound,
    /// The local configuration file does not have the expected shape.
    ConfigMalformed,
    /// No folder, or no device, carries the given label.
    LabelNotFound { kind: LabelKind, label: String },
    /// A document could not be fetched: the daemon was unreachable (no
    /// status), answered with a status other than success, or sent a body
    /// that is no JSON document.
    RemoteFetchError { status: Option<u16> },
    /// A document could not be written: the daemon was unreachable (no
    /// status) or answered with a status other than success.
    RemoteWriteError { status: Option<u16> },
    /// The daemon answered with another folder than the one asked for.
    RemoteInconsistency,
    /// A fetched document lacks the part that the operation works on.
    UnexpectedShape,
}

/// The text of the message for an error, as `SyncError::message` writes it.
pub open spec fn message_text(e: SyncError) -> Seq<char> {
    match e {
        SyncError::ConfigNotFound => "Could not find the configuration file"@,
        SyncError::ConfigMalformed => "Could not parse the configuration file"@,
        SyncError::LabelNotFound { kind: LabelKind::Folder, label } =>
            "Could not find folder with label: "@ + label@,
        SyncError::LabelNotFound { kind: LabelKind::Device, label } =>
            "Could not find device with label: "@ + label@,
        SyncError::RemoteFetchError { status: Some(code) } =>
            "Failed to fetch from the daemon: status "@ + decimal(code as nat),
        SyncError::RemoteFetchError { status: None } => "Could not reach the daemon"@,
        SyncError::RemoteWriteError { status: Some(code) } =>
            "Failed to write to the daemon: status "@ + decimal(code as nat),
        SyncError::RemoteWriteError { status: None } => "Could not reach the daemon"@,
        SyncError::RemoteInconsistency => "The daemon answered with another folder"@,
        SyncError::UnexpectedShape => "Could not set devices in folder config"@,
    }
}

impl SyncError {
    /// The message shown to the user for this error.
    pub fn message(&self) -> (r: String)
        ensures
            r@ == message_text(*self),
    {
        match self {
            SyncError::ConfigNotFound => "Could not find the configuration file".to_owned(),
            SyncError::ConfigMalformed => "Could not parse the configuration file".to_owned(),
            SyncError::LabelNotFound { kind: LabelKind::Folder, label } => glue(
                "Could not find folder with label: ",
                label.as_str(),
            ),
            SyncError::LabelNotFound { kind: LabelKind::Device, label } => glue(
                "Could not find device with label: ",
                label.as_str(),
            ),
            SyncError::RemoteFetchError { status: Some(code) } => glue(
                "Failed to fetch from the daemon: status ",
                decimal_text(*code).as_str(),
            ),
            SyncError::RemoteFetchError { status: None } => "Could not reach the daemon".to_owned(),
            SyncError::RemoteWriteError { status: Some(code) } => glue(
                "Failed to write to the daemon: status ",
                decimal_text(*code).as_str(),
            ),
            SyncError::RemoteWriteError { status: None } => "Could not reach the daemon".to_owned(),
            SyncError::RemoteInconsistency => "The daemon answered with another folder".to_owned(),
            SyncError::UnexpectedShape => "Could not set devices in folder config".to_owned(),
        }
    }
}

} // verus!
