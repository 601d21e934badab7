//! Folder sharing for a file-synchronisation daemon: the local configuration
//! with its lookups from labels to identifiers, the requests to the daemon's
//! management interface, and the edits made to the daemon's folder
//! documents, each with a machine-checked contract.
//!
//! The library does no input or output. It is given the text of the
//! configuration file and the replies of the daemon, and it says which
//! requests to send.

pub mod api;
pub mod browse;
pub mod config;
pub mod error;
pub mod flow;
pub mod ident;
pub mod json;
pub mod listing;
pub mod parse;
pub mod reconcile;
pub mod remote;
pub mod text;
pub mod xml;
