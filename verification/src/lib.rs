//! The core of a single-user podcast client: parsing podcast feed XML
//! into episode records, reconciling those records against the persisted
//! episode set, correcting download-state drift against the filesystem,
//! planning feed refreshes and downloads, and keeping the play queue.
//!
//! The crate holds the decisions of the client; the surrounding
//! application does the fetching, the file handling and the storage, and
//! hands plain values in and out.
use vstd::prelude::*;

pub mod config;
pub mod dates;
pub mod downloads;
pub mod episodes;
pub mod errors;
pub mod feeds;
pub mod parser;
pub mod queue;
pub mod reconcile;
pub mod sync;
pub mod text;
pub mod xml;

verus! {

/// Everything the client loads at startup: the stored preferences, the
/// subscribed feeds, the persisted episodes, and the play queue resolved
/// to its live episodes.
#[derive(Debug, Clone)]
pub struct InitData {
    pub config: crate::config::CastironConfig,
    pub feeds: Vec<crate::feeds::FeedMeta>,
    pub episodes: Vec<crate::episodes::Episode>,
    pub queue: Vec<crate::episodes::Episode>,
}

} // verus!
