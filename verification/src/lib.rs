//! Cell collection and cached chain lookups for building CKB transactions.
//!
//! The crate decides and keeps state; it talks to no service. Wherever a
//! node or an index service has to be asked, a function says what to ask,
//! and a second function takes the answer.
//!
//! - [`collector`]: the live cell collector with its locks and its
//!   unconfirmed cells, and the steps of one collection.
//! - [`taking`]: the rule by which a collection takes cells, and what
//!   follows from it.
//! - [`sync`]: the check that the index service is in step with the node.
//! - [`provider`]: the dependency provider, which serves transactions,
//!   cells, headers and the consensus parameters from bounded caches.
//! - [`cache`]: the bounded cache itself, kept by the `lru` crate.
//! - [`resolver`]: the table from scripts to the cell deps that carry their
//!   code.
//! - [`query`], [`types`], [`error`]: the data that the others share.

pub mod cache;
pub mod collector;
pub mod error;
pub mod provider;
pub mod query;
pub mod resolver;
pub mod sync;
pub mod taking;
pub mod types;
