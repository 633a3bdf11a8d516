//! A verified reconciliation engine for a personal entry client.
//!
//! The library keeps a local cache of entry records and reconciles it against
//! a remote registry served as an XML document: a streaming deletion pass
//! excises subtrees of locally tombstoned records, an allocator hands out
//! fresh identifiers, an insertion pass splices freshly serialized subtrees
//! into the document, and a merge folds the surviving remote records into
//! local state without duplication.

pub mod command;
pub mod config;
pub mod decode;
pub mod digits;
pub mod errors;
pub mod event;
pub mod flatten;
pub mod idgen;
pub mod laws;
pub mod patch;
pub mod record;
pub mod state;
pub mod sync;
pub mod timefmt;
pub mod xmlread;

pub use digits::parse_u16;
pub use digits::parse_u32;
pub use digits::u16_to_string;
pub use digits::u32_to_string;
