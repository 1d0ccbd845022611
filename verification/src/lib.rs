//! A hierarchical note store: folders and notes organized into a tree,
//! with per-note public sharing and node-to-node collaboration invites.
//!
//! The store keeps folder and note tables, a root-item set, pending
//! invites, and per-note content blobs, and guarantees structural
//! consistency across every operation: parent references always resolve,
//! and the root-item set holds exactly the parentless items. Snapshots of
//! the tree round-trip through a versioned export record, with older
//! record shapes migrated forward on load and import.
//!
//! The surrounding process supplies what the store deliberately leaves
//! out: transport, file reads and writes, and request serialization.

pub mod bundle;
pub mod codec;
pub mod collab;
pub mod content;
pub mod dispatch;
pub mod folder_ops;
pub mod idmap;
pub mod invites;
pub mod migrate;
pub mod note_ops;
pub mod state;
pub mod strset;
pub mod structure;
pub mod types;
