//! Order archiving for Sir Zips-a-Lot: the rules that decide what goes into
//! each ZIP, when an order folder has settled, and what the watcher remembers.
//!
//! The filesystem work (walking folders, writing ZIPs, saving the history)
//! is done by the caller, step by step, as an [`archive::ArchiveJob`] or a
//! [`watcher::PollPass`] asks for it.
pub mod fs_path;
pub mod entry_name;
pub mod snapshot;
pub mod tables;
pub mod archive;
pub mod order_list;
pub mod watcher;
pub mod status;
pub mod laws;

pub use archive::archive_order;
