//! Verified core for maintaining qBittorrent session metadata: a codec for
//! the binary resume-state blob, substring rewriters for save paths and
//! tracker URLs, and the change-detection gate that decides which records
//! need to be persisted.

pub mod adapters;
pub mod benc;
pub mod codec;
pub mod fields;
pub mod gate;
pub mod laws;
pub mod parse;
pub mod record;
pub mod reorder;
pub mod rewrite;
pub mod rows;
pub mod save_path;
pub mod text;
pub mod tracker_url;
