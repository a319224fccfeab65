//! The relational rows the tool works on: one row per torrent, with
//! denormalized copies of the blob's application-specific fields.  The
//! storage layer reads and writes them; the library edits them.

use vstd::prelude::*;

verus! {

/// One full row of the torrents table.
#[derive(Debug, Clone, PartialEq)]
pub struct DatabaseRow {
    /// Row id.
    pub id: u64,
    /// Torrent hash.
    pub torrent_id: String,
    /// Queue position.
    pub queue_position: i64,
    /// Torrent name, only used on re-named torrents.
    pub name: Option<String>,
    /// Torrent category.
    pub category: Option<String>,
    /// Comma-separated list of tags.
    pub tags: Option<String>,
    /// Save path for torrent content, forward-slash form; absent when the
    /// torrent is in automatic management mode.
    pub target_save_path: Option<String>,
    /// Download path, used for the incomplete-download directory.
    pub download_path: Option<String>,
    /// Content layout, whether sub-folders are created or not.
    pub content_layout: String,
    /// Ratio limit for seeding.
    pub ratio_limit: i64,
    /// Time limit for seeding.
    pub seeding_time_limit: i64,
    /// Inactivity time limit for seeding.
    pub inactive_seeding_time_limit: i64,
    /// Action to take when the share limit is reached.
    pub share_limit_action: Option<String>,
    /// Prioritize outer (first and last) pieces.
    pub has_outer_pieces_priority: i64,
    /// Torrent is seeding.
    pub has_seed_status: i64,
    /// Torrent management mode.
    pub operating_mode: String,
    /// Torrent is stopped.
    pub stopped: i64,
    /// Stop condition.
    pub stop_condition: String,
    /// Binary resume blob.
    pub libtorrent_resume_data: Vec<u8>,
    /// Binary torrent metadata.
    pub metadata: Vec<u8>,
}

/// The subset of columns needed for save-path operations.
#[derive(Debug, Clone, PartialEq)]
pub struct PathData {
    /// Row id.
    pub id: u64,
    /// Torrent hash.
    pub torrent_id: String,
    /// Save path for torrent content, forward-slash form.
    pub target_save_path: Option<String>,
    /// Binary resume blob.
    pub libtorrent_resume_data: Vec<u8>,
}

/// The subset of columns needed for operations on the resume blob alone.
#[derive(Debug, Clone, PartialEq)]
pub struct LibtorrentResumeData {
    /// Row id.
    pub id: u64,
    /// Torrent hash.
    pub torrent_id: String,
    /// Binary resume blob.
    pub libtorrent_resume_data: Vec<u8>,
}

/// One full row as fetched for the dump operation.
#[derive(Debug, Clone, PartialEq)]
pub struct DatabaseData {
    /// Row id.
    pub id: u64,
    /// Torrent hash.
    pub torrent_id: String,
    /// Queue position.
    pub queue_position: i64,
    /// Torrent name, only used on re-named torrents.
    pub name: Option<String>,
    /// Torrent category.
    pub category: Option<String>,
    /// Comma-separated list of tags.
    pub tags: Option<String>,
    /// Save path for torrent content, forward-slash form.
    pub target_save_path: Option<String>,
    /// Download path, used for the incomplete-download directory.
    pub download_path: Option<String>,
    /// Content layout, whether sub-folders are created or not.
    pub content_layout: String,
    /// Ratio limit for seeding.
    pub ratio_limit: i64,
    /// Time limit for seeding.
    pub seeding_time_limit: i64,
    /// Inactivity time limit for seeding.
    pub inactive_seeding_time_limit: i64,
    /// Action to take when the share limit is reached.
    pub share_limit_action: Option<String>,
    /// Prioritize outer (first and last) pieces.
    pub has_outer_pieces_priority: i64,
    /// Torrent is seeding.
    pub has_seed_status: i64,
    /// Torrent management mode.
    pub operating_mode: String,
    /// Torrent is stopped.
    pub stopped: i64,
    /// Stop condition.
    pub stop_condition: String,
    /// Binary resume blob.
    pub libtorrent_resume_data: Vec<u8>,
    /// Binary torrent metadata.
    pub metadata: Vec<u8>,
}

/// The subset of columns for save-path operations, as fetched.
#[derive(Debug, Clone, PartialEq)]
pub struct FetchedPathData {
    /// Row id.
    pub id: u64,
    /// Torrent hash.
    pub torrent_id: String,
    /// Save path for torrent content, forward-slash form.
    pub target_save_path: Option<String>,
    /// Binary resume blob.
    pub libtorrent_resume_data: Vec<u8>,
}

/// The subset of columns for resume-blob operations, as fetched.
#[derive(Debug, Clone, PartialEq)]
pub struct FetchedLibtorrentResumeData {
    /// Row id.
    pub id: u64,
    /// Torrent hash.
    pub torrent_id: String,
    /// Binary resume blob.
    pub libtorrent_resume_data: Vec<u8>,
}

} // verus!
