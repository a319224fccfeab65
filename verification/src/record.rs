//! The decoded form of the resume-state blob: one struct with explicit
//! per-field presence, mirroring the closed field schema of the wire format.

use vstd::prelude::*;
use vstd::utf8::valid_utf8;

verus! {

/// One partially downloaded piece inside the `unfinished` list.
#[derive(Debug, Clone, PartialEq)]
pub struct UnfinishedPiece {
    /// Opaque bitmap of the blocks finished inside the piece.
    pub bitmask: Vec<u8>,
    /// Index of the piece.
    pub piece: i64,
}

/// Decoded resume-state record.
///
/// Field order matches the lexicographic order of the wire keys, which is the
/// order in which the encoder writes them.  `Option` fields round-trip as
/// absent when `None`; byte-typed fields are opaque and kept byte-exact;
/// string-typed fields are user-facing text and must be valid UTF-8.
#[derive(Debug, Clone, PartialEq)]
pub struct Fastresume {
    /// Seconds the torrent has been active.
    pub active_time: i64,
    /// Unix time the torrent was added.
    pub added_time: i64,
    /// Storage allocation mode.
    pub allocation: Vec<u8>,
    /// Whether the IP filter applies.
    pub apply_ip_filter: u8,
    /// Whether the torrent is auto managed.
    pub auto_managed: u8,
    /// Opaque list of banned peers.
    pub banned_peers: Option<Vec<u8>>,
    /// Opaque list of banned IPv6 peers.
    pub banned_peers6: Option<Vec<u8>>,
    /// Unix time the download completed.
    pub completed_time: i64,
    /// Whether DHT is disabled.
    pub disable_dht: u8,
    /// Whether local service discovery is disabled.
    pub disable_lsd: u8,
    /// Whether peer exchange is disabled.
    pub disable_pex: u8,
    /// Download rate limit in bytes per second.
    pub download_rate_limit: i32,
    /// Format marker of the file (wire key `file-format`).
    pub file_format: Vec<u8>,
    /// Version of the file format (wire key `file-version`).
    pub file_version: u8,
    /// Per-file download priorities, one small integer per file.
    pub file_priority: Option<Vec<u8>>,
    /// Unix time the torrent finished.
    pub finished_time: i64,
    /// HTTP seed URLs.
    pub httpseeds: Option<Vec<String>>,
    /// Whether I2P is enabled.
    pub i2p: Option<u8>,
    /// Torrent info hash (wire key `info-hash`).
    pub info_hash: Vec<u8>,
    /// Second torrent info hash (wire key `info-hash2`).
    pub info_hash2: Option<Vec<u8>>,
    /// Unix time of the last download activity.
    pub last_download: i64,
    /// Unix time the torrent was last seen complete.
    pub last_seen_complete: i64,
    /// Unix time of the last upload activity.
    pub last_upload: i64,
    /// Version string of the client that wrote the blob (wire key
    /// `libtorrent-version`).
    pub libtorrent_version: Vec<u8>,
    /// Maximum number of connections.
    pub max_connections: i64,
    /// Maximum number of upload slots.
    pub max_uploads: i64,
    /// Opaque stored torrent name.
    pub name: Option<Vec<u8>>,
    /// Number of seeds last reported.
    pub num_complete: u64,
    /// Number of downloads last reported.
    pub num_downloaded: u64,
    /// Number of leeches last reported.
    pub num_incomplete: u64,
    /// Whether the torrent is paused.
    pub paused: u8,
    /// Opaque list of known peers.
    pub peers: Option<Vec<u8>>,
    /// Opaque list of known IPv6 peers.
    pub peers6: Option<Vec<u8>>,
    /// Per-piece priorities.
    pub piece_priority: Option<Vec<u8>>,
    /// Opaque bitmap of finished pieces.
    pub pieces: Vec<u8>,
    /// Torrent category (wire key `qBt-category`).
    pub qbt_category: Option<String>,
    /// Content layout mode (wire key `qBt-contentLayout`).
    pub qbt_content_layout: Option<String>,
    /// Download path for incomplete data (wire key `qBt-downloadPath`).
    pub qbt_download_path: Option<String>,
    /// Whether first and last pieces are prioritized (wire key
    /// `qBt-firstLastPiecePriority`).
    pub qbt_first_last_piece_priority: Option<i64>,
    /// Inactive seeding time limit (wire key `qBt-inactiveSeedingTimeLimit`).
    pub qbt_inactive_seeding_time_limit: Option<i64>,
    /// Name override, set only for renamed torrents (wire key `qBt-name`).
    pub qbt_name: Option<String>,
    /// Ratio limit (wire key `qBt-ratioLimit`).
    pub qbt_ratio_limit: Option<i64>,
    /// Save path (wire key `qBt-savePath`).
    pub qbt_save_path: Option<String>,
    /// Whether the torrent is seeding (wire key `qBt-seedStatus`).
    pub qbt_seed_status: Option<i64>,
    /// Seeding time limit (wire key `qBt-seedingTimeLimit`).
    pub qbt_seeding_time_limit: Option<i64>,
    /// Action on reaching the share limit (wire key `qBt-shareLimitAction`).
    pub qbt_share_limit_action: Option<String>,
    /// Stop condition (wire key `qBt-stopCondition`).
    pub qbt_stop_condition: Option<String>,
    /// Tags (wire key `qBt-tags`).
    pub qbt_tags: Option<Vec<String>>,
    /// Save path in platform separators; user-editable text, so it must be
    /// valid UTF-8, but it is kept byte-exact for round-tripping.
    pub save_path: Vec<u8>,
    /// Whether seed mode is enabled.
    pub seed_mode: u8,
    /// Seconds the torrent has been seeding.
    pub seeding_time: i64,
    /// Whether sequential download is enabled.
    pub sequential_download: u8,
    /// Whether share mode is enabled.
    pub share_mode: u8,
    /// Whether the torrent stops when ready.
    pub stop_when_ready: u8,
    /// Whether super seeding is enabled.
    pub super_seeding: u8,
    /// Total bytes downloaded.
    pub total_downloaded: u64,
    /// Total bytes uploaded.
    pub total_uploaded: u64,
    /// Tracker URLs as ordered tiers; order inside and across tiers matters.
    pub trackers: Vec<Vec<String>>,
    /// Partially downloaded pieces.
    pub unfinished: Option<Vec<UnfinishedPiece>>,
    /// Whether upload mode is enabled.
    pub upload_mode: u8,
    /// Upload rate limit in bytes per second (wire key `upload_rate_limit`).
    pub upload_rate_limit: i64,
    /// Web seed URLs (wire key `url-list`).
    pub url_list: Vec<String>,
}

/// Well-formedness of a decoded record: the byte-typed save path is
/// user-editable text and therefore holds valid UTF-8.
pub open spec fn wf_record(r: Fastresume) -> bool {
    valid_utf8(r.save_path@)
}

} // verus!
