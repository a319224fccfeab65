//! The resume-blob codec: an exact spec-level encoding of the whole record,
//! an exec encoder proved byte-exact against it, and a strict decoder proved
//! sound: whenever it accepts, the input is exactly the encoding of the
//! returned record.  The schema is closed: unknown keys, keys out of the
//! canonical order, missing mandatory fields, range violations and invalid
//! UTF-8 in text fields are all rejected.

use vstd::prelude::*;
use vstd::utf8::valid_utf8;
use crate::benc::{DecodeError, TOK_DICT, TOK_END};
use crate::fields::{
    field_bytes, field_int, field_texts, field_tiers, opt_field_bytes, opt_field_i64,
    opt_field_ints, opt_field_pieces, opt_field_text, opt_field_texts, opt_field_u8,
    emit_field_bytes, emit_field_i32, emit_field_i64, emit_field_texts, emit_field_tiers,
    emit_field_u64, emit_field_u8, emit_opt_field_bytes, emit_opt_field_i64,
    emit_opt_field_ints, emit_opt_field_pieces, emit_opt_field_text, emit_opt_field_texts,
    emit_opt_field_u8,
};
use crate::parse::{
    take_bytes, take_bytes_utf8, take_i32, take_i64, take_opt_bytes, take_opt_i64,
    take_opt_ints, take_opt_pieces, take_opt_text, take_opt_texts, take_opt_u8, take_texts,
    take_tiers, take_u64, take_u8,
};
use crate::record::{Fastresume, UnfinishedPiece, wf_record};

verus! {

/// Wire encoding of schema fields `active_time` through `completed_time`.
pub open spec fn g1_enc(
    active_time: i64,
    added_time: i64,
    allocation: Seq<u8>,
    apply_ip_filter: u8,
    auto_managed: u8,
    banned_peers: Option<Vec<u8>>,
    banned_peers6: Option<Vec<u8>>,
    completed_time: i64,
) -> Seq<u8> {
    field_int("active_time"@, active_time as int) + field_int("added_time"@, added_time as int) + field_bytes("allocation"@, allocation) + field_int("apply_ip_filter"@, apply_ip_filter as int) + field_int("auto_managed"@, auto_managed as int) + opt_field_bytes("banned_peers"@, banned_peers) + opt_field_bytes("banned_peers6"@, banned_peers6) + field_int("completed_time"@, completed_time as int)
}

/// Wire encoding of schema fields `disable_dht` through `finished_time`.
pub open spec fn g2_enc(
    disable_dht: u8,
    disable_lsd: u8,
    disable_pex: u8,
    download_rate_limit: i32,
    file_format: Seq<u8>,
    file_version: u8,
    file_priority: Option<Vec<u8>>,
    finished_time: i64,
) -> Seq<u8> {
    field_int("disable_dht"@, disable_dht as int) + field_int("disable_lsd"@, disable_lsd as int) + field_int("disable_pex"@, disable_pex as int) + field_int("download_rate_limit"@, download_rate_limit as int) + field_bytes("file-format"@, file_format) + field_int("file-version"@, file_version as int) + opt_field_ints("file_priority"@, file_priority) + field_int("finished_time"@, finished_time as int)
}

/// Wire encoding of schema fields `httpseeds` through `libtorrent-version`.
pub open spec fn g3_enc(
    httpseeds: Option<Vec<String>>,
    i2p: Option<u8>,
    info_hash: Seq<u8>,
    info_hash2: Option<Vec<u8>>,
    last_download: i64,
    last_seen_complete: i64,
    last_upload: i64,
    libtorrent_version: Seq<u8>,
) -> Seq<u8> {
    opt_field_texts("httpseeds"@, httpseeds) + opt_field_u8("i2p"@, i2p) + field_bytes("info-hash"@, info_hash) + opt_field_bytes("info-hash2"@, info_hash2) + field_int("last_download"@, last_download as int) + field_int("last_seen_complete"@, last_seen_complete as int) + field_int("last_upload"@, last_upload as int) + field_bytes("libtorrent-version"@, libtorrent_version)
}

/// Wire encoding of schema fields `max_connections` through `peers`.
pub open spec fn g4_enc(
    max_connections: i64,
    max_uploads: i64,
    name: Option<Vec<u8>>,
    num_complete: u64,
    num_downloaded: u64,
    num_incomplete: u64,
    paused: u8,
    peers: Option<Vec<u8>>,
) -> Seq<u8> {
    field_int("max_connections"@, max_connections as int) + field_int("max_uploads"@, max_uploads as int) + opt_field_bytes("name"@, name) + field_int("num_complete"@, num_complete as int) + field_int("num_downloaded"@, num_downloaded as int) + field_int("num_incomplete"@, num_incomplete as int) + field_int("paused"@, paused as int) + opt_field_bytes("peers"@, peers)
}

/// Wire encoding of schema fields `peers6` through `qBt-inactiveSeedingTimeLimit`.
pub open spec fn g5_enc(
    peers6: Option<Vec<u8>>,
    piece_priority: Option<Vec<u8>>,
    pieces: Seq<u8>,
    qbt_category: Option<String>,
    qbt_content_layout: Option<String>,
    qbt_download_path: Option<String>,
    qbt_first_last_piece_priority: Option<i64>,
    qbt_inactive_seeding_time_limit: Option<i64>,
) -> Seq<u8> {
    opt_field_bytes("peers6"@, peers6) + opt_field_bytes("piece_priority"@, piece_priority) + field_bytes("pieces"@, pieces) + opt_field_text("qBt-category"@, qbt_category) + opt_field_text("qBt-contentLayout"@, qbt_content_layout) + opt_field_text("qBt-downloadPath"@, qbt_download_path) + opt_field_i64("qBt-firstLastPiecePriority"@, qbt_first_last_piece_priority) + opt_field_i64("qBt-inactiveSeedingTimeLimit"@, qbt_inactive_seeding_time_limit)
}

/// Wire encoding of schema fields `qBt-name` through `qBt-tags`.
pub open spec fn g6_enc(
    qbt_name: Option<String>,
    qbt_ratio_limit: Option<i64>,
    qbt_save_path: Option<String>,
    qbt_seed_status: Option<i64>,
    qbt_seeding_time_limit: Option<i64>,
    qbt_share_limit_action: Option<String>,
    qbt_stop_condition: Option<String>,
    qbt_tags: Option<Vec<String>>,
) -> Seq<u8> {
    opt_field_text("qBt-name"@, qbt_name) + opt_field_i64("qBt-ratioLimit"@, qbt_ratio_limit) + opt_field_text("qBt-savePath"@, qbt_save_path) + opt_field_i64("qBt-seedStatus"@, qbt_seed_status) + opt_field_i64("qBt-seedingTimeLimit"@, qbt_seeding_time_limit) + opt_field_text("qBt-shareLimitAction"@, qbt_share_limit_action) + opt_field_text("qBt-stopCondition"@, qbt_stop_condition) + opt_field_texts("qBt-tags"@, qbt_tags)
}

/// Wire encoding of schema fields `save_path` through `total_downloaded`.
pub open spec fn g7_enc(
    save_path: Seq<u8>,
    seed_mode: u8,
    seeding_time: i64,
    sequential_download: u8,
    share_mode: u8,
    stop_when_ready: u8,
    super_seeding: u8,
    total_downloaded: u64,
) -> Seq<u8> {
    field_bytes("save_path"@, save_path) + field_int("seed_mode"@, seed_mode as int) + field_int("seeding_time"@, seeding_time as int) + field_int("sequential_download"@, sequential_download as int) + field_int("share_mode"@, share_mode as int) + field_int("stop_when_ready"@, stop_when_ready as int) + field_int("super_seeding"@, super_seeding as int) + field_int("total_downloaded"@, total_downloaded as int)
}

/// Wire encoding of schema fields `total_uploaded` through `url-list`.
pub open spec fn g8_enc(
    total_uploaded: u64,
    trackers: Seq<Seq<Seq<char>>>,
    unfinished: Option<Vec<UnfinishedPiece>>,
    upload_mode: u8,
    upload_rate_limit: i64,
    url_list: Seq<Seq<char>>,
) -> Seq<u8> {
    field_int("total_uploaded"@, total_uploaded as int) + field_tiers("trackers"@, trackers) + opt_field_pieces("unfinished"@, unfinished) + field_int("upload_mode"@, upload_mode as int) + field_int("upload_rate_limit"@, upload_rate_limit as int) + field_texts("url-list"@, url_list)
}

/// Encoding of a record with the save path and tracker tiers overridden;
/// the contracts of the field rewriters are phrased with it.
pub open spec fn spec_encode_with(r: Fastresume, sp: Seq<u8>, ts: Seq<Seq<Seq<char>>>) -> Seq<
    u8,
> {
    seq![TOK_DICT] + g1_enc(r.active_time, r.added_time, r.allocation@, r.apply_ip_filter, r.auto_managed, r.banned_peers, r.banned_peers6, r.completed_time)
        + g2_enc(r.disable_dht, r.disable_lsd, r.disable_pex, r.download_rate_limit, r.file_format@, r.file_version, r.file_priority, r.finished_time)
        + g3_enc(r.httpseeds, r.i2p, r.info_hash@, r.info_hash2, r.last_download, r.last_seen_complete, r.last_upload, r.libtorrent_version@)
        + g4_enc(r.max_connections, r.max_uploads, r.name, r.num_complete, r.num_downloaded, r.num_incomplete, r.paused, r.peers)
        + g5_enc(r.peers6, r.piece_priority, r.pieces@, r.qbt_category, r.qbt_content_layout, r.qbt_download_path, r.qbt_first_last_piece_priority, r.qbt_inactive_seeding_time_limit)
        + g6_enc(r.qbt_name, r.qbt_ratio_limit, r.qbt_save_path, r.qbt_seed_status, r.qbt_seeding_time_limit, r.qbt_share_limit_action, r.qbt_stop_condition, r.qbt_tags)
        + g7_enc(sp, r.seed_mode, r.seeding_time, r.sequential_download, r.share_mode, r.stop_when_ready, r.super_seeding, r.total_downloaded)
        + g8_enc(r.total_uploaded, ts, r.unfinished, r.upload_mode, r.upload_rate_limit, r.url_list.deep_view()) + seq![TOK_END]
}

/// Canonical wire encoding of a whole record.
pub open spec fn spec_encode(r: Fastresume) -> Seq<u8> {
    spec_encode_with(r, r.save_path@, r.trackers.deep_view())
}

/// The bytes `b` are the canonical encoding of the well-formed record `rec`.
pub open spec fn decoded_as(b: Seq<u8>, rec: Fastresume) -> bool {
    b == spec_encode(rec) && wf_record(rec)
}

/// Emits the fields of group 1.
fn emit_g1(out: &mut Vec<u8>, r: &Fastresume)
    ensures
        final(out)@ == old(out)@ + g1_enc(r.active_time, r.added_time, r.allocation@, r.apply_ip_filter, r.auto_managed, r.banned_peers, r.banned_peers6, r.completed_time),
{
    emit_field_i64(out, "active_time", r.active_time);
    emit_field_i64(out, "added_time", r.added_time);
    emit_field_bytes(out, "allocation", &r.allocation);
    emit_field_u8(out, "apply_ip_filter", r.apply_ip_filter);
    emit_field_u8(out, "auto_managed", r.auto_managed);
    emit_opt_field_bytes(out, "banned_peers", &r.banned_peers);
    emit_opt_field_bytes(out, "banned_peers6", &r.banned_peers6);
    emit_field_i64(out, "completed_time", r.completed_time);
    proof {
        assert(out@ =~= old(out)@ + g1_enc(r.active_time, r.added_time, r.allocation@, r.apply_ip_filter, r.auto_managed, r.banned_peers, r.banned_peers6, r.completed_time));
    }
}

/// Emits the fields of group 2.
fn emit_g2(out: &mut Vec<u8>, r: &Fastresume)
    ensures
        final(out)@ == old(out)@ + g2_enc(r.disable_dht, r.disable_lsd, r.disable_pex, r.download_rate_limit, r.file_format@, r.file_version, r.file_priority, r.finished_time),
{
    emit_field_u8(out, "disable_dht", r.disable_dht);
    emit_field_u8(out, "disable_lsd", r.disable_lsd);
    emit_field_u8(out, "disable_pex", r.disable_pex);
    emit_field_i32(out, "download_rate_limit", r.download_rate_limit);
    emit_field_bytes(out, "file-format", &r.file_format);
    emit_field_u8(out, "file-version", r.file_version);
    emit_opt_field_ints(out, "file_priority", &r.file_priority);
    emit_field_i64(out, "finished_time", r.finished_time);
    proof {
        assert(out@ =~= old(out)@ + g2_enc(r.disable_dht, r.disable_lsd, r.disable_pex, r.download_rate_limit, r.file_format@, r.file_version, r.file_priority, r.finished_time));
    }
}

/// Emits the fields of group 3.
fn emit_g3(out: &mut Vec<u8>, r: &Fastresume)
    ensures
        final(out)@ == old(out)@ + g3_enc(r.httpseeds, r.i2p, r.info_hash@, r.info_hash2, r.last_download, r.last_seen_complete, r.last_upload, r.libtorrent_version@),
{
    emit_opt_field_texts(out, "httpseeds", &r.httpseeds);
    emit_opt_field_u8(out, "i2p", &r.i2p);
    emit_field_bytes(out, "info-hash", &r.info_hash);
    emit_opt_field_bytes(out, "info-hash2", &r.info_hash2);
    emit_field_i64(out, "last_download", r.last_download);
    emit_field_i64(out, "last_seen_complete", r.last_seen_complete);
    emit_field_i64(out, "last_upload", r.last_upload);
    emit_field_bytes(out, "libtorrent-version", &r.libtorrent_version);
    proof {
        assert(out@ =~= old(out)@ + g3_enc(r.httpseeds, r.i2p, r.info_hash@, r.info_hash2, r.last_download, r.last_seen_complete, r.last_upload, r.libtorrent_version@));
    }
}

/// Emits the fields of group 4.
fn emit_g4(out: &mut Vec<u8>, r: &Fastresume)
    ensures
        final(out)@ == old(out)@ + g4_enc(r.max_connections, r.max_uploads, r.name, r.num_complete, r.num_downloaded, r.num_incomplete, r.paused, r.peers),
{
    emit_field_i64(out, "max_connections", r.max_connections);
    emit_field_i64(out, "max_uploads", r.max_uploads);
    emit_opt_field_bytes(out, "name", &r.name);
    emit_field_u64(out, "num_complete", r.num_complete);
    emit_field_u64(out, "num_downloaded", r.num_downloaded);
    emit_field_u64(out, "num_incomplete", r.num_incomplete);
    emit_field_u8(out, "paused", r.paused);
    emit_opt_field_bytes(out, "peers", &r.peers);
    proof {
        assert(out@ =~= old(out)@ + g4_enc(r.max_connections, r.max_uploads, r.name, r.num_complete, r.num_downloaded, r.num_incomplete, r.paused, r.peers));
    }
}

/// Emits the fields of group 5.
fn emit_g5(out: &mut Vec<u8>, r: &Fastresume)
    ensures
        final(out)@ == old(out)@ + g5_enc(r.peers6, r.piece_priority, r.pieces@, r.qbt_category, r.qbt_content_layout, r.qbt_download_path, r.qbt_first_last_piece_priority, r.qbt_inactive_seeding_time_limit),
{
    emit_opt_field_bytes(out, "peers6", &r.peers6);
    emit_opt_field_bytes(out, "piece_priority", &r.piece_priority);
    emit_field_bytes(out, "pieces", &r.pieces);
    emit_opt_field_text(out, "qBt-category", &r.qbt_category);
    emit_opt_field_text(out, "qBt-contentLayout", &r.qbt_content_layout);
    emit_opt_field_text(out, "qBt-downloadPath", &r.qbt_download_path);
    emit_opt_field_i64(out, "qBt-firstLastPiecePriority", &r.qbt_first_last_piece_priority);
    emit_opt_field_i64(out, "qBt-inactiveSeedingTimeLimit", &r.qbt_inactive_seeding_time_limit);
    proof {
        assert(out@ =~= old(out)@ + g5_enc(r.peers6, r.piece_priority, r.pieces@, r.qbt_category, r.qbt_content_layout, r.qbt_download_path, r.qbt_first_last_piece_priority, r.qbt_inactive_seeding_time_limit));
    }
}

/// Emits the fields of group 6.
fn emit_g6(out: &mut Vec<u8>, r: &Fastresume)
    ensures
        final(out)@ == old(out)@ + g6_enc(r.qbt_name, r.qbt_ratio_limit, r.qbt_save_path, r.qbt_seed_status, r.qbt_seeding_time_limit, r.qbt_share_limit_action, r.qbt_stop_condition, r.qbt_tags),
{
    emit_opt_field_text(out, "qBt-name", &r.qbt_name);
    emit_opt_field_i64(out, "qBt-ratioLimit", &r.qbt_ratio_limit);
    emit_opt_field_text(out, "qBt-savePath", &r.qbt_save_path);
    emit_opt_field_i64(out, "qBt-seedStatus", &r.qbt_seed_status);
    emit_opt_field_i64(out, "qBt-seedingTimeLimit", &r.qbt_seeding_time_limit);
    emit_opt_field_text(out, "qBt-shareLimitAction", &r.qbt_share_limit_action);
    emit_opt_field_text(out, "qBt-stopCondition", &r.qbt_stop_condition);
    emit_opt_field_texts(out, "qBt-tags", &r.qbt_tags);
    proof {
        assert(out@ =~= old(out)@ + g6_enc(r.qbt_name, r.qbt_ratio_limit, r.qbt_save_path, r.qbt_seed_status, r.qbt_seeding_time_limit, r.qbt_share_limit_action, r.qbt_stop_condition, r.qbt_tags));
    }
}

/// Emits the fields of group 7.
fn emit_g7(out: &mut Vec<u8>, r: &Fastresume)
    ensures
        final(out)@ == old(out)@ + g7_enc(r.save_path@, r.seed_mode, r.seeding_time, r.sequential_download, r.share_mode, r.stop_when_ready, r.super_seeding, r.total_downloaded),
{
    emit_field_bytes(out, "save_path", &r.save_path);
    emit_field_u8(out, "seed_mode", r.seed_mode);
    emit_field_i64(out, "seeding_time", r.seeding_time);
    emit_field_u8(out, "sequential_download", r.sequential_download);
    emit_field_u8(out, "share_mode", r.share_mode);
    emit_field_u8(out, "stop_when_ready", r.stop_when_ready);
    emit_field_u8(out, "super_seeding", r.super_seeding);
    emit_field_u64(out, "total_downloaded", r.total_downloaded);
    proof {
        assert(out@ =~= old(out)@ + g7_enc(r.save_path@, r.seed_mode, r.seeding_time, r.sequential_download, r.share_mode, r.stop_when_ready, r.super_seeding, r.total_downloaded));
    }
}

/// Emits the fields of group 8.
fn emit_g8(out: &mut Vec<u8>, r: &Fastresume)
    ensures
        final(out)@ == old(out)@ + g8_enc(r.total_uploaded, r.trackers.deep_view(), r.unfinished, r.upload_mode, r.upload_rate_limit, r.url_list.deep_view()),
{
    emit_field_u64(out, "total_uploaded", r.total_uploaded);
    emit_field_tiers(out, "trackers", &r.trackers);
    emit_opt_field_pieces(out, "unfinished", &r.unfinished);
    emit_field_u8(out, "upload_mode", r.upload_mode);
    emit_field_i64(out, "upload_rate_limit", r.upload_rate_limit);
    emit_field_texts(out, "url-list", &r.url_list);
    proof {
        assert(out@ =~= old(out)@ + g8_enc(r.total_uploaded, r.trackers.deep_view(), r.unfinished, r.upload_mode, r.upload_rate_limit, r.url_list.deep_view()));
    }
}

/// Encodes a record into its canonical wire form.
pub fn encode(r: &Fastresume) -> (out: Vec<u8>)
    ensures
        out@ == spec_encode(*r),
{
    let mut out: Vec<u8> = Vec::new();
    out.push(TOK_DICT);
    proof {
        assert(out@ =~= seq![TOK_DICT]);
    }
    emit_g1(&mut out, r);
    proof {
        assert(out@ =~= seq![TOK_DICT] + g1_enc(r.active_time, r.added_time, r.allocation@, r.apply_ip_filter, r.auto_managed, r.banned_peers, r.banned_peers6, r.completed_time));
    }
    emit_g2(&mut out, r);
    proof {
        assert(out@ =~= seq![TOK_DICT] + g1_enc(r.active_time, r.added_time, r.allocation@, r.apply_ip_filter, r.auto_managed, r.banned_peers, r.banned_peers6, r.completed_time) + g2_enc(r.disable_dht, r.disable_lsd, r.disable_pex, r.download_rate_limit, r.file_format@, r.file_version, r.file_priority, r.finished_time));
    }
    emit_g3(&mut out, r);
    proof {
        assert(out@ =~= seq![TOK_DICT] + g1_enc(r.active_time, r.added_time, r.allocation@, r.apply_ip_filter, r.auto_managed, r.banned_peers, r.banned_peers6, r.completed_time) + g2_enc(r.disable_dht, r.disable_lsd, r.disable_pex, r.download_rate_limit, r.file_format@, r.file_version, r.file_priority, r.finished_time) + g3_enc(r.httpseeds, r.i2p, r.info_hash@, r.info_hash2, r.last_download, r.last_seen_complete, r.last_upload, r.libtorrent_version@));
    }
    emit_g4(&mut out, r);
    proof {
        assert(out@ =~= seq![TOK_DICT] + g1_enc(r.active_time, r.added_time, r.allocation@, r.apply_ip_filter, r.auto_managed, r.banned_peers, r.banned_peers6, r.completed_time) + g2_enc(r.disable_dht, r.disable_lsd, r.disable_pex, r.download_rate_limit, r.file_format@, r.file_version, r.file_priority, r.finished_time) + g3_enc(r.httpseeds, r.i2p, r.info_hash@, r.info_hash2, r.last_download, r.last_seen_complete, r.last_upload, r.libtorrent_version@) + g4_enc(r.max_connections, r.max_uploads, r.name, r.num_complete, r.num_downloaded, r.num_incomplete, r.paused, r.peers));
    }
    emit_g5(&mut out, r);
    proof {
        assert(out@ =~= seq![TOK_DICT] + g1_enc(r.active_time, r.added_time, r.allocation@, r.apply_ip_filter, r.auto_managed, r.banned_peers, r.banned_peers6, r.completed_time) + g2_enc(r.disable_dht, r.disable_lsd, r.disable_pex, r.download_rate_limit, r.file_format@, r.file_version, r.file_priority, r.finished_time) + g3_enc(r.httpseeds, r.i2p, r.info_hash@, r.info_hash2, r.last_download, r.last_seen_complete, r.last_upload, r.libtorrent_version@) + g4_enc(r.max_connections, r.max_uploads, r.name, r.num_complete, r.num_downloaded, r.num_incomplete, r.paused, r.peers) + g5_enc(r.peers6, r.piece_priority, r.pieces@, r.qbt_category, r.qbt_content_layout, r.qbt_download_path, r.qbt_first_last_piece_priority, r.qbt_inactive_seeding_time_limit));
    }
    emit_g6(&mut out, r);
    proof {
        assert(out@ =~= seq![TOK_DICT] + g1_enc(r.active_time, r.added_time, r.allocation@, r.apply_ip_filter, r.auto_managed, r.banned_peers, r.banned_peers6, r.completed_time) + g2_enc(r.disable_dht, r.disable_lsd, r.disable_pex, r.download_rate_limit, r.file_format@, r.file_version, r.file_priority, r.finished_time) + g3_enc(r.httpseeds, r.i2p, r.info_hash@, r.info_hash2, r.last_download, r.last_seen_complete, r.last_upload, r.libtorrent_version@) + g4_enc(r.max_connections, r.max_uploads, r.name, r.num_complete, r.num_downloaded, r.num_incomplete, r.paused, r.peers) + g5_enc(r.peers6, r.piece_priority, r.pieces@, r.qbt_category, r.qbt_content_layout, r.qbt_download_path, r.qbt_first_last_piece_priority, r.qbt_inactive_seeding_time_limit) + g6_enc(r.qbt_name, r.qbt_ratio_limit, r.qbt_save_path, r.qbt_seed_status, r.qbt_seeding_time_limit, r.qbt_share_limit_action, r.qbt_stop_condition, r.qbt_tags));
    }
    emit_g7(&mut out, r);
    proof {
        assert(out@ =~= seq![TOK_DICT] + g1_enc(r.active_time, r.added_time, r.allocation@, r.apply_ip_filter, r.auto_managed, r.banned_peers, r.banned_peers6, r.completed_time) + g2_enc(r.disable_dht, r.disable_lsd, r.disable_pex, r.download_rate_limit, r.file_format@, r.file_version, r.file_priority, r.finished_time) + g3_enc(r.httpseeds, r.i2p, r.info_hash@, r.info_hash2, r.last_download, r.last_seen_complete, r.last_upload, r.libtorrent_version@) + g4_enc(r.max_connections, r.max_uploads, r.name, r.num_complete, r.num_downloaded, r.num_incomplete, r.paused, r.peers) + g5_enc(r.peers6, r.piece_priority, r.pieces@, r.qbt_category, r.qbt_content_layout, r.qbt_download_path, r.qbt_first_last_piece_priority, r.qbt_inactive_seeding_time_limit) + g6_enc(r.qbt_name, r.qbt_ratio_limit, r.qbt_save_path, r.qbt_seed_status, r.qbt_seeding_time_limit, r.qbt_share_limit_action, r.qbt_stop_condition, r.qbt_tags) + g7_enc(r.save_path@, r.seed_mode, r.seeding_time, r.sequential_download, r.share_mode, r.stop_when_ready, r.super_seeding, r.total_downloaded));
    }
    emit_g8(&mut out, r);
    proof {
        assert(out@ =~= seq![TOK_DICT] + g1_enc(r.active_time, r.added_time, r.allocation@, r.apply_ip_filter, r.auto_managed, r.banned_peers, r.banned_peers6, r.completed_time) + g2_enc(r.disable_dht, r.disable_lsd, r.disable_pex, r.download_rate_limit, r.file_format@, r.file_version, r.file_priority, r.finished_time) + g3_enc(r.httpseeds, r.i2p, r.info_hash@, r.info_hash2, r.last_download, r.last_seen_complete, r.last_upload, r.libtorrent_version@) + g4_enc(r.max_connections, r.max_uploads, r.name, r.num_complete, r.num_downloaded, r.num_incomplete, r.paused, r.peers) + g5_enc(r.peers6, r.piece_priority, r.pieces@, r.qbt_category, r.qbt_content_layout, r.qbt_download_path, r.qbt_first_last_piece_priority, r.qbt_inactive_seeding_time_limit) + g6_enc(r.qbt_name, r.qbt_ratio_limit, r.qbt_save_path, r.qbt_seed_status, r.qbt_seeding_time_limit, r.qbt_share_limit_action, r.qbt_stop_condition, r.qbt_tags) + g7_enc(r.save_path@, r.seed_mode, r.seeding_time, r.sequential_download, r.share_mode, r.stop_when_ready, r.super_seeding, r.total_downloaded) + g8_enc(r.total_uploaded, r.trackers.deep_view(), r.unfinished, r.upload_mode, r.upload_rate_limit, r.url_list.deep_view()));
    }
    out.push(TOK_END);
    proof {
        assert(out@ =~= spec_encode(*r));
    }
    out
}

/// Fields of group 1 as read by the decoder.
struct Dec1 {
    active_time: i64,
    added_time: i64,
    allocation: Vec<u8>,
    apply_ip_filter: u8,
    auto_managed: u8,
    banned_peers: Option<Vec<u8>>,
    banned_peers6: Option<Vec<u8>>,
    completed_time: i64,
}

/// Reads the fields of group 1 in canonical key order.
#[verifier::rlimit(100)]
#[verifier::spinoff_prover]
fn dec_g1(buf: &[u8], pos: &mut usize) -> (r: Result<Dec1, DecodeError>)
    requires
        *old(pos) <= buf@.len(),
    ensures
        *final(pos) <= buf@.len(),
        r matches Ok(g) ==> *old(pos) <= *final(pos) && buf@.subrange(
            *old(pos) as int,
            *final(pos) as int,
        ) == g1_enc(g.active_time, g.added_time, g.allocation@, g.apply_ip_filter, g.auto_managed, g.banned_peers, g.banned_peers6, g.completed_time),
{
    let ghost p0 = *pos;
    let active_time = match take_i64(buf, pos, "active_time") {
        Ok(v) => v,
        Err(e) => {
            return Err(e);
        },
    };
    let ghost p1 = *pos;
    proof {
        assert(buf@.subrange(p0 as int, p1 as int) =~= field_int("active_time"@, active_time as int));
    }
    let added_time = match take_i64(buf, pos, "added_time") {
        Ok(v) => v,
        Err(e) => {
            return Err(e);
        },
    };
    let ghost p2 = *pos;
    proof {
        assert(buf@.subrange(p0 as int, p2 as int) =~= field_int("active_time"@, active_time as int) + field_int("added_time"@, added_time as int));
    }
    let allocation = match take_bytes(buf, pos, "allocation") {
        Ok(v) => v,
        Err(e) => {
            return Err(e);
        },
    };
    let ghost p3 = *pos;
    proof {
        assert(buf@.subrange(p0 as int, p3 as int) =~= field_int("active_time"@, active_time as int) + field_int("added_time"@, added_time as int) + field_bytes("allocation"@, allocation@));
    }
    let apply_ip_filter = match take_u8(buf, pos, "apply_ip_filter") {
        Ok(v) => v,
        Err(e) => {
            return Err(e);
        },
    };
    let ghost p4 = *pos;
    proof {
        assert(buf@.subrange(p0 as int, p4 as int) =~= field_int("active_time"@, active_time as int) + field_int("added_time"@, added_time as int) + field_bytes("allocation"@, allocation@) + field_int("apply_ip_filter"@, apply_ip_filter as int));
    }
    let auto_managed = match take_u8(buf, pos, "auto_managed") {
        Ok(v) => v,
        Err(e) => {
            return Err(e);
        },
    };
    let ghost p5 = *pos;
    proof {
        assert(buf@.subrange(p0 as int, p5 as int) =~= field_int("active_time"@, active_time as int) + field_int("added_time"@, added_time as int) + field_bytes("allocation"@, allocation@) + field_int("apply_ip_filter"@, apply_ip_filter as int) + field_int("auto_managed"@, auto_managed as int));
    }
    let banned_peers = match take_opt_bytes(buf, pos, "banned_peers") {
        Ok(v) => v,
        Err(e) => {
            return Err(e);
        },
    };
    let ghost p6 = *pos;
    proof {
        assert(buf@.subrange(p0 as int, p6 as int) =~= field_int("active_time"@, active_time as int) + field_int("added_time"@, added_time as int) + field_bytes("allocation"@, allocation@) + field_int("apply_ip_filter"@, apply_ip_filter as int) + field_int("auto_managed"@, auto_managed as int) + opt_field_bytes("banned_peers"@, banned_peers));
    }
    let banned_peers6 = match take_opt_bytes(buf, pos, "banned_peers6") {
        Ok(v) => v,
        Err(e) => {
            return Err(e);
        },
    };
    let ghost p7 = *pos;
    proof {
        assert(buf@.subrange(p0 as int, p7 as int) =~= field_int("active_time"@, active_time as int) + field_int("added_time"@, added_time as int) + field_bytes("allocation"@, allocation@) + field_int("apply_ip_filter"@, apply_ip_filter as int) + field_int("auto_managed"@, auto_managed as int) + opt_field_bytes("banned_peers"@, banned_peers) + opt_field_bytes("banned_peers6"@, banned_peers6));
    }
    let completed_time = match take_i64(buf, pos, "completed_time") {
        Ok(v) => v,
        Err(e) => {
            return Err(e);
        },
    };
    let ghost p8 = *pos;
    proof {
        assert(buf@.subrange(p0 as int, p8 as int) =~= field_int("active_time"@, active_time as int) + field_int("added_time"@, added_time as int) + field_bytes("allocation"@, allocation@) + field_int("apply_ip_filter"@, apply_ip_filter as int) + field_int("auto_managed"@, auto_managed as int) + opt_field_bytes("banned_peers"@, banned_peers) + opt_field_bytes("banned_peers6"@, banned_peers6) + field_int("completed_time"@, completed_time as int));
    }
    Ok(Dec1 { active_time, added_time, allocation, apply_ip_filter, auto_managed, banned_peers, banned_peers6, completed_time })
}

/// Fields of group 2 as read by the decoder.
struct Dec2 {
    disable_dht: u8,
    disable_lsd: u8,
    disable_pex: u8,
    download_rate_limit: i32,
    file_format: Vec<u8>,
    file_version: u8,
    file_priority: Option<Vec<u8>>,
    finished_time: i64,
}

/// Reads the fields of group 2 in canonical key order.
#[verifier::rlimit(100)]
#[verifier::spinoff_prover]
fn dec_g2(buf: &[u8], pos: &mut usize) -> (r: Result<Dec2, DecodeError>)
    requires
        *old(pos) <= buf@.len(),
    ensures
        *final(pos) <= buf@.len(),
        r matches Ok(g) ==> *old(pos) <= *final(pos) && buf@.subrange(
            *old(pos) as int,
            *final(pos) as int,
        ) == g2_enc(g.disable_dht, g.disable_lsd, g.disable_pex, g.download_rate_limit, g.file_format@, g.file_version, g.file_priority, g.finished_time),
{
    let ghost p0 = *pos;
    let disable_dht = match take_u8(buf, pos, "disable_dht") {
        Ok(v) => v,
        Err(e) => {
            return Err(e);
        },
    };
    let ghost p1 = *pos;
    proof {
        assert(buf@.subrange(p0 as int, p1 as int) =~= field_int("disable_dht"@, disable_dht as int));
    }
    let disable_lsd = match take_u8(buf, pos, "disable_lsd") {
        Ok(v) => v,
        Err(e) => {
            return Err(e);
        },
    };
    let ghost p2 = *pos;
    proof {
        assert(buf@.subrange(p0 as int, p2 as int) =~= field_int("disable_dht"@, disable_dht as int) + field_int("disable_lsd"@, disable_lsd as int));
    }
    let disable_pex = match take_u8(buf, pos, "disable_pex") {
        Ok(v) => v,
        Err(e) => {
            return Err(e);
        },
    };
    let ghost p3 = *pos;
    proof {
        assert(buf@.subrange(p0 as int, p3 as int) =~= field_int("disable_dht"@, disable_dht as int) + field_int("disable_lsd"@, disable_lsd as int) + field_int("disable_pex"@, disable_pex as int));
    }
    let download_rate_limit = match take_i32(buf, pos, "download_rate_limit") {
        Ok(v) => v,
        Err(e) => {
            return Err(e);
        },
    };
    let ghost p4 = *pos;
    proof {
        assert(buf@.subrange(p0 as int, p4 as int) =~= field_int("disable_dht"@, disable_dht as int) + field_int("disable_lsd"@, disable_lsd as int) + field_int("disable_pex"@, disable_pex as int) + field_int("download_rate_limit"@, download_rate_limit as int));
    }
    let file_format = match take_bytes(buf, pos, "file-format") {
        Ok(v) => v,
        Err(e) => {
            return Err(e);
        },
    };
    let ghost p5 = *pos;
    proof {
        assert(buf@.subrange(p0 as int, p5 as int) =~= field_int("disable_dht"@, disable_dht as int) + field_int("disable_lsd"@, disable_lsd as int) + field_int("disable_pex"@, disable_pex as int) + field_int("download_rate_limit"@, download_rate_limit as int) + field_bytes("file-format"@, file_format@));
    }
    let file_version = match take_u8(buf, pos, "file-version") {
        Ok(v) => v,
        Err(e) => {
            return Err(e);
        },
    };
    let ghost p6 = *pos;
    proof {
        assert(buf@.subrange(p0 as int, p6 as int) =~= field_int("disable_dht"@, disable_dht as int) + field_int("disable_lsd"@, disable_lsd as int) + field_int("disable_pex"@, disable_pex as int) + field_int("download_rate_limit"@, download_rate_limit as int) + field_bytes("file-format"@, file_format@) + field_int("file-version"@, file_version as int));
    }
    let file_priority = match take_opt_ints(buf, pos, "file_priority") {
        Ok(v) => v,
        Err(e) => {
            return Err(e);
        },
    };
    let ghost p7 = *pos;
    proof {
        assert(buf@.subrange(p0 as int, p7 as int) =~= field_int("disable_dht"@, disable_dht as int) + field_int("disable_lsd"@, disable_lsd as int) + field_int("disable_pex"@, disable_pex as int) + field_int("download_rate_limit"@, download_rate_limit as int) + field_bytes("file-format"@, file_format@) + field_int("file-version"@, file_version as int) + opt_field_ints("file_priority"@, file_priority));
    }
    let finished_time = match take_i64(buf, pos, "finished_time") {
        Ok(v) => v,
        Err(e) => {
            return Err(e);
        },
    };
    let ghost p8 = *pos;
    proof {
        assert(buf@.subrange(p0 as int, p8 as int) =~= field_int("disable_dht"@, disable_dht as int) + field_int("disable_lsd"@, disable_lsd as int) + field_int("disable_pex"@, disable_pex as int) + field_int("download_rate_limit"@, download_rate_limit as int) + field_bytes("file-format"@, file_format@) + field_int("file-version"@, file_version as int) + opt_field_ints("file_priority"@, file_priority) + field_int("finished_time"@, finished_time as int));
    }
    Ok(Dec2 { disable_dht, disable_lsd, disable_pex, download_rate_limit, file_format, file_version, file_priority, finished_time })
}

/// Fields of group 3 as read by the decoder.
struct Dec3 {
    httpseeds: Option<Vec<String>>,
    i2p: Option<u8>,
    info_hash: Vec<u8>,
    info_hash2: Option<Vec<u8>>,
    last_download: i64,
    last_seen_complete: i64,
    last_upload: i64,
    libtorrent_version: Vec<u8>,
}

/// Reads the fields of group 3 in canonical key order.
#[verifier::rlimit(100)]
#[verifier::spinoff_prover]
fn dec_g3(buf: &[u8], pos: &mut usize) -> (r: Result<Dec3, DecodeError>)
    requires
        *old(pos) <= buf@.len(),
    ensures
        *final(pos) <= buf@.len(),
        r matches Ok(g) ==> *old(pos) <= *final(pos) && buf@.subrange(
            *old(pos) as int,
            *final(pos) as int,
        ) == g3_enc(g.httpseeds, g.i2p, g.info_hash@, g.info_hash2, g.last_download, g.last_seen_complete, g.last_upload, g.libtorrent_version@),
{
    let ghost p0 = *pos;
    let httpseeds = match take_opt_texts(buf, pos, "httpseeds") {
        Ok(v) => v,
        Err(e) => {
            return Err(e);
        },
    };
    let ghost p1 = *pos;
    proof {
        assert(buf@.subrange(p0 as int, p1 as int) =~= opt_field_texts("httpseeds"@, httpseeds));
    }
    let i2p = match take_opt_u8(buf, pos, "i2p") {
        Ok(v) => v,
        Err(e) => {
            return Err(e);
        },
    };
    let ghost p2 = *pos;
    proof {
        assert(buf@.subrange(p0 as int, p2 as int) =~= opt_field_texts("httpseeds"@, httpseeds) + opt_field_u8("i2p"@, i2p));
    }
    let info_hash = match take_bytes(buf, pos, "info-hash") {
        Ok(v) => v,
        Err(e) => {
            return Err(e);
        },
    };
    let ghost p3 = *pos;
    proof {
        assert(buf@.subrange(p0 as int, p3 as int) =~= opt_field_texts("httpseeds"@, httpseeds) + opt_field_u8("i2p"@, i2p) + field_bytes("info-hash"@, info_hash@));
    }
    let info_hash2 = match take_opt_bytes(buf, pos, "info-hash2") {
        Ok(v) => v,
        Err(e) => {
            return Err(e);
        },
    };
    let ghost p4 = *pos;
    proof {
        assert(buf@.subrange(p0 as int, p4 as int) =~= opt_field_texts("httpseeds"@, httpseeds) + opt_field_u8("i2p"@, i2p) + field_bytes("info-hash"@, info_hash@) + opt_field_bytes("info-hash2"@, info_hash2));
    }
    let last_download = match take_i64(buf, pos, "last_download") {
        Ok(v) => v,
        Err(e) => {
            return Err(e);
        },
    };
    let ghost p5 = *pos;
    proof {
        assert(buf@.subrange(p0 as int, p5 as int) =~= opt_field_texts("httpseeds"@, httpseeds) + opt_field_u8("i2p"@, i2p) + field_bytes("info-hash"@, info_hash@) + opt_field_bytes("info-hash2"@, info_hash2) + field_int("last_download"@, last_download as int));
    }
    let last_seen_complete = match take_i64(buf, pos, "last_seen_complete") {
        Ok(v) => v,
        Err(e) => {
            return Err(e);
        },
    };
    let ghost p6 = *pos;
    proof {
        assert(buf@.subrange(p0 as int, p6 as int) =~= opt_field_texts("httpseeds"@, httpseeds) + opt_field_u8("i2p"@, i2p) + field_bytes("info-hash"@, info_hash@) + opt_field_bytes("info-hash2"@, info_hash2) + field_int("last_download"@, last_download as int) + field_int("last_seen_complete"@, last_seen_complete as int));
    }
    let last_upload = match take_i64(buf, pos, "last_upload") {
        Ok(v) => v,
        Err(e) => {
            return Err(e);
        },
    };
    let ghost p7 = *pos;
    proof {
        assert(buf@.subrange(p0 as int, p7 as int) =~= opt_field_texts("httpseeds"@, httpseeds) + opt_field_u8("i2p"@, i2p) + field_bytes("info-hash"@, info_hash@) + opt_field_bytes("info-hash2"@, info_hash2) + field_int("last_download"@, last_download as int) + field_int("last_seen_complete"@, last_seen_complete as int) + field_int("last_upload"@, last_upload as int));
    }
    let libtorrent_version = match take_bytes(buf, pos, "libtorrent-version") {
        Ok(v) => v,
        Err(e) => {
            return Err(e);
        },
    };
    let ghost p8 = *pos;
    proof {
        assert(buf@.subrange(p0 as int, p8 as int) =~= opt_field_texts("httpseeds"@, httpseeds) + opt_field_u8("i2p"@, i2p) + field_bytes("info-hash"@, info_hash@) + opt_field_bytes("info-hash2"@, info_hash2) + field_int("last_download"@, last_download as int) + field_int("last_seen_complete"@, last_seen_complete as int) + field_int("last_upload"@, last_upload as int) + field_bytes("libtorrent-version"@, libtorrent_version@));
    }
    Ok(Dec3 { httpseeds, i2p, info_hash, info_hash2, last_download, last_seen_complete, last_upload, libtorrent_version })
}

/// Fields of group 4 as read by the decoder.
struct Dec4 {
    max_connections: i64,
    max_uploads: i64,
    name: Option<Vec<u8>>,
    num_complete: u64,
    num_downloaded: u64,
    num_incomplete: u64,
    paused: u8,
    peers: Option<Vec<u8>>,
}

/// Reads the fields of group 4 in canonical key order.
#[verifier::rlimit(100)]
#[verifier::spinoff_prover]
fn dec_g4(buf: &[u8], pos: &mut usize) -> (r: Result<Dec4, DecodeError>)
    requires
        *old(pos) <= buf@.len(),
    ensures
        *final(pos) <= buf@.len(),
        r matches Ok(g) ==> *old(pos) <= *final(pos) && buf@.subrange(
            *old(pos) as int,
            *final(pos) as int,
        ) == g4_enc(g.max_connections, g.max_uploads, g.name, g.num_complete, g.num_downloaded, g.num_incomplete, g.paused, g.peers),
{
    let ghost p0 = *pos;
    let max_connections = match take_i64(buf, pos, "max_connections") {
        Ok(v) => v,
        Err(e) => {
            return Err(e);
        },
    };
    let ghost p1 = *pos;
    proof {
        assert(buf@.subrange(p0 as int, p1 as int) =~= field_int("max_connections"@, max_connections as int));
    }
    let max_uploads = match take_i64(buf, pos, "max_uploads") {
        Ok(v) => v,
        Err(e) => {
            return Err(e);
        },
    };
    let ghost p2 = *pos;
    proof {
        assert(buf@.subrange(p0 as int, p2 as int) =~= field_int("max_connections"@, max_connections as int) + field_int("max_uploads"@, max_uploads as int));
    }
    let name = match take_opt_bytes(buf, pos, "name") {
        Ok(v) => v,
        Err(e) => {
            return Err(e);
        },
    };
    let ghost p3 = *pos;
    proof {
        assert(buf@.subrange(p0 as int, p3 as int) =~= field_int("max_connections"@, max_connections as int) + field_int("max_uploads"@, max_uploads as int) + opt_field_bytes("name"@, name));
    }
    let num_complete = match take_u64(buf, pos, "num_complete") {
        Ok(v) => v,
        Err(e) => {
            return Err(e);
        },
    };
    let ghost p4 = *pos;
    proof {
        assert(buf@.subrange(p0 as int, p4 as int) =~= field_int("max_connections"@, max_connections as int) + field_int("max_uploads"@, max_uploads as int) + opt_field_bytes("name"@, name) + field_int("num_complete"@, num_complete as int));
    }
    let num_downloaded = match take_u64(buf, pos, "num_downloaded") {
        Ok(v) => v,
        Err(e) => {
            return Err(e);
        },
    };
    let ghost p5 = *pos;
    proof {
        assert(buf@.subrange(p0 as int, p5 as int) =~= field_int("max_connections"@, max_connections as int) + field_int("max_uploads"@, max_uploads as int) + opt_field_bytes("name"@, name) + field_int("num_complete"@, num_complete as int) + field_int("num_downloaded"@, num_downloaded as int));
    }
    let num_incomplete = match take_u64(buf, pos, "num_incomplete") {
        Ok(v) => v,
        Err(e) => {
            return Err(e);
        },
    };
    let ghost p6 = *pos;
    proof {
        assert(buf@.subrange(p0 as int, p6 as int) =~= field_int("max_connections"@, max_connections as int) + field_int("max_uploads"@, max_uploads as int) + opt_field_bytes("name"@, name) + field_int("num_complete"@, num_complete as int) + field_int("num_downloaded"@, num_downloaded as int) + field_int("num_incomplete"@, num_incomplete as int));
    }
    let paused = match take_u8(buf, pos, "paused") {
        Ok(v) => v,
        Err(e) => {
            return Err(e);
        },
    };
    let ghost p7 = *pos;
    proof {
        assert(buf@.subrange(p0 as int, p7 as int) =~= field_int("max_connections"@, max_connections as int) + field_int("max_uploads"@, max_uploads as int) + opt_field_bytes("name"@, name) + field_int("num_complete"@, num_complete as int) + field_int("num_downloaded"@, num_downloaded as int) + field_int("num_incomplete"@, num_incomplete as int) + field_int("paused"@, paused as int));
    }
    let peers = match take_opt_bytes(buf, pos, "peers") {
        Ok(v) => v,
        Err(e) => {
            return Err(e);
        },
    };
    let ghost p8 = *pos;
    proof {
        assert(buf@.subrange(p0 as int, p8 as int) =~= field_int("max_connections"@, max_connections as int) + field_int("max_uploads"@, max_uploads as int) + opt_field_bytes("name"@, name) + field_int("num_complete"@, num_complete as int) + field_int("num_downloaded"@, num_downloaded as int) + field_int("num_incomplete"@, num_incomplete as int) + field_int("paused"@, paused as int) + opt_field_bytes("peers"@, peers));
    }
    Ok(Dec4 { max_connections, max_uploads, name, num_complete, num_downloaded, num_incomplete, paused, peers })
}

/// Fields of group 5 as read by the decoder.
struct Dec5 {
    peers6: Option<Vec<u8>>,
    piece_priority: Option<Vec<u8>>,
    pieces: Vec<u8>,
    qbt_category: Option<String>,
    qbt_content_layout: Option<String>,
    qbt_download_path: Option<String>,
    qbt_first_last_piece_priority: Option<i64>,
    qbt_inactive_seeding_time_limit: Option<i64>,
}

/// Reads the fields of group 5 in canonical key order.
#[verifier::rlimit(100)]
#[verifier::spinoff_prover]
fn dec_g5(buf: &[u8], pos: &mut usize) -> (r: Result<Dec5, DecodeError>)
    requires
        *old(pos) <= buf@.len(),
    ensures
        *final(pos) <= buf@.len(),
        r matches Ok(g) ==> *old(pos) <= *final(pos) && buf@.subrange(
            *old(pos) as int,
            *final(pos) as int,
        ) == g5_enc(g.peers6, g.piece_priority, g.pieces@, g.qbt_category, g.qbt_content_layout, g.qbt_download_path, g.qbt_first_last_piece_priority, g.qbt_inactive_seeding_time_limit),
{
    let ghost p0 = *pos;
    let peers6 = match take_opt_bytes(buf, pos, "peers6") {
        Ok(v) => v,
        Err(e) => {
            return Err(e);
        },
    };
    let ghost p1 = *pos;
    proof {
        assert(buf@.subrange(p0 as int, p1 as int) =~= opt_field_bytes("peers6"@, peers6));
    }
    let piece_priority = match take_opt_bytes(buf, pos, "piece_priority") {
        Ok(v) => v,
        Err(e) => {
            return Err(e);
        },
    };
    let ghost p2 = *pos;
    proof {
        assert(buf@.subrange(p0 as int, p2 as int) =~= opt_field_bytes("peers6"@, peers6) + opt_field_bytes("piece_priority"@, piece_priority));
    }
    let pieces = match take_bytes(buf, pos, "pieces") {
        Ok(v) => v,
        Err(e) => {
            return Err(e);
        },
    };
    let ghost p3 = *pos;
    proof {
        assert(buf@.subrange(p0 as int, p3 as int) =~= opt_field_bytes("peers6"@, peers6) + opt_field_bytes("piece_priority"@, piece_priority) + field_bytes("pieces"@, pieces@));
    }
    let qbt_category = match take_opt_text(buf, pos, "qBt-category") {
        Ok(v) => v,
        Err(e) => {
            return Err(e);
        },
    };
    let ghost p4 = *pos;
    proof {
        assert(buf@.subrange(p0 as int, p4 as int) =~= opt_field_bytes("peers6"@, peers6) + opt_field_bytes("piece_priority"@, piece_priority) + field_bytes("pieces"@, pieces@) + opt_field_text("qBt-category"@, qbt_category));
    }
    let qbt_content_layout = match take_opt_text(buf, pos, "qBt-contentLayout") {
        Ok(v) => v,
        Err(e) => {
            return Err(e);
        },
    };
    let ghost p5 = *pos;
    proof {
        assert(buf@.subrange(p0 as int, p5 as int) =~= opt_field_bytes("peers6"@, peers6) + opt_field_bytes("piece_priority"@, piece_priority) + field_bytes("pieces"@, pieces@) + opt_field_text("qBt-category"@, qbt_category) + opt_field_text("qBt-contentLayout"@, qbt_content_layout));
    }
    let qbt_download_path = match take_opt_text(buf, pos, "qBt-downloadPath") {
        Ok(v) => v,
        Err(e) => {
            return Err(e);
        },
    };
    let ghost p6 = *pos;
    proof {
        assert(buf@.subrange(p0 as int, p6 as int) =~= opt_field_bytes("peers6"@, peers6) + opt_field_bytes("piece_priority"@, piece_priority) + field_bytes("pieces"@, pieces@) + opt_field_text("qBt-category"@, qbt_category) + opt_field_text("qBt-contentLayout"@, qbt_content_layout) + opt_field_text("qBt-downloadPath"@, qbt_download_path));
    }
    let qbt_first_last_piece_priority = match take_opt_i64(buf, pos, "qBt-firstLastPiecePriority") {
        Ok(v) => v,
        Err(e) => {
            return Err(e);
        },
    };
    let ghost p7 = *pos;
    proof {
        assert(buf@.subrange(p0 as int, p7 as int) =~= opt_field_bytes("peers6"@, peers6) + opt_field_bytes("piece_priority"@, piece_priority) + field_bytes("pieces"@, pieces@) + opt_field_text("qBt-category"@, qbt_category) + opt_field_text("qBt-contentLayout"@, qbt_content_layout) + opt_field_text("qBt-downloadPath"@, qbt_download_path) + opt_field_i64("qBt-firstLastPiecePriority"@, qbt_first_last_piece_priority));
    }
    let qbt_inactive_seeding_time_limit = match take_opt_i64(buf, pos, "qBt-inactiveSeedingTimeLimit") {
        Ok(v) => v,
        Err(e) => {
            return Err(e);
        },
    };
    let ghost p8 = *pos;
    proof {
        assert(buf@.subrange(p0 as int, p8 as int) =~= opt_field_bytes("peers6"@, peers6) + opt_field_bytes("piece_priority"@, piece_priority) + field_bytes("pieces"@, pieces@) + opt_field_text("qBt-category"@, qbt_category) + opt_field_text("qBt-contentLayout"@, qbt_content_layout) + opt_field_text("qBt-downloadPath"@, qbt_download_path) + opt_field_i64("qBt-firstLastPiecePriority"@, qbt_first_last_piece_priority) + opt_field_i64("qBt-inactiveSeedingTimeLimit"@, qbt_inactive_seeding_time_limit));
    }
    Ok(Dec5 { peers6, piece_priority, pieces, qbt_category, qbt_content_layout, qbt_download_path, qbt_first_last_piece_priority, qbt_inactive_seeding_time_limit })
}

/// Fields of group 6 as read by the decoder.
struct Dec6 {
    qbt_name: Option<String>,
    qbt_ratio_limit: Option<i64>,
    qbt_save_path: Option<String>,
    qbt_seed_status: Option<i64>,
    qbt_seeding_time_limit: Option<i64>,
    qbt_share_limit_action: Option<String>,
    qbt_stop_condition: Option<String>,
    qbt_tags: Option<Vec<String>>,
}

/// Reads the fields of group 6 in canonical key order.
#[verifier::rlimit(100)]
#[verifier::spinoff_prover]
fn dec_g6(buf: &[u8], pos: &mut usize) -> (r: Result<Dec6, DecodeError>)
    requires
        *old(pos) <= buf@.len(),
    ensures
        *final(pos) <= buf@.len(),
        r matches Ok(g) ==> *old(pos) <= *final(pos) && buf@.subrange(
            *old(pos) as int,
            *final(pos) as int,
        ) == g6_enc(g.qbt_name, g.qbt_ratio_limit, g.qbt_save_path, g.qbt_seed_status, g.qbt_seeding_time_limit, g.qbt_share_limit_action, g.qbt_stop_condition, g.qbt_tags),
{
    let ghost p0 = *pos;
    let qbt_name = match take_opt_text(buf, pos, "qBt-name") {
        Ok(v) => v,
        Err(e) => {
            return Err(e);
        },
    };
    let ghost p1 = *pos;
    proof {
        assert(buf@.subrange(p0 as int, p1 as int) =~= opt_field_text("qBt-name"@, qbt_name));
    }
    let qbt_ratio_limit = match take_opt_i64(buf, pos, "qBt-ratioLimit") {
        Ok(v) => v,
        Err(e) => {
            return Err(e);
        },
    };
    let ghost p2 = *pos;
    proof {
        assert(buf@.subrange(p0 as int, p2 as int) =~= opt_field_text("qBt-name"@, qbt_name) + opt_field_i64("qBt-ratioLimit"@, qbt_ratio_limit));
    }
    let qbt_save_path = match take_opt_text(buf, pos, "qBt-savePath") {
        Ok(v) => v,
        Err(e) => {
            return Err(e);
        },
    };
    let ghost p3 = *pos;
    proof {
        assert(buf@.subrange(p0 as int, p3 as int) =~= opt_field_text("qBt-name"@, qbt_name) + opt_field_i64("qBt-ratioLimit"@, qbt_ratio_limit) + opt_field_text("qBt-savePath"@, qbt_save_path));
    }
    let qbt_seed_status = match take_opt_i64(buf, pos, "qBt-seedStatus") {
        Ok(v) => v,
        Err(e) => {
            return Err(e);
        },
    };
    let ghost p4 = *pos;
    proof {
        assert(buf@.subrange(p0 as int, p4 as int) =~= opt_field_text("qBt-name"@, qbt_name) + opt_field_i64("qBt-ratioLimit"@, qbt_ratio_limit) + opt_field_text("qBt-savePath"@, qbt_save_path) + opt_field_i64("qBt-seedStatus"@, qbt_seed_status));
    }
    let qbt_seeding_time_limit = match take_opt_i64(buf, pos, "qBt-seedingTimeLimit") {
        Ok(v) => v,
        Err(e) => {
            return Err(e);
        },
    };
    let ghost p5 = *pos;
    proof {
        assert(buf@.subrange(p0 as int, p5 as int) =~= opt_field_text("qBt-name"@, qbt_name) + opt_field_i64("qBt-ratioLimit"@, qbt_ratio_limit) + opt_field_text("qBt-savePath"@, qbt_save_path) + opt_field_i64("qBt-seedStatus"@, qbt_seed_status) + opt_field_i64("qBt-seedingTimeLimit"@, qbt_seeding_time_limit));
    }
    let qbt_share_limit_action = match take_opt_text(buf, pos, "qBt-shareLimitAction") {
        Ok(v) => v,
        Err(e) => {
            return Err(e);
        },
    };
    let ghost p6 = *pos;
    proof {
        assert(buf@.subrange(p0 as int, p6 as int) =~= opt_field_text("qBt-name"@, qbt_name) + opt_field_i64("qBt-ratioLimit"@, qbt_ratio_limit) + opt_field_text("qBt-savePath"@, qbt_save_path) + opt_field_i64("qBt-seedStatus"@, qbt_seed_status) + opt_field_i64("qBt-seedingTimeLimit"@, qbt_seeding_time_limit) + opt_field_text("qBt-shareLimitAction"@, qbt_share_limit_action));
    }
    let qbt_stop_condition = match take_opt_text(buf, pos, "qBt-stopCondition") {
        Ok(v) => v,
        Err(e) => {
            return Err(e);
        },
    };
    let ghost p7 = *pos;
    proof {
        assert(buf@.subrange(p0 as int, p7 as int) =~= opt_field_text("qBt-name"@, qbt_name) + opt_field_i64("qBt-ratioLimit"@, qbt_ratio_limit) + opt_field_text("qBt-savePath"@, qbt_save_path) + opt_field_i64("qBt-seedStatus"@, qbt_seed_status) + opt_field_i64("qBt-seedingTimeLimit"@, qbt_seeding_time_limit) + opt_field_text("qBt-shareLimitAction"@, qbt_share_limit_action) + opt_field_text("qBt-stopCondition"@, qbt_stop_condition));
    }
    let qbt_tags = match take_opt_texts(buf, pos, "qBt-tags") {
        Ok(v) => v,
        Err(e) => {
            return Err(e);
        },
    };
    let ghost p8 = *pos;
    proof {
        assert(buf@.subrange(p0 as int, p8 as int) =~= opt_field_text("qBt-name"@, qbt_name) + opt_field_i64("qBt-ratioLimit"@, qbt_ratio_limit) + opt_field_text("qBt-savePath"@, qbt_save_path) + opt_field_i64("qBt-seedStatus"@, qbt_seed_status) + opt_field_i64("qBt-seedingTimeLimit"@, qbt_seeding_time_limit) + opt_field_text("qBt-shareLimitAction"@, qbt_share_limit_action) + opt_field_text("qBt-stopCondition"@, qbt_stop_condition) + opt_field_texts("qBt-tags"@, qbt_tags));
    }
    Ok(Dec6 { qbt_name, qbt_ratio_limit, qbt_save_path, qbt_seed_status, qbt_seeding_time_limit, qbt_share_limit_action, qbt_stop_condition, qbt_tags })
}

/// Fields of group 7 as read by the decoder.
struct Dec7 {
    save_path: Vec<u8>,
    seed_mode: u8,
    seeding_time: i64,
    sequential_download: u8,
    share_mode: u8,
    stop_when_ready: u8,
    super_seeding: u8,
    total_downloaded: u64,
}

/// Reads the fields of group 7 in canonical key order.
#[verifier::rlimit(100)]
#[verifier::spinoff_prover]
fn dec_g7(buf: &[u8], pos: &mut usize) -> (r: Result<Dec7, DecodeError>)
    requires
        *old(pos) <= buf@.len(),
    ensures
        *final(pos) <= buf@.len(),
        r matches Ok(g) ==> *old(pos) <= *final(pos) && buf@.subrange(
            *old(pos) as int,
            *final(pos) as int,
        ) == g7_enc(g.save_path@, g.seed_mode, g.seeding_time, g.sequential_download, g.share_mode, g.stop_when_ready, g.super_seeding, g.total_downloaded),
        r matches Ok(g) ==> valid_utf8(g.save_path@),
{
    let ghost p0 = *pos;
    let save_path = match take_bytes_utf8(buf, pos, "save_path") {
        Ok(v) => v,
        Err(e) => {
            return Err(e);
        },
    };
    let ghost p1 = *pos;
    proof {
        assert(buf@.subrange(p0 as int, p1 as int) =~= field_bytes("save_path"@, save_path@));
    }
    let seed_mode = match take_u8(buf, pos, "seed_mode") {
        Ok(v) => v,
        Err(e) => {
            return Err(e);
        },
    };
    let ghost p2 = *pos;
    proof {
        assert(buf@.subrange(p0 as int, p2 as int) =~= field_bytes("save_path"@, save_path@) + field_int("seed_mode"@, seed_mode as int));
    }
    let seeding_time = match take_i64(buf, pos, "seeding_time") {
        Ok(v) => v,
        Err(e) => {
            return Err(e);
        },
    };
    let ghost p3 = *pos;
    proof {
        assert(buf@.subrange(p0 as int, p3 as int) =~= field_bytes("save_path"@, save_path@) + field_int("seed_mode"@, seed_mode as int) + field_int("seeding_time"@, seeding_time as int));
    }
    let sequential_download = match take_u8(buf, pos, "sequential_download") {
        Ok(v) => v,
        Err(e) => {
            return Err(e);
        },
    };
    let ghost p4 = *pos;
    proof {
        assert(buf@.subrange(p0 as int, p4 as int) =~= field_bytes("save_path"@, save_path@) + field_int("seed_mode"@, seed_mode as int) + field_int("seeding_time"@, seeding_time as int) + field_int("sequential_download"@, sequential_download as int));
    }
    let share_mode = match take_u8(buf, pos, "share_mode") {
        Ok(v) => v,
        Err(e) => {
            return Err(e);
        },
    };
    let ghost p5 = *pos;
    proof {
        assert(buf@.subrange(p0 as int, p5 as int) =~= field_bytes("save_path"@, save_path@) + field_int("seed_mode"@, seed_mode as int) + field_int("seeding_time"@, seeding_time as int) + field_int("sequential_download"@, sequential_download as int) + field_int("share_mode"@, share_mode as int));
    }
    let stop_when_ready = match take_u8(buf, pos, "stop_when_ready") {
        Ok(v) => v,
        Err(e) => {
            return Err(e);
        },
    };
    let ghost p6 = *pos;
    proof {
        assert(buf@.subrange(p0 as int, p6 as int) =~= field_bytes("save_path"@, save_path@) + field_int("seed_mode"@, seed_mode as int) + field_int("seeding_time"@, seeding_time as int) + field_int("sequential_download"@, sequential_download as int) + field_int("share_mode"@, share_mode as int) + field_int("stop_when_ready"@, stop_when_ready as int));
    }
    let super_seeding = match take_u8(buf, pos, "super_seeding") {
        Ok(v) => v,
        Err(e) => {
            return Err(e);
        },
    };
    let ghost p7 = *pos;
    proof {
        assert(buf@.subrange(p0 as int, p7 as int) =~= field_bytes("save_path"@, save_path@) + field_int("seed_mode"@, seed_mode as int) + field_int("seeding_time"@, seeding_time as int) + field_int("sequential_download"@, sequential_download as int) + field_int("share_mode"@, share_mode as int) + field_int("stop_when_ready"@, stop_when_ready as int) + field_int("super_seeding"@, super_seeding as int));
    }
    let total_downloaded = match take_u64(buf, pos, "total_downloaded") {
        Ok(v) => v,
        Err(e) => {
            return Err(e);
        },
    };
    let ghost p8 = *pos;
    proof {
        assert(buf@.subrange(p0 as int, p8 as int) =~= field_bytes("save_path"@, save_path@) + field_int("seed_mode"@, seed_mode as int) + field_int("seeding_time"@, seeding_time as int) + field_int("sequential_download"@, sequential_download as int) + field_int("share_mode"@, share_mode as int) + field_int("stop_when_ready"@, stop_when_ready as int) + field_int("super_seeding"@, super_seeding as int) + field_int("total_downloaded"@, total_downloaded as int));
    }
    Ok(Dec7 { save_path, seed_mode, seeding_time, sequential_download, share_mode, stop_when_ready, super_seeding, total_downloaded })
}

/// Fields of group 8 as read by the decoder.
struct Dec8 {
    total_uploaded: u64,
    trackers: Vec<Vec<String>>,
    unfinished: Option<Vec<UnfinishedPiece>>,
    upload_mode: u8,
    upload_rate_limit: i64,
    url_list: Vec<String>,
}

/// Reads the fields of group 8 in canonical key order.
#[verifier::rlimit(100)]
#[verifier::spinoff_prover]
fn dec_g8(buf: &[u8], pos: &mut usize) -> (r: Result<Dec8, DecodeError>)
    requires
        *old(pos) <= buf@.len(),
    ensures
        *final(pos) <= buf@.len(),
        r matches Ok(g) ==> *old(pos) <= *final(pos) && buf@.subrange(
            *old(pos) as int,
            *final(pos) as int,
        ) == g8_enc(g.total_uploaded, g.trackers.deep_view(), g.unfinished, g.upload_mode, g.upload_rate_limit, g.url_list.deep_view()),
{
    let ghost p0 = *pos;
    let total_uploaded = match take_u64(buf, pos, "total_uploaded") {
        Ok(v) => v,
        Err(e) => {
            return Err(e);
        },
    };
    let ghost p1 = *pos;
    proof {
        assert(buf@.subrange(p0 as int, p1 as int) =~= field_int("total_uploaded"@, total_uploaded as int));
    }
    let trackers = match take_tiers(buf, pos, "trackers") {
        Ok(v) => v,
        Err(e) => {
            return Err(e);
        },
    };
    let ghost p2 = *pos;
    proof {
        assert(buf@.subrange(p0 as int, p2 as int) =~= field_int("total_uploaded"@, total_uploaded as int) + field_tiers("trackers"@, trackers.deep_view()));
    }
    let unfinished = match take_opt_pieces(buf, pos, "unfinished") {
        Ok(v) => v,
        Err(e) => {
            return Err(e);
        },
    };
    let ghost p3 = *pos;
    proof {
        assert(buf@.subrange(p0 as int, p3 as int) =~= field_int("total_uploaded"@, total_uploaded as int) + field_tiers("trackers"@, trackers.deep_view()) + opt_field_pieces("unfinished"@, unfinished));
    }
    let upload_mode = match take_u8(buf, pos, "upload_mode") {
        Ok(v) => v,
        Err(e) => {
            return Err(e);
        },
    };
    let ghost p4 = *pos;
    proof {
        assert(buf@.subrange(p0 as int, p4 as int) =~= field_int("total_uploaded"@, total_uploaded as int) + field_tiers("trackers"@, trackers.deep_view()) + opt_field_pieces("unfinished"@, unfinished) + field_int("upload_mode"@, upload_mode as int));
    }
    let upload_rate_limit = match take_i64(buf, pos, "upload_rate_limit") {
        Ok(v) => v,
        Err(e) => {
            return Err(e);
        },
    };
    let ghost p5 = *pos;
    proof {
        assert(buf@.subrange(p0 as int, p5 as int) =~= field_int("total_uploaded"@, total_uploaded as int) + field_tiers("trackers"@, trackers.deep_view()) + opt_field_pieces("unfinished"@, unfinished) + field_int("upload_mode"@, upload_mode as int) + field_int("upload_rate_limit"@, upload_rate_limit as int));
    }
    let url_list = match take_texts(buf, pos, "url-list") {
        Ok(v) => v,
        Err(e) => {
            return Err(e);
        },
    };
    let ghost p6 = *pos;
    proof {
        assert(buf@.subrange(p0 as int, p6 as int) =~= field_int("total_uploaded"@, total_uploaded as int) + field_tiers("trackers"@, trackers.deep_view()) + opt_field_pieces("unfinished"@, unfinished) + field_int("upload_mode"@, upload_mode as int) + field_int("upload_rate_limit"@, upload_rate_limit as int) + field_texts("url-list"@, url_list.deep_view()));
    }
    Ok(Dec8 { total_uploaded, trackers, unfinished, upload_mode, upload_rate_limit, url_list })
}

/// Builds the record from the decoded field groups; its whole encoding is
/// the concatenation of the group encodings inside the dictionary frame.
#[verifier::rlimit(100)]
fn assemble_record(g1: Dec1, g2: Dec2, g3: Dec3, g4: Dec4, g5: Dec5, g6: Dec6, g7: Dec7, g8: Dec8) -> (rec: Fastresume)
    requires
        valid_utf8(g7.save_path@),
    ensures
        wf_record(rec),
        spec_encode(rec) == seq![TOK_DICT] + g1_enc(g1.active_time, g1.added_time, g1.allocation@, g1.apply_ip_filter, g1.auto_managed, g1.banned_peers, g1.banned_peers6, g1.completed_time)
        + g2_enc(g2.disable_dht, g2.disable_lsd, g2.disable_pex, g2.download_rate_limit, g2.file_format@, g2.file_version, g2.file_priority, g2.finished_time)
        + g3_enc(g3.httpseeds, g3.i2p, g3.info_hash@, g3.info_hash2, g3.last_download, g3.last_seen_complete, g3.last_upload, g3.libtorrent_version@)
        + g4_enc(g4.max_connections, g4.max_uploads, g4.name, g4.num_complete, g4.num_downloaded, g4.num_incomplete, g4.paused, g4.peers)
        + g5_enc(g5.peers6, g5.piece_priority, g5.pieces@, g5.qbt_category, g5.qbt_content_layout, g5.qbt_download_path, g5.qbt_first_last_piece_priority, g5.qbt_inactive_seeding_time_limit)
        + g6_enc(g6.qbt_name, g6.qbt_ratio_limit, g6.qbt_save_path, g6.qbt_seed_status, g6.qbt_seeding_time_limit, g6.qbt_share_limit_action, g6.qbt_stop_condition, g6.qbt_tags)
        + g7_enc(g7.save_path@, g7.seed_mode, g7.seeding_time, g7.sequential_download, g7.share_mode, g7.stop_when_ready, g7.super_seeding, g7.total_downloaded)
        + g8_enc(g8.total_uploaded, g8.trackers.deep_view(), g8.unfinished, g8.upload_mode, g8.upload_rate_limit, g8.url_list.deep_view()) + seq![TOK_END],
{
    let rec = Fastresume {
        active_time: g1.active_time,
        added_time: g1.added_time,
        allocation: g1.allocation,
        apply_ip_filter: g1.apply_ip_filter,
        auto_managed: g1.auto_managed,
        banned_peers: g1.banned_peers,
        banned_peers6: g1.banned_peers6,
        completed_time: g1.completed_time,
        disable_dht: g2.disable_dht,
        disable_lsd: g2.disable_lsd,
        disable_pex: g2.disable_pex,
        download_rate_limit: g2.download_rate_limit,
        file_format: g2.file_format,
        file_version: g2.file_version,
        file_priority: g2.file_priority,
        finished_time: g2.finished_time,
        httpseeds: g3.httpseeds,
        i2p: g3.i2p,
        info_hash: g3.info_hash,
        info_hash2: g3.info_hash2,
        last_download: g3.last_download,
        last_seen_complete: g3.last_seen_complete,
        last_upload: g3.last_upload,
        libtorrent_version: g3.libtorrent_version,
        max_connections: g4.max_connections,
        max_uploads: g4.max_uploads,
        name: g4.name,
        num_complete: g4.num_complete,
        num_downloaded: g4.num_downloaded,
        num_incomplete: g4.num_incomplete,
        paused: g4.paused,
        peers: g4.peers,
        peers6: g5.peers6,
        piece_priority: g5.piece_priority,
        pieces: g5.pieces,
        qbt_category: g5.qbt_category,
        qbt_content_layout: g5.qbt_content_layout,
        qbt_download_path: g5.qbt_download_path,
        qbt_first_last_piece_priority: g5.qbt_first_last_piece_priority,
        qbt_inactive_seeding_time_limit: g5.qbt_inactive_seeding_time_limit,
        qbt_name: g6.qbt_name,
        qbt_ratio_limit: g6.qbt_ratio_limit,
        qbt_save_path: g6.qbt_save_path,
        qbt_seed_status: g6.qbt_seed_status,
        qbt_seeding_time_limit: g6.qbt_seeding_time_limit,
        qbt_share_limit_action: g6.qbt_share_limit_action,
        qbt_stop_condition: g6.qbt_stop_condition,
        qbt_tags: g6.qbt_tags,
        save_path: g7.save_path,
        seed_mode: g7.seed_mode,
        seeding_time: g7.seeding_time,
        sequential_download: g7.sequential_download,
        share_mode: g7.share_mode,
        stop_when_ready: g7.stop_when_ready,
        super_seeding: g7.super_seeding,
        total_downloaded: g7.total_downloaded,
        total_uploaded: g8.total_uploaded,
        trackers: g8.trackers,
        unfinished: g8.unfinished,
        upload_mode: g8.upload_mode,
        upload_rate_limit: g8.upload_rate_limit,
        url_list: g8.url_list,
    };
    proof {
        assert(g1_enc(rec.active_time, rec.added_time, rec.allocation@, rec.apply_ip_filter, rec.auto_managed, rec.banned_peers, rec.banned_peers6, rec.completed_time) == g1_enc(g1.active_time, g1.added_time, g1.allocation@, g1.apply_ip_filter, g1.auto_managed, g1.banned_peers, g1.banned_peers6, g1.completed_time));
        assert(g2_enc(rec.disable_dht, rec.disable_lsd, rec.disable_pex, rec.download_rate_limit, rec.file_format@, rec.file_version, rec.file_priority, rec.finished_time) == g2_enc(g2.disable_dht, g2.disable_lsd, g2.disable_pex, g2.download_rate_limit, g2.file_format@, g2.file_version, g2.file_priority, g2.finished_time));
        assert(g3_enc(rec.httpseeds, rec.i2p, rec.info_hash@, rec.info_hash2, rec.last_download, rec.last_seen_complete, rec.last_upload, rec.libtorrent_version@) == g3_enc(g3.httpseeds, g3.i2p, g3.info_hash@, g3.info_hash2, g3.last_download, g3.last_seen_complete, g3.last_upload, g3.libtorrent_version@));
        assert(g4_enc(rec.max_connections, rec.max_uploads, rec.name, rec.num_complete, rec.num_downloaded, rec.num_incomplete, rec.paused, rec.peers) == g4_enc(g4.max_connections, g4.max_uploads, g4.name, g4.num_complete, g4.num_downloaded, g4.num_incomplete, g4.paused, g4.peers));
        assert(g5_enc(rec.peers6, rec.piece_priority, rec.pieces@, rec.qbt_category, rec.qbt_content_layout, rec.qbt_download_path, rec.qbt_first_last_piece_priority, rec.qbt_inactive_seeding_time_limit) == g5_enc(g5.peers6, g5.piece_priority, g5.pieces@, g5.qbt_category, g5.qbt_content_layout, g5.qbt_download_path, g5.qbt_first_last_piece_priority, g5.qbt_inactive_seeding_time_limit));
        assert(g6_enc(rec.qbt_name, rec.qbt_ratio_limit, rec.qbt_save_path, rec.qbt_seed_status, rec.qbt_seeding_time_limit, rec.qbt_share_limit_action, rec.qbt_stop_condition, rec.qbt_tags) == g6_enc(g6.qbt_name, g6.qbt_ratio_limit, g6.qbt_save_path, g6.qbt_seed_status, g6.qbt_seeding_time_limit, g6.qbt_share_limit_action, g6.qbt_stop_condition, g6.qbt_tags));
        assert(g7_enc(rec.save_path@, rec.seed_mode, rec.seeding_time, rec.sequential_download, rec.share_mode, rec.stop_when_ready, rec.super_seeding, rec.total_downloaded) == g7_enc(g7.save_path@, g7.seed_mode, g7.seeding_time, g7.sequential_download, g7.share_mode, g7.stop_when_ready, g7.super_seeding, g7.total_downloaded));
        assert(g8_enc(rec.total_uploaded, rec.trackers.deep_view(), rec.unfinished, rec.upload_mode, rec.upload_rate_limit, rec.url_list.deep_view()) == g8_enc(g8.total_uploaded, g8.trackers.deep_view(), g8.unfinished, g8.upload_mode, g8.upload_rate_limit, g8.url_list.deep_view()));
    }
    rec
}

/// Decodes a resume blob whose keys are in canonical order.  On success the
/// input is proved to be exactly the canonical encoding of the returned
/// record, so re-encoding the result reproduces the input byte for byte.
///
/// The contract is one-sided: acceptance pins the input completely, but
/// acceptance of every canonical encoding is not promised here (the
/// converse would need completeness contracts through the whole parser
/// stack); the tests exercise it on whole records.
#[verifier::rlimit(100)]
#[verifier::spinoff_prover]
pub fn decode_canonical(buf: &[u8]) -> (r: Result<Fastresume, DecodeError>)
    ensures
        r matches Ok(rec) ==> decoded_as(buf@, rec),
        buf@.len() == 0 ==> r == Err::<Fastresume, DecodeError>(DecodeError::Truncated),
        buf@.len() > 0 && buf@[0] != TOK_DICT ==> r == Err::<Fastresume, DecodeError>(
            DecodeError::Malformed,
        ),
{
    let mut pos: usize = 0;
    if buf.len() == 0 {
        return Err(DecodeError::Truncated);
    }
    if buf[0] != TOK_DICT {
        return Err(DecodeError::Malformed);
    }
    pos = 1;
    let ghost q0 = pos;
    let g1 = match dec_g1(buf, &mut pos) {
        Ok(g) => g,
        Err(e) => {
            return Err(e);
        },
    };
    let ghost q1 = pos;
    let ghost t1 = g1_enc(g1.active_time, g1.added_time, g1.allocation@, g1.apply_ip_filter, g1.auto_managed, g1.banned_peers, g1.banned_peers6, g1.completed_time);
    let g2 = match dec_g2(buf, &mut pos) {
        Ok(g) => g,
        Err(e) => {
            return Err(e);
        },
    };
    let ghost q2 = pos;
    let ghost t2 = g2_enc(g2.disable_dht, g2.disable_lsd, g2.disable_pex, g2.download_rate_limit, g2.file_format@, g2.file_version, g2.file_priority, g2.finished_time);
    let g3 = match dec_g3(buf, &mut pos) {
        Ok(g) => g,
        Err(e) => {
            return Err(e);
        },
    };
    let ghost q3 = pos;
    let ghost t3 = g3_enc(g3.httpseeds, g3.i2p, g3.info_hash@, g3.info_hash2, g3.last_download, g3.last_seen_complete, g3.last_upload, g3.libtorrent_version@);
    let g4 = match dec_g4(buf, &mut pos) {
        Ok(g) => g,
        Err(e) => {
            return Err(e);
        },
    };
    let ghost q4 = pos;
    let ghost t4 = g4_enc(g4.max_connections, g4.max_uploads, g4.name, g4.num_complete, g4.num_downloaded, g4.num_incomplete, g4.paused, g4.peers);
    let g5 = match dec_g5(buf, &mut pos) {
        Ok(g) => g,
        Err(e) => {
            return Err(e);
        },
    };
    let ghost q5 = pos;
    let ghost t5 = g5_enc(g5.peers6, g5.piece_priority, g5.pieces@, g5.qbt_category, g5.qbt_content_layout, g5.qbt_download_path, g5.qbt_first_last_piece_priority, g5.qbt_inactive_seeding_time_limit);
    let g6 = match dec_g6(buf, &mut pos) {
        Ok(g) => g,
        Err(e) => {
            return Err(e);
        },
    };
    let ghost q6 = pos;
    let ghost t6 = g6_enc(g6.qbt_name, g6.qbt_ratio_limit, g6.qbt_save_path, g6.qbt_seed_status, g6.qbt_seeding_time_limit, g6.qbt_share_limit_action, g6.qbt_stop_condition, g6.qbt_tags);
    let g7 = match dec_g7(buf, &mut pos) {
        Ok(g) => g,
        Err(e) => {
            return Err(e);
        },
    };
    let ghost q7 = pos;
    let ghost t7 = g7_enc(g7.save_path@, g7.seed_mode, g7.seeding_time, g7.sequential_download, g7.share_mode, g7.stop_when_ready, g7.super_seeding, g7.total_downloaded);
    let g8 = match dec_g8(buf, &mut pos) {
        Ok(g) => g,
        Err(e) => {
            return Err(e);
        },
    };
    let ghost q8 = pos;
    let ghost t8 = g8_enc(g8.total_uploaded, g8.trackers.deep_view(), g8.unfinished, g8.upload_mode, g8.upload_rate_limit, g8.url_list.deep_view());
    if pos >= buf.len() {
        return Err(DecodeError::Truncated);
    }
    if buf[pos] != TOK_END {
        return Err(DecodeError::Malformed);
    }
    pos = pos + 1;
    if pos != buf.len() {
        return Err(DecodeError::TrailingData);
    }
    let rec = assemble_record(g1, g2, g3, g4, g5, g6, g7, g8);
    proof {
        assert(buf@.subrange(0, q0 as int) =~= seq![TOK_DICT]);
        lemma_chain(buf@, q0 as int, q1 as int, q2 as int, q3 as int, q4 as int,
            q5 as int, q6 as int, q7 as int, q8 as int, t1, t2, t3, t4, t5, t6, t7, t8);
        assert(buf@.subrange(q8 as int, buf@.len() as int) =~= seq![TOK_END]);
        lemma_cat(
            buf@,
            0,
            q8 as int,
            buf@.len() as int,
            seq![TOK_DICT] + t1 + t2 + t3 + t4 + t5 + t6 + t7 + t8,
            seq![TOK_END],
        );
        assert(buf@ =~= buf@.subrange(0, buf@.len() as int));
    }
    Ok(rec)
}


/// Decodes a resume blob, accepting the closed key set in any dictionary
/// order.  A canonically ordered blob decodes byte-exactly (see
/// `decode_canonical`); any other order of the same entries decodes to the
/// same record, whose re-encoding is then ordering-normalized but
/// field-for-field equivalent.  Unknown keys, repeated keys, missing
/// mandatory fields and malformed tokens are errors.
///
/// The contract is one-sided: acceptance proves the input consists of
/// exactly the record's present entries, but acceptance of every
/// well-formed blob is not promised here; the tests exercise it.
pub fn decode(buf: &[u8]) -> (r: Result<Fastresume, DecodeError>)
    ensures
        r matches Ok(rec) ==> wf_record(rec) && crate::reorder::entries_reordered(buf@, rec),
        buf@.len() == 0 ==> r == Err::<Fastresume, DecodeError>(DecodeError::Truncated),
        buf@.len() > 0 && buf@[0] != TOK_DICT ==> r == Err::<Fastresume, DecodeError>(
            DecodeError::Malformed,
        ),
{
    match decode_canonical(buf) {
        Ok(rec) => {
            proof {
                crate::reorder::lemma_canonical_cover(rec);
            }
            Ok(rec)
        },
        Err(_) => crate::reorder::decode_any_order(buf),
    }
}

/// Chains the dictionary opener and the eight group subranges into one
/// concatenation.
proof fn lemma_chain(
    b: Seq<u8>,
    q0: int, q1: int, q2: int, q3: int, q4: int, q5: int, q6: int, q7: int, q8: int,
    t1: Seq<u8>, t2: Seq<u8>, t3: Seq<u8>, t4: Seq<u8>, t5: Seq<u8>, t6: Seq<u8>,
    t7: Seq<u8>, t8: Seq<u8>,
)
    requires
        0 <= q0 <= q1 <= q2 <= q3 <= q4 <= q5 <= q6 <= q7 <= q8 <= b.len(),
        b.subrange(0, q0) == seq![TOK_DICT],
        b.subrange(q0, q1) == t1,
        b.subrange(q1, q2) == t2,
        b.subrange(q2, q3) == t3,
        b.subrange(q3, q4) == t4,
        b.subrange(q4, q5) == t5,
        b.subrange(q5, q6) == t6,
        b.subrange(q6, q7) == t7,
        b.subrange(q7, q8) == t8,
    ensures
        b.subrange(0, q8) == seq![TOK_DICT] + t1 + t2 + t3 + t4 + t5 + t6 + t7 + t8,
{
    lemma_cat(b, 0, q0, q1, seq![TOK_DICT], t1);
    lemma_cat(b, 0, q1, q2, seq![TOK_DICT] + t1, t2);
    lemma_cat(b, 0, q2, q3, seq![TOK_DICT] + t1 + t2, t3);
    lemma_cat(b, 0, q3, q4, seq![TOK_DICT] + t1 + t2 + t3, t4);
    lemma_cat(b, 0, q4, q5, seq![TOK_DICT] + t1 + t2 + t3 + t4, t5);
    lemma_cat(b, 0, q5, q6, seq![TOK_DICT] + t1 + t2 + t3 + t4 + t5, t6);
    lemma_cat(b, 0, q6, q7, seq![TOK_DICT] + t1 + t2 + t3 + t4 + t5 + t6, t7);
    lemma_cat(b, 0, q7, q8, seq![TOK_DICT] + t1 + t2 + t3 + t4 + t5 + t6 + t7, t8);
}

/// Two adjacent subranges concatenate to the enclosing subrange.
proof fn lemma_cat(b: Seq<u8>, i: int, j: int, k: int, x: Seq<u8>, y: Seq<u8>)
    requires
        0 <= i <= j <= k <= b.len(),
        b.subrange(i, j) == x,
        b.subrange(j, k) == y,
    ensures
        b.subrange(i, k) == x + y,
{
    assert(b.subrange(i, k) =~= x + y);
}

} // verus!
