//! Order-tolerant decoding of the resume blob: a record whose closed key
//! set arrives in any dictionary order is decoded, so that re-encoding it
//! normalizes the ordering; the accepted bytes are proved to consist of
//! exactly the record's present entries, each once, in some order.

use vstd::prelude::*;
use vstd::utf8::encode_utf8;
use crate::benc::{
    bstr_enc, bytes_eq, parse_bstr, parse_int, DecodeError, TOK_DICT, TOK_END,
};
use crate::fields::{
    field_bytes, field_int, field_pieces, field_text, field_texts, field_tiers, field_ints,
    opt_field_bytes, opt_field_i64, opt_field_ints, opt_field_pieces, opt_field_text,
    opt_field_texts, opt_field_u8,
};
use crate::codec::{
    g1_enc, g2_enc, g3_enc, g4_enc, g5_enc, g6_enc, g7_enc, g8_enc, spec_encode,
};
use crate::parse::{parse_int_list, parse_piece_list, parse_text_list, parse_tier_list};
use crate::record::{Fastresume, UnfinishedPiece, wf_record};
use crate::text::{utf8_check, vec_to_string};

verus! {

/// The wire encoding of schema field `i` of record `r`; an absent optional
/// field encodes to nothing.  Indices follow the canonical key order.
pub open spec fn field_enc_at(r: Fastresume, i: int) -> Seq<u8> {
    if i == 0 {
        field_int("active_time"@, r.active_time as int)
    }     else if i == 1 {
        field_int("added_time"@, r.added_time as int)
    }     else if i == 2 {
        field_bytes("allocation"@, r.allocation@)
    }     else if i == 3 {
        field_int("apply_ip_filter"@, r.apply_ip_filter as int)
    }     else if i == 4 {
        field_int("auto_managed"@, r.auto_managed as int)
    }     else if i == 5 {
        opt_field_bytes("banned_peers"@, r.banned_peers)
    }     else if i == 6 {
        opt_field_bytes("banned_peers6"@, r.banned_peers6)
    }     else if i == 7 {
        field_int("completed_time"@, r.completed_time as int)
    }     else if i == 8 {
        field_int("disable_dht"@, r.disable_dht as int)
    }     else if i == 9 {
        field_int("disable_lsd"@, r.disable_lsd as int)
    }     else if i == 10 {
        field_int("disable_pex"@, r.disable_pex as int)
    }     else if i == 11 {
        field_int("download_rate_limit"@, r.download_rate_limit as int)
    }     else if i == 12 {
        field_bytes("file-format"@, r.file_format@)
    }     else if i == 13 {
        field_int("file-version"@, r.file_version as int)
    }     else if i == 14 {
        opt_field_ints("file_priority"@, r.file_priority)
    }     else if i == 15 {
        field_int("finished_time"@, r.finished_time as int)
    }     else if i == 16 {
        opt_field_texts("httpseeds"@, r.httpseeds)
    }     else if i == 17 {
        opt_field_u8("i2p"@, r.i2p)
    }     else if i == 18 {
        field_bytes("info-hash"@, r.info_hash@)
    }     else if i == 19 {
        opt_field_bytes("info-hash2"@, r.info_hash2)
    }     else if i == 20 {
        field_int("last_download"@, r.last_download as int)
    }     else if i == 21 {
        field_int("last_seen_complete"@, r.last_seen_complete as int)
    }     else if i == 22 {
        field_int("last_upload"@, r.last_upload as int)
    }     else if i == 23 {
        field_bytes("libtorrent-version"@, r.libtorrent_version@)
    }     else if i == 24 {
        field_int("max_connections"@, r.max_connections as int)
    }     else if i == 25 {
        field_int("max_uploads"@, r.max_uploads as int)
    }     else if i == 26 {
        opt_field_bytes("name"@, r.name)
    }     else if i == 27 {
        field_int("num_complete"@, r.num_complete as int)
    }     else if i == 28 {
        field_int("num_downloaded"@, r.num_downloaded as int)
    }     else if i == 29 {
        field_int("num_incomplete"@, r.num_incomplete as int)
    }     else if i == 30 {
        field_int("paused"@, r.paused as int)
    }     else if i == 31 {
        opt_field_bytes("peers"@, r.peers)
    }     else if i == 32 {
        opt_field_bytes("peers6"@, r.peers6)
    }     else if i == 33 {
        opt_field_bytes("piece_priority"@, r.piece_priority)
    }     else if i == 34 {
        field_bytes("pieces"@, r.pieces@)
    }     else if i == 35 {
        opt_field_text("qBt-category"@, r.qbt_category)
    }     else if i == 36 {
        opt_field_text("qBt-contentLayout"@, r.qbt_content_layout)
    }     else if i == 37 {
        opt_field_text("qBt-downloadPath"@, r.qbt_download_path)
    }     else if i == 38 {
        opt_field_i64("qBt-firstLastPiecePriority"@, r.qbt_first_last_piece_priority)
    }     else if i == 39 {
        opt_field_i64("qBt-inactiveSeedingTimeLimit"@, r.qbt_inactive_seeding_time_limit)
    }     else if i == 40 {
        opt_field_text("qBt-name"@, r.qbt_name)
    }     else if i == 41 {
        opt_field_i64("qBt-ratioLimit"@, r.qbt_ratio_limit)
    }     else if i == 42 {
        opt_field_text("qBt-savePath"@, r.qbt_save_path)
    }     else if i == 43 {
        opt_field_i64("qBt-seedStatus"@, r.qbt_seed_status)
    }     else if i == 44 {
        opt_field_i64("qBt-seedingTimeLimit"@, r.qbt_seeding_time_limit)
    }     else if i == 45 {
        opt_field_text("qBt-shareLimitAction"@, r.qbt_share_limit_action)
    }     else if i == 46 {
        opt_field_text("qBt-stopCondition"@, r.qbt_stop_condition)
    }     else if i == 47 {
        opt_field_texts("qBt-tags"@, r.qbt_tags)
    }     else if i == 48 {
        field_bytes("save_path"@, r.save_path@)
    }     else if i == 49 {
        field_int("seed_mode"@, r.seed_mode as int)
    }     else if i == 50 {
        field_int("seeding_time"@, r.seeding_time as int)
    }     else if i == 51 {
        field_int("sequential_download"@, r.sequential_download as int)
    }     else if i == 52 {
        field_int("share_mode"@, r.share_mode as int)
    }     else if i == 53 {
        field_int("stop_when_ready"@, r.stop_when_ready as int)
    }     else if i == 54 {
        field_int("super_seeding"@, r.super_seeding as int)
    }     else if i == 55 {
        field_int("total_downloaded"@, r.total_downloaded as int)
    }     else if i == 56 {
        field_int("total_uploaded"@, r.total_uploaded as int)
    }     else if i == 57 {
        field_tiers("trackers"@, r.trackers.deep_view())
    }     else if i == 58 {
        opt_field_pieces("unfinished"@, r.unfinished)
    }     else if i == 59 {
        field_int("upload_mode"@, r.upload_mode as int)
    }     else if i == 60 {
        field_int("upload_rate_limit"@, r.upload_rate_limit as int)
    }     else if i == 61 {
        field_texts("url-list"@, r.url_list.deep_view())
    } else {
        Seq::empty()
    }
}

/// Concatenation of the fields selected by `order`.
pub open spec fn concat_fields(r: Fastresume, order: Seq<int>) -> Seq<u8>
    decreases order.len(),
{
    if order.len() == 0 {
        Seq::empty()
    } else {
        field_enc_at(r, order[0]) + concat_fields(r, order.drop_first())
    }
}

/// `order` lists distinct schema indices and covers every present field.
pub open spec fn covering_order(r: Fastresume, order: Seq<int>) -> bool {
    &&& forall|j: int| 0 <= j < order.len() ==> 0 <= #[trigger] order[j] < 62
    &&& forall|j: int, t: int| 0 <= j < t < order.len() ==> order[j] != order[t]
    &&& forall|i: int|
        0 <= i < 62 && field_enc_at(r, i) != Seq::<u8>::empty() ==> order.contains(i)
}

/// The bytes are one dictionary holding exactly the record's present
/// entries, each once, in some order.
pub open spec fn entries_reordered(b: Seq<u8>, r: Fastresume) -> bool {
    exists|order: Seq<int>|
        #[trigger] covering_order(r, order) && b == seq![TOK_DICT] + concat_fields(r, order)
            + seq![TOK_END]
}

/// Concatenation of a sequence of byte sequences.
pub open spec fn concat_seqs(es: Seq<Seq<u8>>) -> Seq<u8>
    decreases es.len(),
{
    if es.len() == 0 {
        Seq::empty()
    } else {
        es[0] + concat_seqs(es.drop_first())
    }
}

/// Appending one entry extends the concatenation at its end.
proof fn lemma_concat_seqs_push(es: Seq<Seq<u8>>, e: Seq<u8>)
    ensures
        concat_seqs(es.push(e)) == concat_seqs(es) + e,
    decreases es.len(),
{
    reveal_with_fuel(concat_seqs, 3);
    if es.len() == 0 {
        assert(es.push(e).drop_first() =~= Seq::<Seq<u8>>::empty());
        assert(es.push(e)[0] == e);
        assert(concat_seqs(es.push(e).drop_first()) == Seq::<u8>::empty());
        assert(concat_seqs(es.push(e)) =~= concat_seqs(es) + e);
    } else {
        lemma_concat_seqs_push(es.drop_first(), e);
        assert(es.push(e).drop_first() =~= es.drop_first().push(e));
        assert(es.push(e)[0] == es[0]);
        assert(concat_seqs(es.push(e)) == es[0] + concat_seqs(es.drop_first().push(e)));
        assert(concat_seqs(es.push(e)) =~= concat_seqs(es) + e);
    }
}

/// When every listed field encodes to the recorded entry, selecting by the
/// list reproduces the entry concatenation.
proof fn lemma_concat_fields_of(r: Fastresume, idxs: Seq<int>, ents: Seq<Seq<u8>>)
    requires
        idxs.len() == ents.len(),
        forall|j: int| 0 <= j < idxs.len() ==> field_enc_at(r, idxs[j]) == #[trigger] ents[j],
    ensures
        concat_fields(r, idxs) == concat_seqs(ents),
    decreases idxs.len(),
{
    if idxs.len() == 0 {
    } else {
        assert(forall|j: int|
            0 <= j < idxs.drop_first().len() ==> field_enc_at(r, idxs.drop_first()[j])
                == #[trigger] ents.drop_first()[j]);
        lemma_concat_fields_of(r, idxs.drop_first(), ents.drop_first());
        assert(field_enc_at(r, idxs[0]) == ents[0]);
    }
}

/// One slot per schema field while entries arrive in arbitrary order.
struct Partial {
    active_time: Option<i64>,
    added_time: Option<i64>,
    allocation: Option<Vec<u8>>,
    apply_ip_filter: Option<u8>,
    auto_managed: Option<u8>,
    banned_peers: Option<Vec<u8>>,
    banned_peers6: Option<Vec<u8>>,
    completed_time: Option<i64>,
    disable_dht: Option<u8>,
    disable_lsd: Option<u8>,
    disable_pex: Option<u8>,
    download_rate_limit: Option<i32>,
    file_format: Option<Vec<u8>>,
    file_version: Option<u8>,
    file_priority: Option<Vec<u8>>,
    finished_time: Option<i64>,
    httpseeds: Option<Vec<String>>,
    i2p: Option<u8>,
    info_hash: Option<Vec<u8>>,
    info_hash2: Option<Vec<u8>>,
    last_download: Option<i64>,
    last_seen_complete: Option<i64>,
    last_upload: Option<i64>,
    libtorrent_version: Option<Vec<u8>>,
    max_connections: Option<i64>,
    max_uploads: Option<i64>,
    name: Option<Vec<u8>>,
    num_complete: Option<u64>,
    num_downloaded: Option<u64>,
    num_incomplete: Option<u64>,
    paused: Option<u8>,
    peers: Option<Vec<u8>>,
    peers6: Option<Vec<u8>>,
    piece_priority: Option<Vec<u8>>,
    pieces: Option<Vec<u8>>,
    qbt_category: Option<String>,
    qbt_content_layout: Option<String>,
    qbt_download_path: Option<String>,
    qbt_first_last_piece_priority: Option<i64>,
    qbt_inactive_seeding_time_limit: Option<i64>,
    qbt_name: Option<String>,
    qbt_ratio_limit: Option<i64>,
    qbt_save_path: Option<String>,
    qbt_seed_status: Option<i64>,
    qbt_seeding_time_limit: Option<i64>,
    qbt_share_limit_action: Option<String>,
    qbt_stop_condition: Option<String>,
    qbt_tags: Option<Vec<String>>,
    save_path: Option<Vec<u8>>,
    seed_mode: Option<u8>,
    seeding_time: Option<i64>,
    sequential_download: Option<u8>,
    share_mode: Option<u8>,
    stop_when_ready: Option<u8>,
    super_seeding: Option<u8>,
    total_downloaded: Option<u64>,
    total_uploaded: Option<u64>,
    trackers: Option<Vec<Vec<String>>>,
    unfinished: Option<Vec<UnfinishedPiece>>,
    upload_mode: Option<u8>,
    upload_rate_limit: Option<i64>,
    url_list: Option<Vec<String>>,
}
/// Field `i` has been seen.
spec fn slot_filled(p: Partial, i: int) -> bool {
    if i == 0 {
        p.active_time is Some
    }     else if i == 1 {
        p.added_time is Some
    }     else if i == 2 {
        p.allocation is Some
    }     else if i == 3 {
        p.apply_ip_filter is Some
    }     else if i == 4 {
        p.auto_managed is Some
    }     else if i == 5 {
        p.banned_peers is Some
    }     else if i == 6 {
        p.banned_peers6 is Some
    }     else if i == 7 {
        p.completed_time is Some
    }     else if i == 8 {
        p.disable_dht is Some
    }     else if i == 9 {
        p.disable_lsd is Some
    }     else if i == 10 {
        p.disable_pex is Some
    }     else if i == 11 {
        p.download_rate_limit is Some
    }     else if i == 12 {
        p.file_format is Some
    }     else if i == 13 {
        p.file_version is Some
    }     else if i == 14 {
        p.file_priority is Some
    }     else if i == 15 {
        p.finished_time is Some
    }     else if i == 16 {
        p.httpseeds is Some
    }     else if i == 17 {
        p.i2p is Some
    }     else if i == 18 {
        p.info_hash is Some
    }     else if i == 19 {
        p.info_hash2 is Some
    }     else if i == 20 {
        p.last_download is Some
    }     else if i == 21 {
        p.last_seen_complete is Some
    }     else if i == 22 {
        p.last_upload is Some
    }     else if i == 23 {
        p.libtorrent_version is Some
    }     else if i == 24 {
        p.max_connections is Some
    }     else if i == 25 {
        p.max_uploads is Some
    }     else if i == 26 {
        p.name is Some
    }     else if i == 27 {
        p.num_complete is Some
    }     else if i == 28 {
        p.num_downloaded is Some
    }     else if i == 29 {
        p.num_incomplete is Some
    }     else if i == 30 {
        p.paused is Some
    }     else if i == 31 {
        p.peers is Some
    }     else if i == 32 {
        p.peers6 is Some
    }     else if i == 33 {
        p.piece_priority is Some
    }     else if i == 34 {
        p.pieces is Some
    }     else if i == 35 {
        p.qbt_category is Some
    }     else if i == 36 {
        p.qbt_content_layout is Some
    }     else if i == 37 {
        p.qbt_download_path is Some
    }     else if i == 38 {
        p.qbt_first_last_piece_priority is Some
    }     else if i == 39 {
        p.qbt_inactive_seeding_time_limit is Some
    }     else if i == 40 {
        p.qbt_name is Some
    }     else if i == 41 {
        p.qbt_ratio_limit is Some
    }     else if i == 42 {
        p.qbt_save_path is Some
    }     else if i == 43 {
        p.qbt_seed_status is Some
    }     else if i == 44 {
        p.qbt_seeding_time_limit is Some
    }     else if i == 45 {
        p.qbt_share_limit_action is Some
    }     else if i == 46 {
        p.qbt_stop_condition is Some
    }     else if i == 47 {
        p.qbt_tags is Some
    }     else if i == 48 {
        p.save_path is Some
    }     else if i == 49 {
        p.seed_mode is Some
    }     else if i == 50 {
        p.seeding_time is Some
    }     else if i == 51 {
        p.sequential_download is Some
    }     else if i == 52 {
        p.share_mode is Some
    }     else if i == 53 {
        p.stop_when_ready is Some
    }     else if i == 54 {
        p.super_seeding is Some
    }     else if i == 55 {
        p.total_downloaded is Some
    }     else if i == 56 {
        p.total_uploaded is Some
    }     else if i == 57 {
        p.trackers is Some
    }     else if i == 58 {
        p.unfinished is Some
    }     else if i == 59 {
        p.upload_mode is Some
    }     else if i == 60 {
        p.upload_rate_limit is Some
    }     else if i == 61 {
        p.url_list is Some
    } else {
        false
    }
}
/// Slot `i` holds a value whose wire entry is exactly `e`.
spec fn entry_current(p: Partial, i: int, e: Seq<u8>) -> bool {
    if i == 0 {
        p.active_time matches Some(v) && e == field_int("active_time"@, v as int)
    }     else if i == 1 {
        p.added_time matches Some(v) && e == field_int("added_time"@, v as int)
    }     else if i == 2 {
        p.allocation matches Some(v) && e == field_bytes("allocation"@, v@)
    }     else if i == 3 {
        p.apply_ip_filter matches Some(v) && e == field_int("apply_ip_filter"@, v as int)
    }     else if i == 4 {
        p.auto_managed matches Some(v) && e == field_int("auto_managed"@, v as int)
    }     else if i == 5 {
        p.banned_peers matches Some(v) && e == field_bytes("banned_peers"@, v@)
    }     else if i == 6 {
        p.banned_peers6 matches Some(v) && e == field_bytes("banned_peers6"@, v@)
    }     else if i == 7 {
        p.completed_time matches Some(v) && e == field_int("completed_time"@, v as int)
    }     else if i == 8 {
        p.disable_dht matches Some(v) && e == field_int("disable_dht"@, v as int)
    }     else if i == 9 {
        p.disable_lsd matches Some(v) && e == field_int("disable_lsd"@, v as int)
    }     else if i == 10 {
        p.disable_pex matches Some(v) && e == field_int("disable_pex"@, v as int)
    }     else if i == 11 {
        p.download_rate_limit matches Some(v) && e == field_int("download_rate_limit"@, v as int)
    }     else if i == 12 {
        p.file_format matches Some(v) && e == field_bytes("file-format"@, v@)
    }     else if i == 13 {
        p.file_version matches Some(v) && e == field_int("file-version"@, v as int)
    }     else if i == 14 {
        p.file_priority matches Some(v) && e == field_ints("file_priority"@, v@)
    }     else if i == 15 {
        p.finished_time matches Some(v) && e == field_int("finished_time"@, v as int)
    }     else if i == 16 {
        p.httpseeds matches Some(v) && e == field_texts("httpseeds"@, v.deep_view())
    }     else if i == 17 {
        p.i2p matches Some(v) && e == field_int("i2p"@, v as int)
    }     else if i == 18 {
        p.info_hash matches Some(v) && e == field_bytes("info-hash"@, v@)
    }     else if i == 19 {
        p.info_hash2 matches Some(v) && e == field_bytes("info-hash2"@, v@)
    }     else if i == 20 {
        p.last_download matches Some(v) && e == field_int("last_download"@, v as int)
    }     else if i == 21 {
        p.last_seen_complete matches Some(v) && e == field_int("last_seen_complete"@, v as int)
    }     else if i == 22 {
        p.last_upload matches Some(v) && e == field_int("last_upload"@, v as int)
    }     else if i == 23 {
        p.libtorrent_version matches Some(v) && e == field_bytes("libtorrent-version"@, v@)
    }     else if i == 24 {
        p.max_connections matches Some(v) && e == field_int("max_connections"@, v as int)
    }     else if i == 25 {
        p.max_uploads matches Some(v) && e == field_int("max_uploads"@, v as int)
    }     else if i == 26 {
        p.name matches Some(v) && e == field_bytes("name"@, v@)
    }     else if i == 27 {
        p.num_complete matches Some(v) && e == field_int("num_complete"@, v as int)
    }     else if i == 28 {
        p.num_downloaded matches Some(v) && e == field_int("num_downloaded"@, v as int)
    }     else if i == 29 {
        p.num_incomplete matches Some(v) && e == field_int("num_incomplete"@, v as int)
    }     else if i == 30 {
        p.paused matches Some(v) && e == field_int("paused"@, v as int)
    }     else if i == 31 {
        p.peers matches Some(v) && e == field_bytes("peers"@, v@)
    }     else if i == 32 {
        p.peers6 matches Some(v) && e == field_bytes("peers6"@, v@)
    }     else if i == 33 {
        p.piece_priority matches Some(v) && e == field_bytes("piece_priority"@, v@)
    }     else if i == 34 {
        p.pieces matches Some(v) && e == field_bytes("pieces"@, v@)
    }     else if i == 35 {
        p.qbt_category matches Some(v) && e == field_text("qBt-category"@, v@)
    }     else if i == 36 {
        p.qbt_content_layout matches Some(v) && e == field_text("qBt-contentLayout"@, v@)
    }     else if i == 37 {
        p.qbt_download_path matches Some(v) && e == field_text("qBt-downloadPath"@, v@)
    }     else if i == 38 {
        p.qbt_first_last_piece_priority matches Some(v) && e == field_int("qBt-firstLastPiecePriority"@, v as int)
    }     else if i == 39 {
        p.qbt_inactive_seeding_time_limit matches Some(v) && e == field_int("qBt-inactiveSeedingTimeLimit"@, v as int)
    }     else if i == 40 {
        p.qbt_name matches Some(v) && e == field_text("qBt-name"@, v@)
    }     else if i == 41 {
        p.qbt_ratio_limit matches Some(v) && e == field_int("qBt-ratioLimit"@, v as int)
    }     else if i == 42 {
        p.qbt_save_path matches Some(v) && e == field_text("qBt-savePath"@, v@)
    }     else if i == 43 {
        p.qbt_seed_status matches Some(v) && e == field_int("qBt-seedStatus"@, v as int)
    }     else if i == 44 {
        p.qbt_seeding_time_limit matches Some(v) && e == field_int("qBt-seedingTimeLimit"@, v as int)
    }     else if i == 45 {
        p.qbt_share_limit_action matches Some(v) && e == field_text("qBt-shareLimitAction"@, v@)
    }     else if i == 46 {
        p.qbt_stop_condition matches Some(v) && e == field_text("qBt-stopCondition"@, v@)
    }     else if i == 47 {
        p.qbt_tags matches Some(v) && e == field_texts("qBt-tags"@, v.deep_view())
    }     else if i == 48 {
        p.save_path matches Some(v) && e == field_bytes("save_path"@, v@)
    }     else if i == 49 {
        p.seed_mode matches Some(v) && e == field_int("seed_mode"@, v as int)
    }     else if i == 50 {
        p.seeding_time matches Some(v) && e == field_int("seeding_time"@, v as int)
    }     else if i == 51 {
        p.sequential_download matches Some(v) && e == field_int("sequential_download"@, v as int)
    }     else if i == 52 {
        p.share_mode matches Some(v) && e == field_int("share_mode"@, v as int)
    }     else if i == 53 {
        p.stop_when_ready matches Some(v) && e == field_int("stop_when_ready"@, v as int)
    }     else if i == 54 {
        p.super_seeding matches Some(v) && e == field_int("super_seeding"@, v as int)
    }     else if i == 55 {
        p.total_downloaded matches Some(v) && e == field_int("total_downloaded"@, v as int)
    }     else if i == 56 {
        p.total_uploaded matches Some(v) && e == field_int("total_uploaded"@, v as int)
    }     else if i == 57 {
        p.trackers matches Some(v) && e == field_tiers("trackers"@, v.deep_view())
    }     else if i == 58 {
        p.unfinished matches Some(v) && e == field_pieces("unfinished"@, v@)
    }     else if i == 59 {
        p.upload_mode matches Some(v) && e == field_int("upload_mode"@, v as int)
    }     else if i == 60 {
        p.upload_rate_limit matches Some(v) && e == field_int("upload_rate_limit"@, v as int)
    }     else if i == 61 {
        p.url_list matches Some(v) && e == field_texts("url-list"@, v.deep_view())
    } else {
        false
    }
}
/// Every slot other than `i` is the same in `a` and `b`.
spec fn others_unchanged(a: Partial, b: Partial, i: int) -> bool {
    &&& (i != 0 ==> b.active_time == a.active_time)
    &&& (i != 1 ==> b.added_time == a.added_time)
    &&& (i != 2 ==> b.allocation == a.allocation)
    &&& (i != 3 ==> b.apply_ip_filter == a.apply_ip_filter)
    &&& (i != 4 ==> b.auto_managed == a.auto_managed)
    &&& (i != 5 ==> b.banned_peers == a.banned_peers)
    &&& (i != 6 ==> b.banned_peers6 == a.banned_peers6)
    &&& (i != 7 ==> b.completed_time == a.completed_time)
    &&& (i != 8 ==> b.disable_dht == a.disable_dht)
    &&& (i != 9 ==> b.disable_lsd == a.disable_lsd)
    &&& (i != 10 ==> b.disable_pex == a.disable_pex)
    &&& (i != 11 ==> b.download_rate_limit == a.download_rate_limit)
    &&& (i != 12 ==> b.file_format == a.file_format)
    &&& (i != 13 ==> b.file_version == a.file_version)
    &&& (i != 14 ==> b.file_priority == a.file_priority)
    &&& (i != 15 ==> b.finished_time == a.finished_time)
    &&& (i != 16 ==> b.httpseeds == a.httpseeds)
    &&& (i != 17 ==> b.i2p == a.i2p)
    &&& (i != 18 ==> b.info_hash == a.info_hash)
    &&& (i != 19 ==> b.info_hash2 == a.info_hash2)
    &&& (i != 20 ==> b.last_download == a.last_download)
    &&& (i != 21 ==> b.last_seen_complete == a.last_seen_complete)
    &&& (i != 22 ==> b.last_upload == a.last_upload)
    &&& (i != 23 ==> b.libtorrent_version == a.libtorrent_version)
    &&& (i != 24 ==> b.max_connections == a.max_connections)
    &&& (i != 25 ==> b.max_uploads == a.max_uploads)
    &&& (i != 26 ==> b.name == a.name)
    &&& (i != 27 ==> b.num_complete == a.num_complete)
    &&& (i != 28 ==> b.num_downloaded == a.num_downloaded)
    &&& (i != 29 ==> b.num_incomplete == a.num_incomplete)
    &&& (i != 30 ==> b.paused == a.paused)
    &&& (i != 31 ==> b.peers == a.peers)
    &&& (i != 32 ==> b.peers6 == a.peers6)
    &&& (i != 33 ==> b.piece_priority == a.piece_priority)
    &&& (i != 34 ==> b.pieces == a.pieces)
    &&& (i != 35 ==> b.qbt_category == a.qbt_category)
    &&& (i != 36 ==> b.qbt_content_layout == a.qbt_content_layout)
    &&& (i != 37 ==> b.qbt_download_path == a.qbt_download_path)
    &&& (i != 38 ==> b.qbt_first_last_piece_priority == a.qbt_first_last_piece_priority)
    &&& (i != 39 ==> b.qbt_inactive_seeding_time_limit == a.qbt_inactive_seeding_time_limit)
    &&& (i != 40 ==> b.qbt_name == a.qbt_name)
    &&& (i != 41 ==> b.qbt_ratio_limit == a.qbt_ratio_limit)
    &&& (i != 42 ==> b.qbt_save_path == a.qbt_save_path)
    &&& (i != 43 ==> b.qbt_seed_status == a.qbt_seed_status)
    &&& (i != 44 ==> b.qbt_seeding_time_limit == a.qbt_seeding_time_limit)
    &&& (i != 45 ==> b.qbt_share_limit_action == a.qbt_share_limit_action)
    &&& (i != 46 ==> b.qbt_stop_condition == a.qbt_stop_condition)
    &&& (i != 47 ==> b.qbt_tags == a.qbt_tags)
    &&& (i != 48 ==> b.save_path == a.save_path)
    &&& (i != 49 ==> b.seed_mode == a.seed_mode)
    &&& (i != 50 ==> b.seeding_time == a.seeding_time)
    &&& (i != 51 ==> b.sequential_download == a.sequential_download)
    &&& (i != 52 ==> b.share_mode == a.share_mode)
    &&& (i != 53 ==> b.stop_when_ready == a.stop_when_ready)
    &&& (i != 54 ==> b.super_seeding == a.super_seeding)
    &&& (i != 55 ==> b.total_downloaded == a.total_downloaded)
    &&& (i != 56 ==> b.total_uploaded == a.total_uploaded)
    &&& (i != 57 ==> b.trackers == a.trackers)
    &&& (i != 58 ==> b.unfinished == a.unfinished)
    &&& (i != 59 ==> b.upload_mode == a.upload_mode)
    &&& (i != 60 ==> b.upload_rate_limit == a.upload_rate_limit)
    &&& (i != 61 ==> b.url_list == a.url_list)
   }
/// A recorded entry means its slot is filled.
proof fn lemma_entry_filled(p: Partial, i: int, e: Seq<u8>)
    requires
        entry_current(p, i, e),
    ensures
        slot_filled(p, i),
{
}

/// A recorded entry survives a store into a different slot.
proof fn lemma_entry_frame(a: Partial, b: Partial, i: int, j: int, e: Seq<u8>)
    requires
        others_unchanged(a, b, i),
        j != i,
        entry_current(a, j, e),
    ensures
        entry_current(b, j, e),
{
}

/// Whether a slot other than the stored one is filled does not change.
proof fn lemma_filled_frame(a: Partial, b: Partial, i: int, t: int)
    requires
        others_unchanged(a, b, i),
        t != i,
    ensures
        slot_filled(a, t) == slot_filled(b, t),
{
}

/// Stores one entry whose key falls in this part of the schema; `None`
/// when the key belongs elsewhere.
#[verifier::rlimit(100)]
#[verifier::spinoff_prover]
fn store_a(buf: &[u8], pos: &mut usize, kb: &Vec<u8>, p: &mut Partial) -> (r: Result<
    Option<usize>,
    DecodeError,
>)
    requires
        *old(pos) <= buf@.len(),
    ensures
        *final(pos) <= buf@.len(),
        r matches Ok(Some(i)) ==> 0 <= i < 62 && *old(pos) < *final(pos) && !slot_filled(
            *old(p),
            i as int,
        ) && others_unchanged(*old(p), *final(p), i as int) && entry_current(
            *final(p),
            i as int,
            bstr_enc(kb@) + buf@.subrange(*old(pos) as int, *final(pos) as int),
        ),
        r matches Ok(None) ==> *final(pos) == *old(pos) && *final(p) == *old(p),
{
    if bytes_eq(kb.as_slice(), "active_time".as_bytes()) {
        if p.active_time.is_some() {
            return Err(DecodeError::Malformed);
        }
        let v = match parse_int(buf, pos) {
            Ok(v) => v,
            Err(e) => {
                return Err(e);
            },
        };
        if v < i64::MIN as i128 || v > i64::MAX as i128 {
            return Err(DecodeError::IntOutOfRange);
        }
        let sv = v as i64;
        proof {
            assert(bstr_enc(kb@) + buf@.subrange(*old(pos) as int, *pos as int) =~= field_int("active_time"@, sv as int));
        }
        p.active_time = Some(sv);
        return Ok(Some(0));
    }
    if bytes_eq(kb.as_slice(), "added_time".as_bytes()) {
        if p.added_time.is_some() {
            return Err(DecodeError::Malformed);
        }
        let v = match parse_int(buf, pos) {
            Ok(v) => v,
            Err(e) => {
                return Err(e);
            },
        };
        if v < i64::MIN as i128 || v > i64::MAX as i128 {
            return Err(DecodeError::IntOutOfRange);
        }
        let sv = v as i64;
        proof {
            assert(bstr_enc(kb@) + buf@.subrange(*old(pos) as int, *pos as int) =~= field_int("added_time"@, sv as int));
        }
        p.added_time = Some(sv);
        return Ok(Some(1));
    }
    if bytes_eq(kb.as_slice(), "allocation".as_bytes()) {
        if p.allocation.is_some() {
            return Err(DecodeError::Malformed);
        }
        let sv = match parse_bstr(buf, pos) {
            Ok(b) => b,
            Err(e) => {
                return Err(e);
            },
        };
        proof {
            assert(bstr_enc(kb@) + buf@.subrange(*old(pos) as int, *pos as int) =~= field_bytes("allocation"@, sv@));
        }
        p.allocation = Some(sv);
        return Ok(Some(2));
    }
    if bytes_eq(kb.as_slice(), "apply_ip_filter".as_bytes()) {
        if p.apply_ip_filter.is_some() {
            return Err(DecodeError::Malformed);
        }
        let v = match parse_int(buf, pos) {
            Ok(v) => v,
            Err(e) => {
                return Err(e);
            },
        };
        if v < 0 || v > 255 {
            return Err(DecodeError::IntOutOfRange);
        }
        let sv = v as u8;
        proof {
            assert(bstr_enc(kb@) + buf@.subrange(*old(pos) as int, *pos as int) =~= field_int("apply_ip_filter"@, sv as int));
        }
        p.apply_ip_filter = Some(sv);
        return Ok(Some(3));
    }
    if bytes_eq(kb.as_slice(), "auto_managed".as_bytes()) {
        if p.auto_managed.is_some() {
            return Err(DecodeError::Malformed);
        }
        let v = match parse_int(buf, pos) {
            Ok(v) => v,
            Err(e) => {
                return Err(e);
            },
        };
        if v < 0 || v > 255 {
            return Err(DecodeError::IntOutOfRange);
        }
        let sv = v as u8;
        proof {
            assert(bstr_enc(kb@) + buf@.subrange(*old(pos) as int, *pos as int) =~= field_int("auto_managed"@, sv as int));
        }
        p.auto_managed = Some(sv);
        return Ok(Some(4));
    }
    if bytes_eq(kb.as_slice(), "banned_peers".as_bytes()) {
        if p.banned_peers.is_some() {
            return Err(DecodeError::Malformed);
        }
        let sv = match parse_bstr(buf, pos) {
            Ok(b) => b,
            Err(e) => {
                return Err(e);
            },
        };
        proof {
            assert(bstr_enc(kb@) + buf@.subrange(*old(pos) as int, *pos as int) =~= field_bytes("banned_peers"@, sv@));
        }
        p.banned_peers = Some(sv);
        return Ok(Some(5));
    }
    if bytes_eq(kb.as_slice(), "banned_peers6".as_bytes()) {
        if p.banned_peers6.is_some() {
            return Err(DecodeError::Malformed);
        }
        let sv = match parse_bstr(buf, pos) {
            Ok(b) => b,
            Err(e) => {
                return Err(e);
            },
        };
        proof {
            assert(bstr_enc(kb@) + buf@.subrange(*old(pos) as int, *pos as int) =~= field_bytes("banned_peers6"@, sv@));
        }
        p.banned_peers6 = Some(sv);
        return Ok(Some(6));
    }
    if bytes_eq(kb.as_slice(), "completed_time".as_bytes()) {
        if p.completed_time.is_some() {
            return Err(DecodeError::Malformed);
        }
        let v = match parse_int(buf, pos) {
            Ok(v) => v,
            Err(e) => {
                return Err(e);
            },
        };
        if v < i64::MIN as i128 || v > i64::MAX as i128 {
            return Err(DecodeError::IntOutOfRange);
        }
        let sv = v as i64;
        proof {
            assert(bstr_enc(kb@) + buf@.subrange(*old(pos) as int, *pos as int) =~= field_int("completed_time"@, sv as int));
        }
        p.completed_time = Some(sv);
        return Ok(Some(7));
    }
    if bytes_eq(kb.as_slice(), "disable_dht".as_bytes()) {
        if p.disable_dht.is_some() {
            return Err(DecodeError::Malformed);
        }
        let v = match parse_int(buf, pos) {
            Ok(v) => v,
            Err(e) => {
                return Err(e);
            },
        };
        if v < 0 || v > 255 {
            return Err(DecodeError::IntOutOfRange);
        }
        let sv = v as u8;
        proof {
            assert(bstr_enc(kb@) + buf@.subrange(*old(pos) as int, *pos as int) =~= field_int("disable_dht"@, sv as int));
        }
        p.disable_dht = Some(sv);
        return Ok(Some(8));
    }
    if bytes_eq(kb.as_slice(), "disable_lsd".as_bytes()) {
        if p.disable_lsd.is_some() {
            return Err(DecodeError::Malformed);
        }
        let v = match parse_int(buf, pos) {
            Ok(v) => v,
            Err(e) => {
                return Err(e);
            },
        };
        if v < 0 || v > 255 {
            return Err(DecodeError::IntOutOfRange);
        }
        let sv = v as u8;
        proof {
            assert(bstr_enc(kb@) + buf@.subrange(*old(pos) as int, *pos as int) =~= field_int("disable_lsd"@, sv as int));
        }
        p.disable_lsd = Some(sv);
        return Ok(Some(9));
    }
    if bytes_eq(kb.as_slice(), "disable_pex".as_bytes()) {
        if p.disable_pex.is_some() {
            return Err(DecodeError::Malformed);
        }
        let v = match parse_int(buf, pos) {
            Ok(v) => v,
            Err(e) => {
                return Err(e);
            },
        };
        if v < 0 || v > 255 {
            return Err(DecodeError::IntOutOfRange);
        }
        let sv = v as u8;
        proof {
            assert(bstr_enc(kb@) + buf@.subrange(*old(pos) as int, *pos as int) =~= field_int("disable_pex"@, sv as int));
        }
        p.disable_pex = Some(sv);
        return Ok(Some(10));
    }
    if bytes_eq(kb.as_slice(), "download_rate_limit".as_bytes()) {
        if p.download_rate_limit.is_some() {
            return Err(DecodeError::Malformed);
        }
        let v = match parse_int(buf, pos) {
            Ok(v) => v,
            Err(e) => {
                return Err(e);
            },
        };
        if v < i32::MIN as i128 || v > i32::MAX as i128 {
            return Err(DecodeError::IntOutOfRange);
        }
        let sv = v as i32;
        proof {
            assert(bstr_enc(kb@) + buf@.subrange(*old(pos) as int, *pos as int) =~= field_int("download_rate_limit"@, sv as int));
        }
        p.download_rate_limit = Some(sv);
        return Ok(Some(11));
    }
    if bytes_eq(kb.as_slice(), "file-format".as_bytes()) {
        if p.file_format.is_some() {
            return Err(DecodeError::Malformed);
        }
        let sv = match parse_bstr(buf, pos) {
            Ok(b) => b,
            Err(e) => {
                return Err(e);
            },
        };
        proof {
            assert(bstr_enc(kb@) + buf@.subrange(*old(pos) as int, *pos as int) =~= field_bytes("file-format"@, sv@));
        }
        p.file_format = Some(sv);
        return Ok(Some(12));
    }
    if bytes_eq(kb.as_slice(), "file-version".as_bytes()) {
        if p.file_version.is_some() {
            return Err(DecodeError::Malformed);
        }
        let v = match parse_int(buf, pos) {
            Ok(v) => v,
            Err(e) => {
                return Err(e);
            },
        };
        if v < 0 || v > 255 {
            return Err(DecodeError::IntOutOfRange);
        }
        let sv = v as u8;
        proof {
            assert(bstr_enc(kb@) + buf@.subrange(*old(pos) as int, *pos as int) =~= field_int("file-version"@, sv as int));
        }
        p.file_version = Some(sv);
        return Ok(Some(13));
    }
    if bytes_eq(kb.as_slice(), "file_priority".as_bytes()) {
        if p.file_priority.is_some() {
            return Err(DecodeError::Malformed);
        }
        let sv = match parse_int_list(buf, pos) {
            Ok(bs) => bs,
            Err(e) => {
                return Err(e);
            },
        };
        proof {
            assert(bstr_enc(kb@) + buf@.subrange(*old(pos) as int, *pos as int) =~= field_ints("file_priority"@, sv@));
        }
        p.file_priority = Some(sv);
        return Ok(Some(14));
    }
    if bytes_eq(kb.as_slice(), "finished_time".as_bytes()) {
        if p.finished_time.is_some() {
            return Err(DecodeError::Malformed);
        }
        let v = match parse_int(buf, pos) {
            Ok(v) => v,
            Err(e) => {
                return Err(e);
            },
        };
        if v < i64::MIN as i128 || v > i64::MAX as i128 {
            return Err(DecodeError::IntOutOfRange);
        }
        let sv = v as i64;
        proof {
            assert(bstr_enc(kb@) + buf@.subrange(*old(pos) as int, *pos as int) =~= field_int("finished_time"@, sv as int));
        }
        p.finished_time = Some(sv);
        return Ok(Some(15));
    }
    Ok(None)
}

/// Stores one entry whose key falls in this part of the schema; `None`
/// when the key belongs elsewhere.
#[verifier::rlimit(100)]
#[verifier::spinoff_prover]
fn store_b(buf: &[u8], pos: &mut usize, kb: &Vec<u8>, p: &mut Partial) -> (r: Result<
    Option<usize>,
    DecodeError,
>)
    requires
        *old(pos) <= buf@.len(),
    ensures
        *final(pos) <= buf@.len(),
        r matches Ok(Some(i)) ==> 0 <= i < 62 && *old(pos) < *final(pos) && !slot_filled(
            *old(p),
            i as int,
        ) && others_unchanged(*old(p), *final(p), i as int) && entry_current(
            *final(p),
            i as int,
            bstr_enc(kb@) + buf@.subrange(*old(pos) as int, *final(pos) as int),
        ),
        r matches Ok(None) ==> *final(pos) == *old(pos) && *final(p) == *old(p),
{
    if bytes_eq(kb.as_slice(), "httpseeds".as_bytes()) {
        if p.httpseeds.is_some() {
            return Err(DecodeError::Malformed);
        }
        let sv = match parse_text_list(buf, pos) {
            Ok(ss) => ss,
            Err(e) => {
                return Err(e);
            },
        };
        proof {
            assert(bstr_enc(kb@) + buf@.subrange(*old(pos) as int, *pos as int) =~= field_texts("httpseeds"@, sv.deep_view()));
        }
        p.httpseeds = Some(sv);
        return Ok(Some(16));
    }
    if bytes_eq(kb.as_slice(), "i2p".as_bytes()) {
        if p.i2p.is_some() {
            return Err(DecodeError::Malformed);
        }
        let v = match parse_int(buf, pos) {
            Ok(v) => v,
            Err(e) => {
                return Err(e);
            },
        };
        if v < 0 || v > 255 {
            return Err(DecodeError::IntOutOfRange);
        }
        let sv = v as u8;
        proof {
            assert(bstr_enc(kb@) + buf@.subrange(*old(pos) as int, *pos as int) =~= field_int("i2p"@, sv as int));
        }
        p.i2p = Some(sv);
        return Ok(Some(17));
    }
    if bytes_eq(kb.as_slice(), "info-hash".as_bytes()) {
        if p.info_hash.is_some() {
            return Err(DecodeError::Malformed);
        }
        let sv = match parse_bstr(buf, pos) {
            Ok(b) => b,
            Err(e) => {
                return Err(e);
            },
        };
        proof {
            assert(bstr_enc(kb@) + buf@.subrange(*old(pos) as int, *pos as int) =~= field_bytes("info-hash"@, sv@));
        }
        p.info_hash = Some(sv);
        return Ok(Some(18));
    }
    if bytes_eq(kb.as_slice(), "info-hash2".as_bytes()) {
        if p.info_hash2.is_some() {
            return Err(DecodeError::Malformed);
        }
        let sv = match parse_bstr(buf, pos) {
            Ok(b) => b,
            Err(e) => {
                return Err(e);
            },
        };
        proof {
            assert(bstr_enc(kb@) + buf@.subrange(*old(pos) as int, *pos as int) =~= field_bytes("info-hash2"@, sv@));
        }
        p.info_hash2 = Some(sv);
        return Ok(Some(19));
    }
    if bytes_eq(kb.as_slice(), "last_download".as_bytes()) {
        if p.last_download.is_some() {
            return Err(DecodeError::Malformed);
        }
        let v = match parse_int(buf, pos) {
            Ok(v) => v,
            Err(e) => {
                return Err(e);
            },
        };
        if v < i64::MIN as i128 || v > i64::MAX as i128 {
            return Err(DecodeError::IntOutOfRange);
        }
        let sv = v as i64;
        proof {
            assert(bstr_enc(kb@) + buf@.subrange(*old(pos) as int, *pos as int) =~= field_int("last_download"@, sv as int));
        }
        p.last_download = Some(sv);
        return Ok(Some(20));
    }
    if bytes_eq(kb.as_slice(), "last_seen_complete".as_bytes()) {
        if p.last_seen_complete.is_some() {
            return Err(DecodeError::Malformed);
        }
        let v = match parse_int(buf, pos) {
            Ok(v) => v,
            Err(e) => {
                return Err(e);
            },
        };
        if v < i64::MIN as i128 || v > i64::MAX as i128 {
            return Err(DecodeError::IntOutOfRange);
        }
        let sv = v as i64;
        proof {
            assert(bstr_enc(kb@) + buf@.subrange(*old(pos) as int, *pos as int) =~= field_int("last_seen_complete"@, sv as int));
        }
        p.last_seen_complete = Some(sv);
        return Ok(Some(21));
    }
    if bytes_eq(kb.as_slice(), "last_upload".as_bytes()) {
        if p.last_upload.is_some() {
            return Err(DecodeError::Malformed);
        }
        let v = match parse_int(buf, pos) {
            Ok(v) => v,
            Err(e) => {
                return Err(e);
            },
        };
        if v < i64::MIN as i128 || v > i64::MAX as i128 {
            return Err(DecodeError::IntOutOfRange);
        }
        let sv = v as i64;
        proof {
            assert(bstr_enc(kb@) + buf@.subrange(*old(pos) as int, *pos as int) =~= field_int("last_upload"@, sv as int));
        }
        p.last_upload = Some(sv);
        return Ok(Some(22));
    }
    if bytes_eq(kb.as_slice(), "libtorrent-version".as_bytes()) {
        if p.libtorrent_version.is_some() {
            return Err(DecodeError::Malformed);
        }
        let sv = match parse_bstr(buf, pos) {
            Ok(b) => b,
            Err(e) => {
                return Err(e);
            },
        };
        proof {
            assert(bstr_enc(kb@) + buf@.subrange(*old(pos) as int, *pos as int) =~= field_bytes("libtorrent-version"@, sv@));
        }
        p.libtorrent_version = Some(sv);
        return Ok(Some(23));
    }
    if bytes_eq(kb.as_slice(), "max_connections".as_bytes()) {
        if p.max_connections.is_some() {
            return Err(DecodeError::Malformed);
        }
        let v = match parse_int(buf, pos) {
            Ok(v) => v,
            Err(e) => {
                return Err(e);
            },
        };
        if v < i64::MIN as i128 || v > i64::MAX as i128 {
            return Err(DecodeError::IntOutOfRange);
        }
        let sv = v as i64;
        proof {
            assert(bstr_enc(kb@) + buf@.subrange(*old(pos) as int, *pos as int) =~= field_int("max_connections"@, sv as int));
        }
        p.max_connections = Some(sv);
        return Ok(Some(24));
    }
    if bytes_eq(kb.as_slice(), "max_uploads".as_bytes()) {
        if p.max_uploads.is_some() {
            return Err(DecodeError::Malformed);
        }
        let v = match parse_int(buf, pos) {
            Ok(v) => v,
            Err(e) => {
                return Err(e);
            },
        };
        if v < i64::MIN as i128 || v > i64::MAX as i128 {
            return Err(DecodeError::IntOutOfRange);
        }
        let sv = v as i64;
        proof {
            assert(bstr_enc(kb@) + buf@.subrange(*old(pos) as int, *pos as int) =~= field_int("max_uploads"@, sv as int));
        }
        p.max_uploads = Some(sv);
        return Ok(Some(25));
    }
    if bytes_eq(kb.as_slice(), "name".as_bytes()) {
        if p.name.is_some() {
            return Err(DecodeError::Malformed);
        }
        let sv = match parse_bstr(buf, pos) {
            Ok(b) => b,
            Err(e) => {
                return Err(e);
            },
        };
        proof {
            assert(bstr_enc(kb@) + buf@.subrange(*old(pos) as int, *pos as int) =~= field_bytes("name"@, sv@));
        }
        p.name = Some(sv);
        return Ok(Some(26));
    }
    if bytes_eq(kb.as_slice(), "num_complete".as_bytes()) {
        if p.num_complete.is_some() {
            return Err(DecodeError::Malformed);
        }
        let v = match parse_int(buf, pos) {
            Ok(v) => v,
            Err(e) => {
                return Err(e);
            },
        };
        if v < 0 || v > u64::MAX as i128 {
            return Err(DecodeError::IntOutOfRange);
        }
        let sv = v as u64;
        proof {
            assert(bstr_enc(kb@) + buf@.subrange(*old(pos) as int, *pos as int) =~= field_int("num_complete"@, sv as int));
        }
        p.num_complete = Some(sv);
        return Ok(Some(27));
    }
    if bytes_eq(kb.as_slice(), "num_downloaded".as_bytes()) {
        if p.num_downloaded.is_some() {
            return Err(DecodeError::Malformed);
        }
        let v = match parse_int(buf, pos) {
            Ok(v) => v,
            Err(e) => {
                return Err(e);
            },
        };
        if v < 0 || v > u64::MAX as i128 {
            return Err(DecodeError::IntOutOfRange);
        }
        let sv = v as u64;
        proof {
            assert(bstr_enc(kb@) + buf@.subrange(*old(pos) as int, *pos as int) =~= field_int("num_downloaded"@, sv as int));
        }
        p.num_downloaded = Some(sv);
        return Ok(Some(28));
    }
    if bytes_eq(kb.as_slice(), "num_incomplete".as_bytes()) {
        if p.num_incomplete.is_some() {
            return Err(DecodeError::Malformed);
        }
        let v = match parse_int(buf, pos) {
            Ok(v) => v,
            Err(e) => {
                return Err(e);
            },
        };
        if v < 0 || v > u64::MAX as i128 {
            return Err(DecodeError::IntOutOfRange);
        }
        let sv = v as u64;
        proof {
            assert(bstr_enc(kb@) + buf@.subrange(*old(pos) as int, *pos as int) =~= field_int("num_incomplete"@, sv as int));
        }
        p.num_incomplete = Some(sv);
        return Ok(Some(29));
    }
    if bytes_eq(kb.as_slice(), "paused".as_bytes()) {
        if p.paused.is_some() {
            return Err(DecodeError::Malformed);
        }
        let v = match parse_int(buf, pos) {
            Ok(v) => v,
            Err(e) => {
                return Err(e);
            },
        };
        if v < 0 || v > 255 {
            return Err(DecodeError::IntOutOfRange);
        }
        let sv = v as u8;
        proof {
            assert(bstr_enc(kb@) + buf@.subrange(*old(pos) as int, *pos as int) =~= field_int("paused"@, sv as int));
        }
        p.paused = Some(sv);
        return Ok(Some(30));
    }
    if bytes_eq(kb.as_slice(), "peers".as_bytes()) {
        if p.peers.is_some() {
            return Err(DecodeError::Malformed);
        }
        let sv = match parse_bstr(buf, pos) {
            Ok(b) => b,
            Err(e) => {
                return Err(e);
            },
        };
        proof {
            assert(bstr_enc(kb@) + buf@.subrange(*old(pos) as int, *pos as int) =~= field_bytes("peers"@, sv@));
        }
        p.peers = Some(sv);
        return Ok(Some(31));
    }
    Ok(None)
}

/// Stores one entry whose key falls in this part of the schema; `None`
/// when the key belongs elsewhere.
#[verifier::rlimit(100)]
#[verifier::spinoff_prover]
fn store_c(buf: &[u8], pos: &mut usize, kb: &Vec<u8>, p: &mut Partial) -> (r: Result<
    Option<usize>,
    DecodeError,
>)
    requires
        *old(pos) <= buf@.len(),
    ensures
        *final(pos) <= buf@.len(),
        r matches Ok(Some(i)) ==> 0 <= i < 62 && *old(pos) < *final(pos) && !slot_filled(
            *old(p),
            i as int,
        ) && others_unchanged(*old(p), *final(p), i as int) && entry_current(
            *final(p),
            i as int,
            bstr_enc(kb@) + buf@.subrange(*old(pos) as int, *final(pos) as int),
        ),
        r matches Ok(None) ==> *final(pos) == *old(pos) && *final(p) == *old(p),
{
    if bytes_eq(kb.as_slice(), "peers6".as_bytes()) {
        if p.peers6.is_some() {
            return Err(DecodeError::Malformed);
        }
        let sv = match parse_bstr(buf, pos) {
            Ok(b) => b,
            Err(e) => {
                return Err(e);
            },
        };
        proof {
            assert(bstr_enc(kb@) + buf@.subrange(*old(pos) as int, *pos as int) =~= field_bytes("peers6"@, sv@));
        }
        p.peers6 = Some(sv);
        return Ok(Some(32));
    }
    if bytes_eq(kb.as_slice(), "piece_priority".as_bytes()) {
        if p.piece_priority.is_some() {
            return Err(DecodeError::Malformed);
        }
        let sv = match parse_bstr(buf, pos) {
            Ok(b) => b,
            Err(e) => {
                return Err(e);
            },
        };
        proof {
            assert(bstr_enc(kb@) + buf@.subrange(*old(pos) as int, *pos as int) =~= field_bytes("piece_priority"@, sv@));
        }
        p.piece_priority = Some(sv);
        return Ok(Some(33));
    }
    if bytes_eq(kb.as_slice(), "pieces".as_bytes()) {
        if p.pieces.is_some() {
            return Err(DecodeError::Malformed);
        }
        let sv = match parse_bstr(buf, pos) {
            Ok(b) => b,
            Err(e) => {
                return Err(e);
            },
        };
        proof {
            assert(bstr_enc(kb@) + buf@.subrange(*old(pos) as int, *pos as int) =~= field_bytes("pieces"@, sv@));
        }
        p.pieces = Some(sv);
        return Ok(Some(34));
    }
    if bytes_eq(kb.as_slice(), "qBt-category".as_bytes()) {
        if p.qbt_category.is_some() {
            return Err(DecodeError::Malformed);
        }
        let b = match parse_bstr(buf, pos) {
            Ok(b) => b,
            Err(e) => {
                return Err(e);
            },
        };
        if !utf8_check(b.as_slice()) {
            return Err(DecodeError::InvalidText);
        }
        let sv = vec_to_string(b);
        proof {
            assert(bstr_enc(kb@) + buf@.subrange(*old(pos) as int, *pos as int) =~= field_text("qBt-category"@, sv@));
        }
        p.qbt_category = Some(sv);
        return Ok(Some(35));
    }
    if bytes_eq(kb.as_slice(), "qBt-contentLayout".as_bytes()) {
        if p.qbt_content_layout.is_some() {
            return Err(DecodeError::Malformed);
        }
        let b = match parse_bstr(buf, pos) {
            Ok(b) => b,
            Err(e) => {
                return Err(e);
            },
        };
        if !utf8_check(b.as_slice()) {
            return Err(DecodeError::InvalidText);
        }
        let sv = vec_to_string(b);
        proof {
            assert(bstr_enc(kb@) + buf@.subrange(*old(pos) as int, *pos as int) =~= field_text("qBt-contentLayout"@, sv@));
        }
        p.qbt_content_layout = Some(sv);
        return Ok(Some(36));
    }
    if bytes_eq(kb.as_slice(), "qBt-downloadPath".as_bytes()) {
        if p.qbt_download_path.is_some() {
            return Err(DecodeError::Malformed);
        }
        let b = match parse_bstr(buf, pos) {
            Ok(b) => b,
            Err(e) => {
                return Err(e);
            },
        };
        if !utf8_check(b.as_slice()) {
            return Err(DecodeError::InvalidText);
        }
        let sv = vec_to_string(b);
        proof {
            assert(bstr_enc(kb@) + buf@.subrange(*old(pos) as int, *pos as int) =~= field_text("qBt-downloadPath"@, sv@));
        }
        p.qbt_download_path = Some(sv);
        return Ok(Some(37));
    }
    if bytes_eq(kb.as_slice(), "qBt-firstLastPiecePriority".as_bytes()) {
        if p.qbt_first_last_piece_priority.is_some() {
            return Err(DecodeError::Malformed);
        }
        let v = match parse_int(buf, pos) {
            Ok(v) => v,
            Err(e) => {
                return Err(e);
            },
        };
        if v < i64::MIN as i128 || v > i64::MAX as i128 {
            return Err(DecodeError::IntOutOfRange);
        }
        let sv = v as i64;
        proof {
            assert(bstr_enc(kb@) + buf@.subrange(*old(pos) as int, *pos as int) =~= field_int("qBt-firstLastPiecePriority"@, sv as int));
        }
        p.qbt_first_last_piece_priority = Some(sv);
        return Ok(Some(38));
    }
    if bytes_eq(kb.as_slice(), "qBt-inactiveSeedingTimeLimit".as_bytes()) {
        if p.qbt_inactive_seeding_time_limit.is_some() {
            return Err(DecodeError::Malformed);
        }
        let v = match parse_int(buf, pos) {
            Ok(v) => v,
            Err(e) => {
                return Err(e);
            },
        };
        if v < i64::MIN as i128 || v > i64::MAX as i128 {
            return Err(DecodeError::IntOutOfRange);
        }
        let sv = v as i64;
        proof {
            assert(bstr_enc(kb@) + buf@.subrange(*old(pos) as int, *pos as int) =~= field_int("qBt-inactiveSeedingTimeLimit"@, sv as int));
        }
        p.qbt_inactive_seeding_time_limit = Some(sv);
        return Ok(Some(39));
    }
    if bytes_eq(kb.as_slice(), "qBt-name".as_bytes()) {
        if p.qbt_name.is_some() {
            return Err(DecodeError::Malformed);
        }
        let b = match parse_bstr(buf, pos) {
            Ok(b) => b,
            Err(e) => {
                return Err(e);
            },
        };
        if !utf8_check(b.as_slice()) {
            return Err(DecodeError::InvalidText);
        }
        let sv = vec_to_string(b);
        proof {
            assert(bstr_enc(kb@) + buf@.subrange(*old(pos) as int, *pos as int) =~= field_text("qBt-name"@, sv@));
        }
        p.qbt_name = Some(sv);
        return Ok(Some(40));
    }
    if bytes_eq(kb.as_slice(), "qBt-ratioLimit".as_bytes()) {
        if p.qbt_ratio_limit.is_some() {
            return Err(DecodeError::Malformed);
        }
        let v = match parse_int(buf, pos) {
            Ok(v) => v,
            Err(e) => {
                return Err(e);
            },
        };
        if v < i64::MIN as i128 || v > i64::MAX as i128 {
            return Err(DecodeError::IntOutOfRange);
        }
        let sv = v as i64;
        proof {
            assert(bstr_enc(kb@) + buf@.subrange(*old(pos) as int, *pos as int) =~= field_int("qBt-ratioLimit"@, sv as int));
        }
        p.qbt_ratio_limit = Some(sv);
        return Ok(Some(41));
    }
    if bytes_eq(kb.as_slice(), "qBt-savePath".as_bytes()) {
        if p.qbt_save_path.is_some() {
            return Err(DecodeError::Malformed);
        }
        let b = match parse_bstr(buf, pos) {
            Ok(b) => b,
            Err(e) => {
                return Err(e);
            },
        };
        if !utf8_check(b.as_slice()) {
            return Err(DecodeError::InvalidText);
        }
        let sv = vec_to_string(b);
        proof {
            assert(bstr_enc(kb@) + buf@.subrange(*old(pos) as int, *pos as int) =~= field_text("qBt-savePath"@, sv@));
        }
        p.qbt_save_path = Some(sv);
        return Ok(Some(42));
    }
    if bytes_eq(kb.as_slice(), "qBt-seedStatus".as_bytes()) {
        if p.qbt_seed_status.is_some() {
            return Err(DecodeError::Malformed);
        }
        let v = match parse_int(buf, pos) {
            Ok(v) => v,
            Err(e) => {
                return Err(e);
            },
        };
        if v < i64::MIN as i128 || v > i64::MAX as i128 {
            return Err(DecodeError::IntOutOfRange);
        }
        let sv = v as i64;
        proof {
            assert(bstr_enc(kb@) + buf@.subrange(*old(pos) as int, *pos as int) =~= field_int("qBt-seedStatus"@, sv as int));
        }
        p.qbt_seed_status = Some(sv);
        return Ok(Some(43));
    }
    if bytes_eq(kb.as_slice(), "qBt-seedingTimeLimit".as_bytes()) {
        if p.qbt_seeding_time_limit.is_some() {
            return Err(DecodeError::Malformed);
        }
        let v = match parse_int(buf, pos) {
            Ok(v) => v,
            Err(e) => {
                return Err(e);
            },
        };
        if v < i64::MIN as i128 || v > i64::MAX as i128 {
            return Err(DecodeError::IntOutOfRange);
        }
        let sv = v as i64;
        proof {
            assert(bstr_enc(kb@) + buf@.subrange(*old(pos) as int, *pos as int) =~= field_int("qBt-seedingTimeLimit"@, sv as int));
        }
        p.qbt_seeding_time_limit = Some(sv);
        return Ok(Some(44));
    }
    if bytes_eq(kb.as_slice(), "qBt-shareLimitAction".as_bytes()) {
        if p.qbt_share_limit_action.is_some() {
            return Err(DecodeError::Malformed);
        }
        let b = match parse_bstr(buf, pos) {
            Ok(b) => b,
            Err(e) => {
                return Err(e);
            },
        };
        if !utf8_check(b.as_slice()) {
            return Err(DecodeError::InvalidText);
        }
        let sv = vec_to_string(b);
        proof {
            assert(bstr_enc(kb@) + buf@.subrange(*old(pos) as int, *pos as int) =~= field_text("qBt-shareLimitAction"@, sv@));
        }
        p.qbt_share_limit_action = Some(sv);
        return Ok(Some(45));
    }
    if bytes_eq(kb.as_slice(), "qBt-stopCondition".as_bytes()) {
        if p.qbt_stop_condition.is_some() {
            return Err(DecodeError::Malformed);
        }
        let b = match parse_bstr(buf, pos) {
            Ok(b) => b,
            Err(e) => {
                return Err(e);
            },
        };
        if !utf8_check(b.as_slice()) {
            return Err(DecodeError::InvalidText);
        }
        let sv = vec_to_string(b);
        proof {
            assert(bstr_enc(kb@) + buf@.subrange(*old(pos) as int, *pos as int) =~= field_text("qBt-stopCondition"@, sv@));
        }
        p.qbt_stop_condition = Some(sv);
        return Ok(Some(46));
    }
    if bytes_eq(kb.as_slice(), "qBt-tags".as_bytes()) {
        if p.qbt_tags.is_some() {
            return Err(DecodeError::Malformed);
        }
        let sv = match parse_text_list(buf, pos) {
            Ok(ss) => ss,
            Err(e) => {
                return Err(e);
            },
        };
        proof {
            assert(bstr_enc(kb@) + buf@.subrange(*old(pos) as int, *pos as int) =~= field_texts("qBt-tags"@, sv.deep_view()));
        }
        p.qbt_tags = Some(sv);
        return Ok(Some(47));
    }
    Ok(None)
}

/// Stores one entry whose key falls in this part of the schema; `None`
/// when the key belongs elsewhere.
#[verifier::rlimit(100)]
#[verifier::spinoff_prover]
fn store_d(buf: &[u8], pos: &mut usize, kb: &Vec<u8>, p: &mut Partial) -> (r: Result<
    Option<usize>,
    DecodeError,
>)
    requires
        *old(pos) <= buf@.len(),
    ensures
        *final(pos) <= buf@.len(),
        r matches Ok(Some(i)) ==> 0 <= i < 62 && *old(pos) < *final(pos) && !slot_filled(
            *old(p),
            i as int,
        ) && others_unchanged(*old(p), *final(p), i as int) && entry_current(
            *final(p),
            i as int,
            bstr_enc(kb@) + buf@.subrange(*old(pos) as int, *final(pos) as int),
        ),
        r matches Ok(None) ==> *final(pos) == *old(pos) && *final(p) == *old(p),
{
    if bytes_eq(kb.as_slice(), "save_path".as_bytes()) {
        if p.save_path.is_some() {
            return Err(DecodeError::Malformed);
        }
        let sv = match parse_bstr(buf, pos) {
            Ok(b) => b,
            Err(e) => {
                return Err(e);
            },
        };
        proof {
            assert(bstr_enc(kb@) + buf@.subrange(*old(pos) as int, *pos as int) =~= field_bytes("save_path"@, sv@));
        }
        p.save_path = Some(sv);
        return Ok(Some(48));
    }
    if bytes_eq(kb.as_slice(), "seed_mode".as_bytes()) {
        if p.seed_mode.is_some() {
            return Err(DecodeError::Malformed);
        }
        let v = match parse_int(buf, pos) {
            Ok(v) => v,
            Err(e) => {
                return Err(e);
            },
        };
        if v < 0 || v > 255 {
            return Err(DecodeError::IntOutOfRange);
        }
        let sv = v as u8;
        proof {
            assert(bstr_enc(kb@) + buf@.subrange(*old(pos) as int, *pos as int) =~= field_int("seed_mode"@, sv as int));
        }
        p.seed_mode = Some(sv);
        return Ok(Some(49));
    }
    if bytes_eq(kb.as_slice(), "seeding_time".as_bytes()) {
        if p.seeding_time.is_some() {
            return Err(DecodeError::Malformed);
        }
        let v = match parse_int(buf, pos) {
            Ok(v) => v,
            Err(e) => {
                return Err(e);
            },
        };
        if v < i64::MIN as i128 || v > i64::MAX as i128 {
            return Err(DecodeError::IntOutOfRange);
        }
        let sv = v as i64;
        proof {
            assert(bstr_enc(kb@) + buf@.subrange(*old(pos) as int, *pos as int) =~= field_int("seeding_time"@, sv as int));
        }
        p.seeding_time = Some(sv);
        return Ok(Some(50));
    }
    if bytes_eq(kb.as_slice(), "sequential_download".as_bytes()) {
        if p.sequential_download.is_some() {
            return Err(DecodeError::Malformed);
        }
        let v = match parse_int(buf, pos) {
            Ok(v) => v,
            Err(e) => {
                return Err(e);
            },
        };
        if v < 0 || v > 255 {
            return Err(DecodeError::IntOutOfRange);
        }
        let sv = v as u8;
        proof {
            assert(bstr_enc(kb@) + buf@.subrange(*old(pos) as int, *pos as int) =~= field_int("sequential_download"@, sv as int));
        }
        p.sequential_download = Some(sv);
        return Ok(Some(51));
    }
    if bytes_eq(kb.as_slice(), "share_mode".as_bytes()) {
        if p.share_mode.is_some() {
            return Err(DecodeError::Malformed);
        }
        let v = match parse_int(buf, pos) {
            Ok(v) => v,
            Err(e) => {
                return Err(e);
            },
        };
        if v < 0 || v > 255 {
            return Err(DecodeError::IntOutOfRange);
        }
        let sv = v as u8;
        proof {
            assert(bstr_enc(kb@) + buf@.subrange(*old(pos) as int, *pos as int) =~= field_int("share_mode"@, sv as int));
        }
        p.share_mode = Some(sv);
        return Ok(Some(52));
    }
    if bytes_eq(kb.as_slice(), "stop_when_ready".as_bytes()) {
        if p.stop_when_ready.is_some() {
            return Err(DecodeError::Malformed);
        }
        let v = match parse_int(buf, pos) {
            Ok(v) => v,
            Err(e) => {
                return Err(e);
            },
        };
        if v < 0 || v > 255 {
            return Err(DecodeError::IntOutOfRange);
        }
        let sv = v as u8;
        proof {
            assert(bstr_enc(kb@) + buf@.subrange(*old(pos) as int, *pos as int) =~= field_int("stop_when_ready"@, sv as int));
        }
        p.stop_when_ready = Some(sv);
        return Ok(Some(53));
    }
    if bytes_eq(kb.as_slice(), "super_seeding".as_bytes()) {
        if p.super_seeding.is_some() {
            return Err(DecodeError::Malformed);
        }
        let v = match parse_int(buf, pos) {
            Ok(v) => v,
            Err(e) => {
                return Err(e);
            },
        };
        if v < 0 || v > 255 {
            return Err(DecodeError::IntOutOfRange);
        }
        let sv = v as u8;
        proof {
            assert(bstr_enc(kb@) + buf@.subrange(*old(pos) as int, *pos as int) =~= field_int("super_seeding"@, sv as int));
        }
        p.super_seeding = Some(sv);
        return Ok(Some(54));
    }
    if bytes_eq(kb.as_slice(), "total_downloaded".as_bytes()) {
        if p.total_downloaded.is_some() {
            return Err(DecodeError::Malformed);
        }
        let v = match parse_int(buf, pos) {
            Ok(v) => v,
            Err(e) => {
                return Err(e);
            },
        };
        if v < 0 || v > u64::MAX as i128 {
            return Err(DecodeError::IntOutOfRange);
        }
        let sv = v as u64;
        proof {
            assert(bstr_enc(kb@) + buf@.subrange(*old(pos) as int, *pos as int) =~= field_int("total_downloaded"@, sv as int));
        }
        p.total_downloaded = Some(sv);
        return Ok(Some(55));
    }
    if bytes_eq(kb.as_slice(), "total_uploaded".as_bytes()) {
        if p.total_uploaded.is_some() {
            return Err(DecodeError::Malformed);
        }
        let v = match parse_int(buf, pos) {
            Ok(v) => v,
            Err(e) => {
                return Err(e);
            },
        };
        if v < 0 || v > u64::MAX as i128 {
            return Err(DecodeError::IntOutOfRange);
        }
        let sv = v as u64;
        proof {
            assert(bstr_enc(kb@) + buf@.subrange(*old(pos) as int, *pos as int) =~= field_int("total_uploaded"@, sv as int));
        }
        p.total_uploaded = Some(sv);
        return Ok(Some(56));
    }
    if bytes_eq(kb.as_slice(), "trackers".as_bytes()) {
        if p.trackers.is_some() {
            return Err(DecodeError::Malformed);
        }
        let sv = match parse_tier_list(buf, pos) {
            Ok(ts) => ts,
            Err(e) => {
                return Err(e);
            },
        };
        proof {
            assert(bstr_enc(kb@) + buf@.subrange(*old(pos) as int, *pos as int) =~= field_tiers("trackers"@, sv.deep_view()));
        }
        p.trackers = Some(sv);
        return Ok(Some(57));
    }
    if bytes_eq(kb.as_slice(), "unfinished".as_bytes()) {
        if p.unfinished.is_some() {
            return Err(DecodeError::Malformed);
        }
        let sv = match parse_piece_list(buf, pos) {
            Ok(ps) => ps,
            Err(e) => {
                return Err(e);
            },
        };
        proof {
            assert(bstr_enc(kb@) + buf@.subrange(*old(pos) as int, *pos as int) =~= field_pieces("unfinished"@, sv@));
        }
        p.unfinished = Some(sv);
        return Ok(Some(58));
    }
    if bytes_eq(kb.as_slice(), "upload_mode".as_bytes()) {
        if p.upload_mode.is_some() {
            return Err(DecodeError::Malformed);
        }
        let v = match parse_int(buf, pos) {
            Ok(v) => v,
            Err(e) => {
                return Err(e);
            },
        };
        if v < 0 || v > 255 {
            return Err(DecodeError::IntOutOfRange);
        }
        let sv = v as u8;
        proof {
            assert(bstr_enc(kb@) + buf@.subrange(*old(pos) as int, *pos as int) =~= field_int("upload_mode"@, sv as int));
        }
        p.upload_mode = Some(sv);
        return Ok(Some(59));
    }
    if bytes_eq(kb.as_slice(), "upload_rate_limit".as_bytes()) {
        if p.upload_rate_limit.is_some() {
            return Err(DecodeError::Malformed);
        }
        let v = match parse_int(buf, pos) {
            Ok(v) => v,
            Err(e) => {
                return Err(e);
            },
        };
        if v < i64::MIN as i128 || v > i64::MAX as i128 {
            return Err(DecodeError::IntOutOfRange);
        }
        let sv = v as i64;
        proof {
            assert(bstr_enc(kb@) + buf@.subrange(*old(pos) as int, *pos as int) =~= field_int("upload_rate_limit"@, sv as int));
        }
        p.upload_rate_limit = Some(sv);
        return Ok(Some(60));
    }
    if bytes_eq(kb.as_slice(), "url-list".as_bytes()) {
        if p.url_list.is_some() {
            return Err(DecodeError::Malformed);
        }
        let sv = match parse_text_list(buf, pos) {
            Ok(ss) => ss,
            Err(e) => {
                return Err(e);
            },
        };
        proof {
            assert(bstr_enc(kb@) + buf@.subrange(*old(pos) as int, *pos as int) =~= field_texts("url-list"@, sv.deep_view()));
        }
        p.url_list = Some(sv);
        return Ok(Some(61));
    }
    Ok(None)
}

/// Stores one entry of the dictionary, whichever schema field its key
/// names; an unknown key is an error, the schema being closed, and so is a
/// repeated key.
fn store_entry(buf: &[u8], pos: &mut usize, kb: &Vec<u8>, p: &mut Partial) -> (r: Result<
    usize,
    DecodeError,
>)
    requires
        *old(pos) <= buf@.len(),
    ensures
        *final(pos) <= buf@.len(),
        r matches Ok(i) ==> 0 <= i < 62 && *old(pos) < *final(pos) && !slot_filled(
            *old(p),
            i as int,
        ) && others_unchanged(*old(p), *final(p), i as int) && entry_current(
            *final(p),
            i as int,
            bstr_enc(kb@) + buf@.subrange(*old(pos) as int, *final(pos) as int),
        ),
{
    match store_a(buf, pos, kb, p) {
        Ok(Some(i)) => {
            return Ok(i);
        },
        Ok(None) => {},
        Err(e) => {
            return Err(e);
        },
    }
    match store_b(buf, pos, kb, p) {
        Ok(Some(i)) => {
            return Ok(i);
        },
        Ok(None) => {},
        Err(e) => {
            return Err(e);
        },
    }
    match store_c(buf, pos, kb, p) {
        Ok(Some(i)) => {
            return Ok(i);
        },
        Ok(None) => {},
        Err(e) => {
            return Err(e);
        },
    }
    match store_d(buf, pos, kb, p) {
        Ok(Some(i)) => {
            return Ok(i);
        },
        Ok(None) => {},
        Err(e) => {
            return Err(e);
        },
    }
    Err(DecodeError::Malformed)
}

/// The record was assembled from exactly these slots: mandatory fields
/// from filled slots, optional fields as the slots stand.
spec fn built_from(p: Partial, rec: Fastresume) -> bool {
    &&& p.active_time == Some(rec.active_time)
    &&& p.added_time == Some(rec.added_time)
    &&& p.allocation == Some(rec.allocation)
    &&& p.apply_ip_filter == Some(rec.apply_ip_filter)
    &&& p.auto_managed == Some(rec.auto_managed)
    &&& p.banned_peers == rec.banned_peers
    &&& p.banned_peers6 == rec.banned_peers6
    &&& p.completed_time == Some(rec.completed_time)
    &&& p.disable_dht == Some(rec.disable_dht)
    &&& p.disable_lsd == Some(rec.disable_lsd)
    &&& p.disable_pex == Some(rec.disable_pex)
    &&& p.download_rate_limit == Some(rec.download_rate_limit)
    &&& p.file_format == Some(rec.file_format)
    &&& p.file_version == Some(rec.file_version)
    &&& p.file_priority == rec.file_priority
    &&& p.finished_time == Some(rec.finished_time)
    &&& p.httpseeds == rec.httpseeds
    &&& p.i2p == rec.i2p
    &&& p.info_hash == Some(rec.info_hash)
    &&& p.info_hash2 == rec.info_hash2
    &&& p.last_download == Some(rec.last_download)
    &&& p.last_seen_complete == Some(rec.last_seen_complete)
    &&& p.last_upload == Some(rec.last_upload)
    &&& p.libtorrent_version == Some(rec.libtorrent_version)
    &&& p.max_connections == Some(rec.max_connections)
    &&& p.max_uploads == Some(rec.max_uploads)
    &&& p.name == rec.name
    &&& p.num_complete == Some(rec.num_complete)
    &&& p.num_downloaded == Some(rec.num_downloaded)
    &&& p.num_incomplete == Some(rec.num_incomplete)
    &&& p.paused == Some(rec.paused)
    &&& p.peers == rec.peers
    &&& p.peers6 == rec.peers6
    &&& p.piece_priority == rec.piece_priority
    &&& p.pieces == Some(rec.pieces)
    &&& p.qbt_category == rec.qbt_category
    &&& p.qbt_content_layout == rec.qbt_content_layout
    &&& p.qbt_download_path == rec.qbt_download_path
    &&& p.qbt_first_last_piece_priority == rec.qbt_first_last_piece_priority
    &&& p.qbt_inactive_seeding_time_limit == rec.qbt_inactive_seeding_time_limit
    &&& p.qbt_name == rec.qbt_name
    &&& p.qbt_ratio_limit == rec.qbt_ratio_limit
    &&& p.qbt_save_path == rec.qbt_save_path
    &&& p.qbt_seed_status == rec.qbt_seed_status
    &&& p.qbt_seeding_time_limit == rec.qbt_seeding_time_limit
    &&& p.qbt_share_limit_action == rec.qbt_share_limit_action
    &&& p.qbt_stop_condition == rec.qbt_stop_condition
    &&& p.qbt_tags == rec.qbt_tags
    &&& p.save_path == Some(rec.save_path)
    &&& p.seed_mode == Some(rec.seed_mode)
    &&& p.seeding_time == Some(rec.seeding_time)
    &&& p.sequential_download == Some(rec.sequential_download)
    &&& p.share_mode == Some(rec.share_mode)
    &&& p.stop_when_ready == Some(rec.stop_when_ready)
    &&& p.super_seeding == Some(rec.super_seeding)
    &&& p.total_downloaded == Some(rec.total_downloaded)
    &&& p.total_uploaded == Some(rec.total_uploaded)
    &&& p.trackers == Some(rec.trackers)
    &&& p.unfinished == rec.unfinished
    &&& p.upload_mode == Some(rec.upload_mode)
    &&& p.upload_rate_limit == Some(rec.upload_rate_limit)
    &&& p.url_list == Some(rec.url_list)
}

/// Builds the record once every entry is in; mandatory fields must have
/// been seen, and the save path must be valid UTF-8.
#[verifier::rlimit(100)]
#[verifier::spinoff_prover]
fn finalize(p: Partial) -> (r: Result<Fastresume, DecodeError>)
    ensures
        r matches Ok(rec) ==> wf_record(rec) && built_from(p, rec),
{
    let active_time = match p.active_time {
        Option::Some(v) => v,
        Option::None => {
            return Err(DecodeError::MissingField);
        },
    };
    let added_time = match p.added_time {
        Option::Some(v) => v,
        Option::None => {
            return Err(DecodeError::MissingField);
        },
    };
    let allocation = match p.allocation {
        Option::Some(v) => v,
        Option::None => {
            return Err(DecodeError::MissingField);
        },
    };
    let apply_ip_filter = match p.apply_ip_filter {
        Option::Some(v) => v,
        Option::None => {
            return Err(DecodeError::MissingField);
        },
    };
    let auto_managed = match p.auto_managed {
        Option::Some(v) => v,
        Option::None => {
            return Err(DecodeError::MissingField);
        },
    };
    let banned_peers = p.banned_peers;
    let banned_peers6 = p.banned_peers6;
    let completed_time = match p.completed_time {
        Option::Some(v) => v,
        Option::None => {
            return Err(DecodeError::MissingField);
        },
    };
    let disable_dht = match p.disable_dht {
        Option::Some(v) => v,
        Option::None => {
            return Err(DecodeError::MissingField);
        },
    };
    let disable_lsd = match p.disable_lsd {
        Option::Some(v) => v,
        Option::None => {
            return Err(DecodeError::MissingField);
        },
    };
    let disable_pex = match p.disable_pex {
        Option::Some(v) => v,
        Option::None => {
            return Err(DecodeError::MissingField);
        },
    };
    let download_rate_limit = match p.download_rate_limit {
        Option::Some(v) => v,
        Option::None => {
            return Err(DecodeError::MissingField);
        },
    };
    let file_format = match p.file_format {
        Option::Some(v) => v,
        Option::None => {
            return Err(DecodeError::MissingField);
        },
    };
    let file_version = match p.file_version {
        Option::Some(v) => v,
        Option::None => {
            return Err(DecodeError::MissingField);
        },
    };
    let file_priority = p.file_priority;
    let finished_time = match p.finished_time {
        Option::Some(v) => v,
        Option::None => {
            return Err(DecodeError::MissingField);
        },
    };
    let httpseeds = p.httpseeds;
    let i2p = p.i2p;
    let info_hash = match p.info_hash {
        Option::Some(v) => v,
        Option::None => {
            return Err(DecodeError::MissingField);
        },
    };
    let info_hash2 = p.info_hash2;
    let last_download = match p.last_download {
        Option::Some(v) => v,
        Option::None => {
            return Err(DecodeError::MissingField);
        },
    };
    let last_seen_complete = match p.last_seen_complete {
        Option::Some(v) => v,
        Option::None => {
            return Err(DecodeError::MissingField);
        },
    };
    let last_upload = match p.last_upload {
        Option::Some(v) => v,
        Option::None => {
            return Err(DecodeError::MissingField);
        },
    };
    let libtorrent_version = match p.libtorrent_version {
        Option::Some(v) => v,
        Option::None => {
            return Err(DecodeError::MissingField);
        },
    };
    let max_connections = match p.max_connections {
        Option::Some(v) => v,
        Option::None => {
            return Err(DecodeError::MissingField);
        },
    };
    let max_uploads = match p.max_uploads {
        Option::Some(v) => v,
        Option::None => {
            return Err(DecodeError::MissingField);
        },
    };
    let name = p.name;
    let num_complete = match p.num_complete {
        Option::Some(v) => v,
        Option::None => {
            return Err(DecodeError::MissingField);
        },
    };
    let num_downloaded = match p.num_downloaded {
        Option::Some(v) => v,
        Option::None => {
            return Err(DecodeError::MissingField);
        },
    };
    let num_incomplete = match p.num_incomplete {
        Option::Some(v) => v,
        Option::None => {
            return Err(DecodeError::MissingField);
        },
    };
    let paused = match p.paused {
        Option::Some(v) => v,
        Option::None => {
            return Err(DecodeError::MissingField);
        },
    };
    let peers = p.peers;
    let peers6 = p.peers6;
    let piece_priority = p.piece_priority;
    let pieces = match p.pieces {
        Option::Some(v) => v,
        Option::None => {
            return Err(DecodeError::MissingField);
        },
    };
    let qbt_category = p.qbt_category;
    let qbt_content_layout = p.qbt_content_layout;
    let qbt_download_path = p.qbt_download_path;
    let qbt_first_last_piece_priority = p.qbt_first_last_piece_priority;
    let qbt_inactive_seeding_time_limit = p.qbt_inactive_seeding_time_limit;
    let qbt_name = p.qbt_name;
    let qbt_ratio_limit = p.qbt_ratio_limit;
    let qbt_save_path = p.qbt_save_path;
    let qbt_seed_status = p.qbt_seed_status;
    let qbt_seeding_time_limit = p.qbt_seeding_time_limit;
    let qbt_share_limit_action = p.qbt_share_limit_action;
    let qbt_stop_condition = p.qbt_stop_condition;
    let qbt_tags = p.qbt_tags;
    let save_path = match p.save_path {
        Option::Some(v) => v,
        Option::None => {
            return Err(DecodeError::MissingField);
        },
    };
    let seed_mode = match p.seed_mode {
        Option::Some(v) => v,
        Option::None => {
            return Err(DecodeError::MissingField);
        },
    };
    let seeding_time = match p.seeding_time {
        Option::Some(v) => v,
        Option::None => {
            return Err(DecodeError::MissingField);
        },
    };
    let sequential_download = match p.sequential_download {
        Option::Some(v) => v,
        Option::None => {
            return Err(DecodeError::MissingField);
        },
    };
    let share_mode = match p.share_mode {
        Option::Some(v) => v,
        Option::None => {
            return Err(DecodeError::MissingField);
        },
    };
    let stop_when_ready = match p.stop_when_ready {
        Option::Some(v) => v,
        Option::None => {
            return Err(DecodeError::MissingField);
        },
    };
    let super_seeding = match p.super_seeding {
        Option::Some(v) => v,
        Option::None => {
            return Err(DecodeError::MissingField);
        },
    };
    let total_downloaded = match p.total_downloaded {
        Option::Some(v) => v,
        Option::None => {
            return Err(DecodeError::MissingField);
        },
    };
    let total_uploaded = match p.total_uploaded {
        Option::Some(v) => v,
        Option::None => {
            return Err(DecodeError::MissingField);
        },
    };
    let trackers = match p.trackers {
        Option::Some(v) => v,
        Option::None => {
            return Err(DecodeError::MissingField);
        },
    };
    let unfinished = p.unfinished;
    let upload_mode = match p.upload_mode {
        Option::Some(v) => v,
        Option::None => {
            return Err(DecodeError::MissingField);
        },
    };
    let upload_rate_limit = match p.upload_rate_limit {
        Option::Some(v) => v,
        Option::None => {
            return Err(DecodeError::MissingField);
        },
    };
    let url_list = match p.url_list {
        Option::Some(v) => v,
        Option::None => {
            return Err(DecodeError::MissingField);
        },
    };
    if !utf8_check(save_path.as_slice()) {
        return Err(DecodeError::InvalidText);
    }
    let rec = Fastresume {
        active_time,
        added_time,
        allocation,
        apply_ip_filter,
        auto_managed,
        banned_peers,
        banned_peers6,
        completed_time,
        disable_dht,
        disable_lsd,
        disable_pex,
        download_rate_limit,
        file_format,
        file_version,
        file_priority,
        finished_time,
        httpseeds,
        i2p,
        info_hash,
        info_hash2,
        last_download,
        last_seen_complete,
        last_upload,
        libtorrent_version,
        max_connections,
        max_uploads,
        name,
        num_complete,
        num_downloaded,
        num_incomplete,
        paused,
        peers,
        peers6,
        piece_priority,
        pieces,
        qbt_category,
        qbt_content_layout,
        qbt_download_path,
        qbt_first_last_piece_priority,
        qbt_inactive_seeding_time_limit,
        qbt_name,
        qbt_ratio_limit,
        qbt_save_path,
        qbt_seed_status,
        qbt_seeding_time_limit,
        qbt_share_limit_action,
        qbt_stop_condition,
        qbt_tags,
        save_path,
        seed_mode,
        seeding_time,
        sequential_download,
        share_mode,
        stop_when_ready,
        super_seeding,
        total_downloaded,
        total_uploaded,
        trackers,
        unfinished,
        upload_mode,
        upload_rate_limit,
        url_list,
    };
    Ok(rec)
}

/// A record built from the slots encodes each filled slot to its recorded
/// entry, and each unfilled slot to nothing.
#[verifier::rlimit(100)]
#[verifier::spinoff_prover]
proof fn lemma_built_entries(p: Partial, rec: Fastresume)
    requires
        built_from(p, rec),
    ensures
        forall|i: int, e: Seq<u8>| entry_current(p, i, e) ==> field_enc_at(rec, i) == e,
        forall|i: int|
            0 <= i < 62 && !slot_filled(p, i) ==> field_enc_at(rec, i) == Seq::<u8>::empty(),
{
    assert forall|i: int, e: Seq<u8>| entry_current(p, i, e) implies field_enc_at(rec, i)
        == e by {
        if i == 0 {
        } else if i == 1 {
        } else if i == 2 {
        } else if i == 3 {
        } else if i == 4 {
        } else if i == 5 {
        } else if i == 6 {
        } else if i == 7 {
        } else if i == 8 {
        } else if i == 9 {
        } else if i == 10 {
        } else if i == 11 {
        } else if i == 12 {
        } else if i == 13 {
        } else if i == 14 {
        } else if i == 15 {
        } else if i == 16 {
        } else if i == 17 {
        } else if i == 18 {
        } else if i == 19 {
        } else if i == 20 {
        } else if i == 21 {
        } else if i == 22 {
        } else if i == 23 {
        } else if i == 24 {
        } else if i == 25 {
        } else if i == 26 {
        } else if i == 27 {
        } else if i == 28 {
        } else if i == 29 {
        } else if i == 30 {
        } else if i == 31 {
        } else if i == 32 {
        } else if i == 33 {
        } else if i == 34 {
        } else if i == 35 {
        } else if i == 36 {
        } else if i == 37 {
        } else if i == 38 {
        } else if i == 39 {
        } else if i == 40 {
        } else if i == 41 {
        } else if i == 42 {
        } else if i == 43 {
        } else if i == 44 {
        } else if i == 45 {
        } else if i == 46 {
        } else if i == 47 {
        } else if i == 48 {
        } else if i == 49 {
        } else if i == 50 {
        } else if i == 51 {
        } else if i == 52 {
        } else if i == 53 {
        } else if i == 54 {
        } else if i == 55 {
        } else if i == 56 {
        } else if i == 57 {
        } else if i == 58 {
        } else if i == 59 {
        } else if i == 60 {
        } else if i == 61 {
        }
    }
    assert forall|i: int|
        0 <= i < 62 && !slot_filled(p, i) implies field_enc_at(rec, i)
        == Seq::<u8>::empty() by {
        if i == 0 {
        } else if i == 1 {
        } else if i == 2 {
        } else if i == 3 {
        } else if i == 4 {
        } else if i == 5 {
        } else if i == 6 {
        } else if i == 7 {
        } else if i == 8 {
        } else if i == 9 {
        } else if i == 10 {
        } else if i == 11 {
        } else if i == 12 {
        } else if i == 13 {
        } else if i == 14 {
        } else if i == 15 {
        } else if i == 16 {
        } else if i == 17 {
        } else if i == 18 {
        } else if i == 19 {
        } else if i == 20 {
        } else if i == 21 {
        } else if i == 22 {
        } else if i == 23 {
        } else if i == 24 {
        } else if i == 25 {
        } else if i == 26 {
        } else if i == 27 {
        } else if i == 28 {
        } else if i == 29 {
        } else if i == 30 {
        } else if i == 31 {
        } else if i == 32 {
        } else if i == 33 {
        } else if i == 34 {
        } else if i == 35 {
        } else if i == 36 {
        } else if i == 37 {
        } else if i == 38 {
        } else if i == 39 {
        } else if i == 40 {
        } else if i == 41 {
        } else if i == 42 {
        } else if i == 43 {
        } else if i == 44 {
        } else if i == 45 {
        } else if i == 46 {
        } else if i == 47 {
        } else if i == 48 {
        } else if i == 49 {
        } else if i == 50 {
        } else if i == 51 {
        } else if i == 52 {
        } else if i == 53 {
        } else if i == 54 {
        } else if i == 55 {
        } else if i == 56 {
        } else if i == 57 {
        } else if i == 58 {
        } else if i == 59 {
        } else if i == 60 {
        } else if i == 61 {
        }
    }
}

/// Decodes a resume blob whose closed key set may appear in any dictionary
/// order.  On success the input is proved to consist of exactly the
/// record's present entries, each once, in the order they arrived, so
/// re-encoding the record normalizes the ordering while keeping every field.
#[verifier::rlimit(100)]
#[verifier::spinoff_prover]
pub fn decode_any_order(buf: &[u8]) -> (r: Result<Fastresume, DecodeError>)
    ensures
        r matches Ok(rec) ==> wf_record(rec) && entries_reordered(buf@, rec),
        buf@.len() == 0 ==> r == Err::<Fastresume, DecodeError>(DecodeError::Truncated),
        buf@.len() > 0 && buf@[0] != TOK_DICT ==> r == Err::<Fastresume, DecodeError>(
            DecodeError::Malformed,
        ),
{
    if buf.len() == 0 {
        return Err(DecodeError::Truncated);
    }
    if buf[0] != TOK_DICT {
        return Err(DecodeError::Malformed);
    }
    let mut pos: usize = 1;
    let mut p = Partial {
        active_time: None,
        added_time: None,
        allocation: None,
        apply_ip_filter: None,
        auto_managed: None,
        banned_peers: None,
        banned_peers6: None,
        completed_time: None,
        disable_dht: None,
        disable_lsd: None,
        disable_pex: None,
        download_rate_limit: None,
        file_format: None,
        file_version: None,
        file_priority: None,
        finished_time: None,
        httpseeds: None,
        i2p: None,
        info_hash: None,
        info_hash2: None,
        last_download: None,
        last_seen_complete: None,
        last_upload: None,
        libtorrent_version: None,
        max_connections: None,
        max_uploads: None,
        name: None,
        num_complete: None,
        num_downloaded: None,
        num_incomplete: None,
        paused: None,
        peers: None,
        peers6: None,
        piece_priority: None,
        pieces: None,
        qbt_category: None,
        qbt_content_layout: None,
        qbt_download_path: None,
        qbt_first_last_piece_priority: None,
        qbt_inactive_seeding_time_limit: None,
        qbt_name: None,
        qbt_ratio_limit: None,
        qbt_save_path: None,
        qbt_seed_status: None,
        qbt_seeding_time_limit: None,
        qbt_share_limit_action: None,
        qbt_stop_condition: None,
        qbt_tags: None,
        save_path: None,
        seed_mode: None,
        seeding_time: None,
        sequential_download: None,
        share_mode: None,
        stop_when_ready: None,
        super_seeding: None,
        total_downloaded: None,
        total_uploaded: None,
        trackers: None,
        unfinished: None,
        upload_mode: None,
        upload_rate_limit: None,
        url_list: None,
    };
    let ghost mut ents: Seq<Seq<u8>> = Seq::empty();
    let ghost mut idxs: Seq<int> = Seq::empty();
    proof {
        assert(buf@.subrange(1, 1) =~= concat_seqs(ents));
    }
    while pos < buf.len() && buf[pos] != TOK_END
        invariant
            1 <= pos <= buf@.len(),
            buf@.len() > 0,
            buf@[0] == TOK_DICT,
            ents.len() == idxs.len(),
            buf@.subrange(1, pos as int) == concat_seqs(ents),
            forall|j: int| 0 <= j < idxs.len() ==> 0 <= #[trigger] idxs[j] < 62,
            forall|j: int| 0 <= j < ents.len() ==> entry_current(p, idxs[j], #[trigger] ents[j]),
            forall|j: int, t: int| 0 <= j < t < idxs.len() ==> idxs[j] != idxs[t],
            forall|i: int| 0 <= i < 62 ==> (#[trigger] slot_filled(p, i) <==> idxs.contains(i)),
        decreases buf@.len() - pos,
    {
        let ghost entry_start = pos;
        let kb = match parse_bstr(buf, &mut pos) {
            Ok(kb) => kb,
            Err(e) => {
                return Err(e);
            },
        };
        let ghost key_end = pos;
        let ghost p_old = p;
        let i = match store_entry(buf, &mut pos, &kb, &mut p) {
            Ok(i) => i,
            Err(e) => {
                return Err(e);
            },
        };
        proof {
            let e = bstr_enc(kb@) + buf@.subrange(key_end as int, pos as int);
            assert(buf@.subrange(entry_start as int, pos as int) =~= e);
            assert forall|j: int| 0 <= j < ents.len() implies entry_current(
                p,
                idxs[j],
                #[trigger] ents[j],
            ) by {
                lemma_entry_filled(p_old, idxs[j], ents[j]);
                lemma_entry_frame(p_old, p, i as int, idxs[j], ents[j]);
            }
            assert forall|j: int| 0 <= j < idxs.len() implies idxs[j] != i as int by {
                lemma_entry_filled(p_old, idxs[j], ents[j]);
            }
            let ghost ents2 = ents.push(e);
            let ghost idxs2 = idxs.push(i as int);
            lemma_concat_seqs_push(ents, e);
            assert(buf@.subrange(1, pos as int) =~= concat_seqs(ents2));
            assert forall|t: int| 0 <= t < 62 implies (#[trigger] slot_filled(p, t)
                <==> idxs2.contains(t)) by {
                if t == i as int {
                    lemma_entry_filled(p, i as int, e);
                    assert(idxs2[idxs2.len() - 1] == t);
                    assert(idxs2.contains(t));
                } else {
                    lemma_filled_frame(p_old, p, i as int, t);
                    if idxs2.contains(t) {
                        let j = choose|j: int| 0 <= j < idxs2.len() && idxs2[j] == t;
                        assert(idxs[j] == t);
                        assert(idxs.contains(t));
                    }
                    if idxs.contains(t) {
                        let j = choose|j: int| 0 <= j < idxs.len() && idxs[j] == t;
                        assert(idxs2[j] == t);
                        assert(idxs2.contains(t));
                    }
                }
            }
            ents = ents2;
            idxs = idxs2;
        }
    }
    if pos >= buf.len() {
        return Err(DecodeError::Truncated);
    }
    pos = pos + 1;
    if pos != buf.len() {
        return Err(DecodeError::TrailingData);
    }
    let ghost pg = p;
    let rec = match finalize(p) {
        Ok(rec) => rec,
        Err(e) => {
            return Err(e);
        },
    };
    proof {
        lemma_built_entries(pg, rec);
        assert forall|j: int| 0 <= j < idxs.len() implies field_enc_at(rec, idxs[j])
            == #[trigger] ents[j] by {
            assert(entry_current(pg, idxs[j], ents[j]));
        }
        lemma_concat_fields_of(rec, idxs, ents);
        assert forall|i: int|
            0 <= i < 62 && field_enc_at(rec, i) != Seq::<u8>::empty() implies idxs.contains(
            i,
        ) by {
            assert(slot_filled(pg, i));
        }
        assert(covering_order(rec, idxs));
        assert(buf@ =~= seq![TOK_DICT] + concat_fields(rec, idxs) + seq![TOK_END]);
        assert(entries_reordered(buf@, rec));
    }
    Ok(rec)
}

/// The schema indices from `lo` upward, in canonical order.
spec fn range_order(lo: int) -> Seq<int>
    decreases 62 - lo,
{
    if lo < 0 || lo >= 62 {
        Seq::empty()
    } else {
        seq![lo] + range_order(lo + 1)
    }
}

proof fn lemma_range_order_props(lo: int)
    requires
        0 <= lo <= 62,
    ensures
        range_order(lo).len() == 62 - lo,
        forall|j: int| 0 <= j < 62 - lo ==> #[trigger] range_order(lo)[j] == lo + j,
    decreases 62 - lo,
{
    if lo < 62 {
        lemma_range_order_props(lo + 1);
        assert forall|j: int| 0 <= j < 62 - lo implies #[trigger] range_order(lo)[j] == lo
            + j by {
            if j > 0 {
                assert(range_order(lo)[j] == range_order(lo + 1)[j - 1]);
            }
        }
    }
}

/// The record's fields from index `lo` upward, concatenated canonically.
spec fn fields_suffix(r: Fastresume, lo: int) -> Seq<u8>
    decreases 62 - lo,
{
    if lo < 0 || lo >= 62 {
        Seq::empty()
    } else {
        field_enc_at(r, lo) + fields_suffix(r, lo + 1)
    }
}

proof fn lemma_range_concat(r: Fastresume, lo: int)
    requires
        0 <= lo <= 62,
    ensures
        concat_fields(r, range_order(lo)) == fields_suffix(r, lo),
    decreases 62 - lo,
{
    if lo < 62 {
        lemma_range_concat(r, lo + 1);
        assert(range_order(lo)[0] == lo);
        assert(range_order(lo).drop_first() =~= range_order(lo + 1));
        assert(concat_fields(r, range_order(lo)) =~= fields_suffix(r, lo));
    } else {
        assert(concat_fields(r, range_order(lo)) =~= fields_suffix(r, lo));
    }
}

#[verifier::rlimit(100)]
#[verifier::spinoff_prover]
proof fn lemma_group_suffix_1(r: Fastresume)
    ensures
        fields_suffix(r, 0) == g1_enc(r.active_time, r.added_time, r.allocation@, r.apply_ip_filter, r.auto_managed, r.banned_peers, r.banned_peers6, r.completed_time) + fields_suffix(r, 8),
{
    reveal_with_fuel(fields_suffix, 2);
    assert(fields_suffix(r, 7) == field_enc_at(r, 7) + fields_suffix(r, 8));
    assert(fields_suffix(r, 6) == field_enc_at(r, 6) + fields_suffix(r, 7));
    assert(fields_suffix(r, 5) == field_enc_at(r, 5) + fields_suffix(r, 6));
    assert(fields_suffix(r, 4) == field_enc_at(r, 4) + fields_suffix(r, 5));
    assert(fields_suffix(r, 3) == field_enc_at(r, 3) + fields_suffix(r, 4));
    assert(fields_suffix(r, 2) == field_enc_at(r, 2) + fields_suffix(r, 3));
    assert(fields_suffix(r, 1) == field_enc_at(r, 1) + fields_suffix(r, 2));
    assert(fields_suffix(r, 0) == field_enc_at(r, 0) + fields_suffix(r, 1));
    assert(field_enc_at(r, 0) == field_int("active_time"@, r.active_time as int));
    assert(field_enc_at(r, 1) == field_int("added_time"@, r.added_time as int));
    assert(field_enc_at(r, 2) == field_bytes("allocation"@, r.allocation@));
    assert(field_enc_at(r, 3) == field_int("apply_ip_filter"@, r.apply_ip_filter as int));
    assert(field_enc_at(r, 4) == field_int("auto_managed"@, r.auto_managed as int));
    assert(field_enc_at(r, 5) == opt_field_bytes("banned_peers"@, r.banned_peers));
    assert(field_enc_at(r, 6) == opt_field_bytes("banned_peers6"@, r.banned_peers6));
    assert(field_enc_at(r, 7) == field_int("completed_time"@, r.completed_time as int));
    assert(fields_suffix(r, 0) =~= g1_enc(r.active_time, r.added_time, r.allocation@, r.apply_ip_filter, r.auto_managed, r.banned_peers, r.banned_peers6, r.completed_time) + fields_suffix(r, 8));
}

#[verifier::rlimit(100)]
#[verifier::spinoff_prover]
proof fn lemma_group_suffix_2(r: Fastresume)
    ensures
        fields_suffix(r, 8) == g2_enc(r.disable_dht, r.disable_lsd, r.disable_pex, r.download_rate_limit, r.file_format@, r.file_version, r.file_priority, r.finished_time) + fields_suffix(r, 16),
{
    reveal_with_fuel(fields_suffix, 2);
    assert(fields_suffix(r, 15) == field_enc_at(r, 15) + fields_suffix(r, 16));
    assert(fields_suffix(r, 14) == field_enc_at(r, 14) + fields_suffix(r, 15));
    assert(fields_suffix(r, 13) == field_enc_at(r, 13) + fields_suffix(r, 14));
    assert(fields_suffix(r, 12) == field_enc_at(r, 12) + fields_suffix(r, 13));
    assert(fields_suffix(r, 11) == field_enc_at(r, 11) + fields_suffix(r, 12));
    assert(fields_suffix(r, 10) == field_enc_at(r, 10) + fields_suffix(r, 11));
    assert(fields_suffix(r, 9) == field_enc_at(r, 9) + fields_suffix(r, 10));
    assert(fields_suffix(r, 8) == field_enc_at(r, 8) + fields_suffix(r, 9));
    assert(field_enc_at(r, 8) == field_int("disable_dht"@, r.disable_dht as int));
    assert(field_enc_at(r, 9) == field_int("disable_lsd"@, r.disable_lsd as int));
    assert(field_enc_at(r, 10) == field_int("disable_pex"@, r.disable_pex as int));
    assert(field_enc_at(r, 11) == field_int("download_rate_limit"@, r.download_rate_limit as int));
    assert(field_enc_at(r, 12) == field_bytes("file-format"@, r.file_format@));
    assert(field_enc_at(r, 13) == field_int("file-version"@, r.file_version as int));
    assert(field_enc_at(r, 14) == opt_field_ints("file_priority"@, r.file_priority));
    assert(field_enc_at(r, 15) == field_int("finished_time"@, r.finished_time as int));
    assert(fields_suffix(r, 8) =~= g2_enc(r.disable_dht, r.disable_lsd, r.disable_pex, r.download_rate_limit, r.file_format@, r.file_version, r.file_priority, r.finished_time) + fields_suffix(r, 16));
}

#[verifier::rlimit(100)]
#[verifier::spinoff_prover]
proof fn lemma_group_suffix_3(r: Fastresume)
    ensures
        fields_suffix(r, 16) == g3_enc(r.httpseeds, r.i2p, r.info_hash@, r.info_hash2, r.last_download, r.last_seen_complete, r.last_upload, r.libtorrent_version@) + fields_suffix(r, 24),
{
    reveal_with_fuel(fields_suffix, 2);
    assert(fields_suffix(r, 23) == field_enc_at(r, 23) + fields_suffix(r, 24));
    assert(fields_suffix(r, 22) == field_enc_at(r, 22) + fields_suffix(r, 23));
    assert(fields_suffix(r, 21) == field_enc_at(r, 21) + fields_suffix(r, 22));
    assert(fields_suffix(r, 20) == field_enc_at(r, 20) + fields_suffix(r, 21));
    assert(fields_suffix(r, 19) == field_enc_at(r, 19) + fields_suffix(r, 20));
    assert(fields_suffix(r, 18) == field_enc_at(r, 18) + fields_suffix(r, 19));
    assert(fields_suffix(r, 17) == field_enc_at(r, 17) + fields_suffix(r, 18));
    assert(fields_suffix(r, 16) == field_enc_at(r, 16) + fields_suffix(r, 17));
    assert(field_enc_at(r, 16) == opt_field_texts("httpseeds"@, r.httpseeds));
    assert(field_enc_at(r, 17) == opt_field_u8("i2p"@, r.i2p));
    assert(field_enc_at(r, 18) == field_bytes("info-hash"@, r.info_hash@));
    assert(field_enc_at(r, 19) == opt_field_bytes("info-hash2"@, r.info_hash2));
    assert(field_enc_at(r, 20) == field_int("last_download"@, r.last_download as int));
    assert(field_enc_at(r, 21) == field_int("last_seen_complete"@, r.last_seen_complete as int));
    assert(field_enc_at(r, 22) == field_int("last_upload"@, r.last_upload as int));
    assert(field_enc_at(r, 23) == field_bytes("libtorrent-version"@, r.libtorrent_version@));
    assert(fields_suffix(r, 16) =~= g3_enc(r.httpseeds, r.i2p, r.info_hash@, r.info_hash2, r.last_download, r.last_seen_complete, r.last_upload, r.libtorrent_version@) + fields_suffix(r, 24));
}

#[verifier::rlimit(100)]
#[verifier::spinoff_prover]
proof fn lemma_group_suffix_4(r: Fastresume)
    ensures
        fields_suffix(r, 24) == g4_enc(r.max_connections, r.max_uploads, r.name, r.num_complete, r.num_downloaded, r.num_incomplete, r.paused, r.peers) + fields_suffix(r, 32),
{
    reveal_with_fuel(fields_suffix, 2);
    assert(fields_suffix(r, 31) == field_enc_at(r, 31) + fields_suffix(r, 32));
    assert(fields_suffix(r, 30) == field_enc_at(r, 30) + fields_suffix(r, 31));
    assert(fields_suffix(r, 29) == field_enc_at(r, 29) + fields_suffix(r, 30));
    assert(fields_suffix(r, 28) == field_enc_at(r, 28) + fields_suffix(r, 29));
    assert(fields_suffix(r, 27) == field_enc_at(r, 27) + fields_suffix(r, 28));
    assert(fields_suffix(r, 26) == field_enc_at(r, 26) + fields_suffix(r, 27));
    assert(fields_suffix(r, 25) == field_enc_at(r, 25) + fields_suffix(r, 26));
    assert(fields_suffix(r, 24) == field_enc_at(r, 24) + fields_suffix(r, 25));
    assert(field_enc_at(r, 24) == field_int("max_connections"@, r.max_connections as int));
    assert(field_enc_at(r, 25) == field_int("max_uploads"@, r.max_uploads as int));
    assert(field_enc_at(r, 26) == opt_field_bytes("name"@, r.name));
    assert(field_enc_at(r, 27) == field_int("num_complete"@, r.num_complete as int));
    assert(field_enc_at(r, 28) == field_int("num_downloaded"@, r.num_downloaded as int));
    assert(field_enc_at(r, 29) == field_int("num_incomplete"@, r.num_incomplete as int));
    assert(field_enc_at(r, 30) == field_int("paused"@, r.paused as int));
    assert(field_enc_at(r, 31) == opt_field_bytes("peers"@, r.peers));
    assert(fields_suffix(r, 24) =~= g4_enc(r.max_connections, r.max_uploads, r.name, r.num_complete, r.num_downloaded, r.num_incomplete, r.paused, r.peers) + fields_suffix(r, 32));
}

#[verifier::rlimit(100)]
#[verifier::spinoff_prover]
proof fn lemma_group_suffix_5(r: Fastresume)
    ensures
        fields_suffix(r, 32) == g5_enc(r.peers6, r.piece_priority, r.pieces@, r.qbt_category, r.qbt_content_layout, r.qbt_download_path, r.qbt_first_last_piece_priority, r.qbt_inactive_seeding_time_limit) + fields_suffix(r, 40),
{
    reveal_with_fuel(fields_suffix, 2);
    assert(fields_suffix(r, 39) == field_enc_at(r, 39) + fields_suffix(r, 40));
    assert(fields_suffix(r, 38) == field_enc_at(r, 38) + fields_suffix(r, 39));
    assert(fields_suffix(r, 37) == field_enc_at(r, 37) + fields_suffix(r, 38));
    assert(fields_suffix(r, 36) == field_enc_at(r, 36) + fields_suffix(r, 37));
    assert(fields_suffix(r, 35) == field_enc_at(r, 35) + fields_suffix(r, 36));
    assert(fields_suffix(r, 34) == field_enc_at(r, 34) + fields_suffix(r, 35));
    assert(fields_suffix(r, 33) == field_enc_at(r, 33) + fields_suffix(r, 34));
    assert(fields_suffix(r, 32) == field_enc_at(r, 32) + fields_suffix(r, 33));
    assert(field_enc_at(r, 32) == opt_field_bytes("peers6"@, r.peers6));
    assert(field_enc_at(r, 33) == opt_field_bytes("piece_priority"@, r.piece_priority));
    assert(field_enc_at(r, 34) == field_bytes("pieces"@, r.pieces@));
    assert(field_enc_at(r, 35) == opt_field_text("qBt-category"@, r.qbt_category));
    assert(field_enc_at(r, 36) == opt_field_text("qBt-contentLayout"@, r.qbt_content_layout));
    assert(field_enc_at(r, 37) == opt_field_text("qBt-downloadPath"@, r.qbt_download_path));
    assert(field_enc_at(r, 38) == opt_field_i64("qBt-firstLastPiecePriority"@, r.qbt_first_last_piece_priority));
    assert(field_enc_at(r, 39) == opt_field_i64("qBt-inactiveSeedingTimeLimit"@, r.qbt_inactive_seeding_time_limit));
    assert(fields_suffix(r, 32) =~= g5_enc(r.peers6, r.piece_priority, r.pieces@, r.qbt_category, r.qbt_content_layout, r.qbt_download_path, r.qbt_first_last_piece_priority, r.qbt_inactive_seeding_time_limit) + fields_suffix(r, 40));
}

#[verifier::rlimit(100)]
#[verifier::spinoff_prover]
proof fn lemma_group_suffix_6(r: Fastresume)
    ensures
        fields_suffix(r, 40) == g6_enc(r.qbt_name, r.qbt_ratio_limit, r.qbt_save_path, r.qbt_seed_status, r.qbt_seeding_time_limit, r.qbt_share_limit_action, r.qbt_stop_condition, r.qbt_tags) + fields_suffix(r, 48),
{
    reveal_with_fuel(fields_suffix, 2);
    assert(fields_suffix(r, 47) == field_enc_at(r, 47) + fields_suffix(r, 48));
    assert(fields_suffix(r, 46) == field_enc_at(r, 46) + fields_suffix(r, 47));
    assert(fields_suffix(r, 45) == field_enc_at(r, 45) + fields_suffix(r, 46));
    assert(fields_suffix(r, 44) == field_enc_at(r, 44) + fields_suffix(r, 45));
    assert(fields_suffix(r, 43) == field_enc_at(r, 43) + fields_suffix(r, 44));
    assert(fields_suffix(r, 42) == field_enc_at(r, 42) + fields_suffix(r, 43));
    assert(fields_suffix(r, 41) == field_enc_at(r, 41) + fields_suffix(r, 42));
    assert(fields_suffix(r, 40) == field_enc_at(r, 40) + fields_suffix(r, 41));
    assert(field_enc_at(r, 40) == opt_field_text("qBt-name"@, r.qbt_name));
    assert(field_enc_at(r, 41) == opt_field_i64("qBt-ratioLimit"@, r.qbt_ratio_limit));
    assert(field_enc_at(r, 42) == opt_field_text("qBt-savePath"@, r.qbt_save_path));
    assert(field_enc_at(r, 43) == opt_field_i64("qBt-seedStatus"@, r.qbt_seed_status));
    assert(field_enc_at(r, 44) == opt_field_i64("qBt-seedingTimeLimit"@, r.qbt_seeding_time_limit));
    assert(field_enc_at(r, 45) == opt_field_text("qBt-shareLimitAction"@, r.qbt_share_limit_action));
    assert(field_enc_at(r, 46) == opt_field_text("qBt-stopCondition"@, r.qbt_stop_condition));
    assert(field_enc_at(r, 47) == opt_field_texts("qBt-tags"@, r.qbt_tags));
    assert(fields_suffix(r, 40) =~= g6_enc(r.qbt_name, r.qbt_ratio_limit, r.qbt_save_path, r.qbt_seed_status, r.qbt_seeding_time_limit, r.qbt_share_limit_action, r.qbt_stop_condition, r.qbt_tags) + fields_suffix(r, 48));
}

#[verifier::rlimit(100)]
#[verifier::spinoff_prover]
proof fn lemma_group_suffix_7(r: Fastresume)
    ensures
        fields_suffix(r, 48) == g7_enc(r.save_path@, r.seed_mode, r.seeding_time, r.sequential_download, r.share_mode, r.stop_when_ready, r.super_seeding, r.total_downloaded) + fields_suffix(r, 56),
{
    reveal_with_fuel(fields_suffix, 2);
    assert(fields_suffix(r, 55) == field_enc_at(r, 55) + fields_suffix(r, 56));
    assert(fields_suffix(r, 54) == field_enc_at(r, 54) + fields_suffix(r, 55));
    assert(fields_suffix(r, 53) == field_enc_at(r, 53) + fields_suffix(r, 54));
    assert(fields_suffix(r, 52) == field_enc_at(r, 52) + fields_suffix(r, 53));
    assert(fields_suffix(r, 51) == field_enc_at(r, 51) + fields_suffix(r, 52));
    assert(fields_suffix(r, 50) == field_enc_at(r, 50) + fields_suffix(r, 51));
    assert(fields_suffix(r, 49) == field_enc_at(r, 49) + fields_suffix(r, 50));
    assert(fields_suffix(r, 48) == field_enc_at(r, 48) + fields_suffix(r, 49));
    assert(field_enc_at(r, 48) == field_bytes("save_path"@, r.save_path@));
    assert(field_enc_at(r, 49) == field_int("seed_mode"@, r.seed_mode as int));
    assert(field_enc_at(r, 50) == field_int("seeding_time"@, r.seeding_time as int));
    assert(field_enc_at(r, 51) == field_int("sequential_download"@, r.sequential_download as int));
    assert(field_enc_at(r, 52) == field_int("share_mode"@, r.share_mode as int));
    assert(field_enc_at(r, 53) == field_int("stop_when_ready"@, r.stop_when_ready as int));
    assert(field_enc_at(r, 54) == field_int("super_seeding"@, r.super_seeding as int));
    assert(field_enc_at(r, 55) == field_int("total_downloaded"@, r.total_downloaded as int));
    assert(fields_suffix(r, 48) =~= g7_enc(r.save_path@, r.seed_mode, r.seeding_time, r.sequential_download, r.share_mode, r.stop_when_ready, r.super_seeding, r.total_downloaded) + fields_suffix(r, 56));
}

#[verifier::rlimit(100)]
#[verifier::spinoff_prover]
proof fn lemma_group_suffix_8(r: Fastresume)
    ensures
        fields_suffix(r, 56) == g8_enc(r.total_uploaded, r.trackers.deep_view(), r.unfinished, r.upload_mode, r.upload_rate_limit, r.url_list.deep_view()),
{
    reveal_with_fuel(fields_suffix, 2);
    assert(fields_suffix(r, 61) == field_enc_at(r, 61) + fields_suffix(r, 62));
    assert(fields_suffix(r, 60) == field_enc_at(r, 60) + fields_suffix(r, 61));
    assert(fields_suffix(r, 59) == field_enc_at(r, 59) + fields_suffix(r, 60));
    assert(fields_suffix(r, 58) == field_enc_at(r, 58) + fields_suffix(r, 59));
    assert(fields_suffix(r, 57) == field_enc_at(r, 57) + fields_suffix(r, 58));
    assert(fields_suffix(r, 56) == field_enc_at(r, 56) + fields_suffix(r, 57));
    assert(field_enc_at(r, 56) == field_int("total_uploaded"@, r.total_uploaded as int));
    assert(field_enc_at(r, 57) == field_tiers("trackers"@, r.trackers.deep_view()));
    assert(field_enc_at(r, 58) == opt_field_pieces("unfinished"@, r.unfinished));
    assert(field_enc_at(r, 59) == field_int("upload_mode"@, r.upload_mode as int));
    assert(field_enc_at(r, 60) == field_int("upload_rate_limit"@, r.upload_rate_limit as int));
    assert(field_enc_at(r, 61) == field_texts("url-list"@, r.url_list.deep_view()));
    assert(fields_suffix(r, 56) =~= g8_enc(r.total_uploaded, r.trackers.deep_view(), r.unfinished, r.upload_mode, r.upload_rate_limit, r.url_list.deep_view()));
}

/// The canonical field concatenation equals the whole-record encoding.
#[verifier::rlimit(100)]
#[verifier::spinoff_prover]
proof fn lemma_suffix_is_encode(r: Fastresume)
    ensures
        seq![TOK_DICT] + fields_suffix(r, 0) + seq![TOK_END] == spec_encode(r),
{
    let t1 = g1_enc(r.active_time, r.added_time, r.allocation@, r.apply_ip_filter, r.auto_managed, r.banned_peers, r.banned_peers6, r.completed_time);
    let t2 = g2_enc(r.disable_dht, r.disable_lsd, r.disable_pex, r.download_rate_limit, r.file_format@, r.file_version, r.file_priority, r.finished_time);
    let t3 = g3_enc(r.httpseeds, r.i2p, r.info_hash@, r.info_hash2, r.last_download, r.last_seen_complete, r.last_upload, r.libtorrent_version@);
    let t4 = g4_enc(r.max_connections, r.max_uploads, r.name, r.num_complete, r.num_downloaded, r.num_incomplete, r.paused, r.peers);
    let t5 = g5_enc(r.peers6, r.piece_priority, r.pieces@, r.qbt_category, r.qbt_content_layout, r.qbt_download_path, r.qbt_first_last_piece_priority, r.qbt_inactive_seeding_time_limit);
    let t6 = g6_enc(r.qbt_name, r.qbt_ratio_limit, r.qbt_save_path, r.qbt_seed_status, r.qbt_seeding_time_limit, r.qbt_share_limit_action, r.qbt_stop_condition, r.qbt_tags);
    let t7 = g7_enc(r.save_path@, r.seed_mode, r.seeding_time, r.sequential_download, r.share_mode, r.stop_when_ready, r.super_seeding, r.total_downloaded);
    let t8 = g8_enc(r.total_uploaded, r.trackers.deep_view(), r.unfinished, r.upload_mode, r.upload_rate_limit, r.url_list.deep_view());
    lemma_group_suffix_1(r);
    lemma_group_suffix_2(r);
    lemma_group_suffix_3(r);
    lemma_group_suffix_4(r);
    lemma_group_suffix_5(r);
    lemma_group_suffix_6(r);
    lemma_group_suffix_7(r);
    lemma_group_suffix_8(r);
    let s5 = fields_suffix(r, 32);
    assert(s5 =~= t5 + t6 + t7 + t8);
    assert(fields_suffix(r, 0) =~= t1 + t2 + t3 + t4 + s5);
    lemma_regroup(
        seq![TOK_DICT],
        fields_suffix(r, 0),
        s5,
        seq![TOK_END],
        t1,
        t2,
        t3,
        t4,
        t5,
        t6,
        t7,
        t8,
    );
    assert(seq![TOK_DICT] + t1 + t2 + t3 + t4 + t5 + t6 + t7 + t8 + seq![TOK_END]
        == spec_encode(r));
}

/// Regroups a two-half concatenation into the flat left-nested form.
proof fn lemma_regroup(
    d: Seq<u8>,
    x: Seq<u8>,
    y: Seq<u8>,
    e: Seq<u8>,
    t1: Seq<u8>,
    t2: Seq<u8>,
    t3: Seq<u8>,
    t4: Seq<u8>,
    t5: Seq<u8>,
    t6: Seq<u8>,
    t7: Seq<u8>,
    t8: Seq<u8>,
)
    requires
        x == t1 + t2 + t3 + t4 + y,
        y == t5 + t6 + t7 + t8,
    ensures
        d + x + e == d + t1 + t2 + t3 + t4 + t5 + t6 + t7 + t8 + e,
{
    assert(d + x + e =~= d + t1 + t2 + t3 + t4 + t5 + t6 + t7 + t8 + e);
}

/// A canonically encoded record is one ordering of its own entries, so the
/// exact decoder's acceptances satisfy the reordering statement as well.
#[verifier::rlimit(100)]
#[verifier::spinoff_prover]
pub proof fn lemma_canonical_cover(r: Fastresume)
    ensures
        entries_reordered(spec_encode(r), r),
{
    let order = range_order(0);
    lemma_range_order_props(0);
    lemma_range_concat(r, 0);
    assert forall|j: int, t: int| 0 <= j < t < order.len() implies order[j] != order[t] by {
        assert(order[j] == j && order[t] == t);
    }
    assert forall|i: int|
        0 <= i < 62 && field_enc_at(r, i) != Seq::<u8>::empty() implies order.contains(i) by {
        assert(order[i] == i);
    }
    assert(covering_order(r, order));
    lemma_suffix_is_encode(r);
    assert(spec_encode(r) == seq![TOK_DICT] + concat_fields(r, order) + seq![TOK_END]);
}

} // verus!
