use qbfrt::benc::DecodeError;
use qbfrt::codec::{decode, encode};
use qbfrt::record::{Fastresume, UnfinishedPiece};

fn base_record() -> Fastresume {
    Fastresume {
        active_time: 0,
        added_time: 0,
        allocation: Vec::new(),
        apply_ip_filter: 0,
        auto_managed: 0,
        banned_peers: None,
        banned_peers6: None,
        completed_time: 0,
        disable_dht: 0,
        disable_lsd: 0,
        disable_pex: 0,
        download_rate_limit: 0,
        file_format: Vec::new(),
        file_version: 0,
        file_priority: None,
        finished_time: 0,
        httpseeds: None,
        i2p: None,
        info_hash: Vec::new(),
        info_hash2: None,
        last_download: 0,
        last_seen_complete: 0,
        last_upload: 0,
        libtorrent_version: Vec::new(),
        max_connections: 0,
        max_uploads: 0,
        name: None,
        num_complete: 0,
        num_downloaded: 0,
        num_incomplete: 0,
        paused: 0,
        peers: None,
        peers6: None,
        piece_priority: None,
        pieces: Vec::new(),
        qbt_category: None,
        qbt_content_layout: None,
        qbt_download_path: None,
        qbt_first_last_piece_priority: None,
        qbt_inactive_seeding_time_limit: None,
        qbt_name: None,
        qbt_ratio_limit: None,
        qbt_save_path: None,
        qbt_seed_status: None,
        qbt_seeding_time_limit: None,
        qbt_share_limit_action: None,
        qbt_stop_condition: None,
        qbt_tags: None,
        save_path: Vec::new(),
        seed_mode: 0,
        seeding_time: 0,
        sequential_download: 0,
        share_mode: 0,
        stop_when_ready: 0,
        super_seeding: 0,
        total_downloaded: 0,
        total_uploaded: 0,
        trackers: Vec::new(),
        unfinished: None,
        upload_mode: 0,
        upload_rate_limit: 0,
        url_list: Vec::new(),
    }
}

fn sample_record() -> Fastresume {
    let mut r = base_record();
    r.active_time = 12345;
    r.added_time = 1700000000;
    r.allocation = b"sparse".to_vec();
    r.apply_ip_filter = 1;
    r.auto_managed = 1;
    r.banned_peers = Some(vec![1, 2, 3]);
    r.completed_time = -1;
    r.download_rate_limit = -1;
    r.file_format = b"libtorrent resume file".to_vec();
    r.file_version = 1;
    r.file_priority = Some(vec![1, 4, 0]);
    r.finished_time = 99;
    r.httpseeds = Some(vec!["http://seed/one".to_string()]);
    r.i2p = Some(0);
    r.info_hash = vec![0xAA; 20];
    r.info_hash2 = Some(vec![0xBB; 32]);
    r.last_download = 10;
    r.last_seen_complete = 11;
    r.last_upload = 12;
    r.libtorrent_version = b"2.0.9.0".to_vec();
    r.max_connections = 100;
    r.max_uploads = -1;
    r.name = Some(b"opaque name".to_vec());
    r.num_complete = 7;
    r.num_downloaded = 8;
    r.num_incomplete = 9;
    r.paused = 1;
    r.peers = Some(vec![127, 0, 0, 1, 0x1A, 0xE1]);
    r.piece_priority = Some(vec![4, 4]);
    r.pieces = vec![0xFF, 0x01];
    r.qbt_category = Some("linux-isos".to_string());
    r.qbt_content_layout = Some("Original".to_string());
    r.qbt_download_path = Some("/downloads/incomplete".to_string());
    r.qbt_first_last_piece_priority = Some(1);
    r.qbt_inactive_seeding_time_limit = Some(-2);
    r.qbt_name = Some("renamed torrent".to_string());
    r.qbt_ratio_limit = Some(-2000);
    r.qbt_save_path = Some("/data/torrents".to_string());
    r.qbt_seed_status = Some(1);
    r.qbt_seeding_time_limit = Some(-2);
    r.qbt_share_limit_action = Some("Default".to_string());
    r.qbt_stop_condition = Some("None".to_string());
    r.qbt_tags = Some(vec!["tag one".to_string(), "tag-two".to_string()]);
    r.save_path = b"/data/torrents".to_vec();
    r.seed_mode = 0;
    r.seeding_time = 4242;
    r.total_downloaded = 123456789;
    r.total_uploaded = 987654321;
    r.trackers = vec![
        vec!["http://a/x".to_string(), "http://b/y".to_string()],
        vec!["http://a/z".to_string()],
    ];
    r.unfinished = Some(vec![UnfinishedPiece { bitmask: vec![0x0F, 0xF0], piece: 17 }]);
    r.upload_mode = 0;
    r.upload_rate_limit = -1;
    r.url_list = vec!["http://web/seed".to_string()];
    r
}

fn find(hay: &[u8], needle: &[u8]) -> Option<usize> {
    if needle.len() > hay.len() {
        return None;
    }
    for i in 0..=(hay.len() - needle.len()) {
        if &hay[i..i + needle.len()] == needle {
            return Some(i);
        }
    }
    None
}

fn splice(hay: &[u8], old: &[u8], new: &[u8]) -> Vec<u8> {
    let i = find(hay, old).expect("pattern must be present");
    let mut out = hay[..i].to_vec();
    out.extend_from_slice(new);
    out.extend_from_slice(&hay[i + old.len()..]);
    out
}

#[test]
fn golden_minimal_encoding() {
    let expected: &[u8] = b"d11:active_timei0e10:added_timei0e10:allocation0:\
15:apply_ip_filteri0e12:auto_managedi0e14:completed_timei0e11:disable_dhti0e\
11:disable_lsdi0e11:disable_pexi0e19:download_rate_limiti0e11:file-format0:\
12:file-versioni0e13:finished_timei0e9:info-hash0:13:last_downloadi0e\
18:last_seen_completei0e11:last_uploadi0e18:libtorrent-version0:\
15:max_connectionsi0e11:max_uploadsi0e12:num_completei0e14:num_downloadedi0e\
14:num_incompletei0e6:pausedi0e6:pieces0:9:save_path0:9:seed_modei0e\
12:seeding_timei0e19:sequential_downloadi0e10:share_modei0e15:stop_when_readyi0e\
13:super_seedingi0e16:total_downloadedi0e14:total_uploadedi0e8:trackersle\
11:upload_modei0e17:upload_rate_limiti0e8:url-listlee";
    assert_eq!(encode(&base_record()), expected.to_vec());
}

#[test]
fn round_trip_full_record() {
    let rec = sample_record();
    let bytes = encode(&rec);
    let back = decode(&bytes).expect("canonical blob must decode");
    assert_eq!(back, rec);
    let again = encode(&back);
    assert_eq!(again, bytes);
    let back2 = decode(&again).expect("second decode must succeed");
    assert_eq!(back2, rec);
}

#[test]
fn negative_and_large_integers_round_trip() {
    let mut rec = base_record();
    rec.active_time = i64::MIN;
    rec.max_uploads = i64::MAX;
    rec.download_rate_limit = i32::MIN;
    rec.total_uploaded = u64::MAX;
    let bytes = encode(&rec);
    let back = decode(&bytes).expect("extreme integers must decode");
    assert_eq!(back, rec);
    assert_eq!(encode(&back), bytes);
}

#[test]
fn absent_optional_fields_stay_absent() {
    let rec = base_record();
    let bytes = encode(&rec);
    assert!(find(&bytes, b"qBt-savePath").is_none());
    assert!(find(&bytes, b"banned_peers").is_none());
    assert!(find(&bytes, b"unfinished").is_none());
    let back = decode(&bytes).expect("minimal blob must decode");
    assert!(back.qbt_save_path.is_none());
    assert!(back.banned_peers.is_none());
    assert!(back.unfinished.is_none());
    assert_eq!(encode(&back), bytes);
}

#[test]
fn present_empty_differs_from_absent() {
    let mut rec = base_record();
    rec.qbt_category = Some(String::new());
    let bytes = encode(&rec);
    assert!(find(&bytes, b"12:qBt-category0:").is_some());
    let back = decode(&bytes).expect("blob must decode");
    assert_eq!(back.qbt_category, Some(String::new()));
}

#[test]
fn decode_rejects_truncated_input() {
    let bytes = encode(&base_record());
    let cut = &bytes[..bytes.len() - 1];
    assert_eq!(decode(cut), Err(DecodeError::Truncated));
}

#[test]
fn decode_rejects_wrong_frame() {
    let mut bytes = encode(&base_record());
    bytes[0] = b'l';
    assert_eq!(decode(&bytes), Err(DecodeError::Malformed));
}

#[test]
fn decode_rejects_missing_mandatory_field() {
    let bytes = encode(&base_record());
    let cut = splice(&bytes, b"11:active_timei0e", b"");
    assert_eq!(decode(&cut), Err(DecodeError::MissingField));
}

#[test]
fn out_of_order_keys_decode_and_normalize() {
    let bytes = encode(&base_record());
    let swapped = splice(
        &bytes,
        b"11:active_timei0e10:added_timei0e",
        b"10:added_timei0e11:active_timei0e",
    );
    assert_ne!(swapped, bytes);
    let rec = decode(&swapped).expect("reordered keys must decode");
    assert_eq!(rec, base_record());
    // Re-encoding normalizes the ordering back to canonical.
    assert_eq!(encode(&rec), bytes);
}

#[test]
fn reversed_key_order_decodes_to_the_same_record() {
    let rec = sample_record();
    let bytes = encode(&rec);
    // Rebuild the blob with the two halves of its entry list swapped.
    let pieces = b"6:pieces";
    let cut = find(&bytes, pieces).expect("pieces entry present");
    let body_end = bytes.len() - 1;
    let mut shuffled = vec![b'd'];
    shuffled.extend_from_slice(&bytes[cut..body_end]);
    shuffled.extend_from_slice(&bytes[1..cut]);
    shuffled.push(b'e');
    assert_ne!(shuffled, bytes);
    let back = decode(&shuffled).expect("shuffled entries must decode");
    assert_eq!(back, rec);
    assert_eq!(encode(&back), bytes);
}

#[test]
fn decode_rejects_duplicate_keys() {
    let bytes = encode(&base_record());
    let dup = splice(
        &bytes,
        b"11:active_timei0e",
        b"11:active_timei0e11:active_timei0e",
    );
    assert_eq!(decode(&dup), Err(DecodeError::Malformed));
}

#[test]
fn decode_rejects_unknown_key() {
    let bytes = encode(&base_record());
    let mut extended = bytes[..bytes.len() - 1].to_vec();
    extended.extend_from_slice(b"3:zzzi0ee");
    assert_eq!(decode(&extended), Err(DecodeError::Malformed));
}

#[test]
fn decode_rejects_trailing_bytes() {
    let mut bytes = encode(&base_record());
    bytes.push(b'x');
    assert_eq!(decode(&bytes), Err(DecodeError::TrailingData));
}

#[test]
fn decode_rejects_invalid_utf8_in_save_path() {
    let bytes = encode(&base_record());
    let bad = splice(&bytes, b"9:save_path0:", b"9:save_path1:\xff");
    assert_eq!(decode(&bad), Err(DecodeError::InvalidText));
}

#[test]
fn decode_rejects_out_of_range_integer() {
    let bytes = encode(&base_record());
    let bad = splice(&bytes, b"15:apply_ip_filteri0e", b"15:apply_ip_filteri300e");
    assert_eq!(decode(&bad), Err(DecodeError::IntOutOfRange));
}

#[test]
fn decode_rejects_noncanonical_integer() {
    let bytes = encode(&base_record());
    let bad = splice(&bytes, b"11:active_timei0e", b"11:active_timei00e");
    assert_eq!(decode(&bad), Err(DecodeError::Malformed));
    let bad2 = splice(&bytes, b"11:active_timei0e", b"11:active_timei-0e");
    assert_eq!(decode(&bad2), Err(DecodeError::Malformed));
}

#[test]
fn unicode_text_fields_round_trip() {
    let mut rec = base_record();
    rec.qbt_name = Some("n\u{00e4}me \u{1F600}".to_string());
    rec.save_path = "/p\u{00e4}th/\u{4e2d}\u{6587}".as_bytes().to_vec();
    let bytes = encode(&rec);
    let back = decode(&bytes).expect("unicode text must decode");
    assert_eq!(back, rec);
    assert_eq!(encode(&back), bytes);
}
