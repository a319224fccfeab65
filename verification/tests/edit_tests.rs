use qbfrt::adapters::{join_tags, merge_row, split_tags};
use qbfrt::codec::{decode, encode};
use qbfrt::gate::plan_update;
use qbfrt::record::Fastresume;
use qbfrt::rewrite::{contains_bytes, replace_bytes};
use qbfrt::rows::DatabaseData;
use qbfrt::save_path::{apply_save_path, SavePath};
use qbfrt::tracker_url::{apply_tracker_url, TrackerUrl};

fn plain_record() -> Fastresume {
    Fastresume {
        active_time: 0,
        added_time: 0,
        allocation: Vec::new(),
        apply_ip_filter: 0,
        auto_managed: 0,
        banned_peers: None,
        banned_peers6: None,
        completed_time: 0,
        disable_dht: 0,
        disable_lsd: 0,
        disable_pex: 0,
        download_rate_limit: 0,
        file_format: Vec::new(),
        file_version: 0,
        file_priority: None,
        finished_time: 0,
        httpseeds: None,
        i2p: None,
        info_hash: Vec::new(),
        info_hash2: None,
        last_download: 0,
        last_seen_complete: 0,
        last_upload: 0,
        libtorrent_version: Vec::new(),
        max_connections: 0,
        max_uploads: 0,
        name: None,
        num_complete: 0,
        num_downloaded: 0,
        num_incomplete: 0,
        paused: 0,
        peers: None,
        peers6: None,
        piece_priority: None,
        pieces: Vec::new(),
        qbt_category: None,
        qbt_content_layout: None,
        qbt_download_path: None,
        qbt_first_last_piece_priority: None,
        qbt_inactive_seeding_time_limit: None,
        qbt_name: None,
        qbt_ratio_limit: None,
        qbt_save_path: None,
        qbt_seed_status: None,
        qbt_seeding_time_limit: None,
        qbt_share_limit_action: None,
        qbt_stop_condition: None,
        qbt_tags: None,
        save_path: Vec::new(),
        seed_mode: 0,
        seeding_time: 0,
        sequential_download: 0,
        share_mode: 0,
        stop_when_ready: 0,
        super_seeding: 0,
        total_downloaded: 0,
        total_uploaded: 0,
        trackers: Vec::new(),
        unfinished: None,
        upload_mode: 0,
        upload_rate_limit: 0,
        url_list: Vec::new(),
    }
}

fn windows_to_linux_edit() -> SavePath {
    SavePath {
        old_unix: "/Data/Torrents".to_string(),
        new_unix: "/NewDrive/Torrents".to_string(),
        old: "C:\\Data\\Torrents".to_string(),
        new: "D:\\NewDrive\\Torrents".to_string(),
        separator: "\\".to_string(),
    }
}

#[test]
fn save_path_edit_updates_both_representations() {
    let mut rec = plain_record();
    rec.save_path = b"C:\\Data\\Torrents\\X".to_vec();
    let column = Some("/Data/Torrents/X".to_string());
    let edit = windows_to_linux_edit();
    let (newcol, changed) = apply_save_path(&mut rec, column, &edit);
    assert!(changed);
    assert_eq!(rec.save_path, b"D:\\NewDrive\\Torrents\\X".to_vec());
    assert_eq!(newcol, Some("/NewDrive/Torrents/X".to_string()));
}

#[test]
fn save_path_edit_converts_separators() {
    let mut rec = plain_record();
    rec.save_path = b"C:\\Data\\Torrents\\X".to_vec();
    let edit = SavePath {
        old_unix: "/Data/Torrents".to_string(),
        new_unix: "/mnt/torrents".to_string(),
        old: "C:\\Data\\Torrents".to_string(),
        new: "/mnt/torrents".to_string(),
        separator: "/".to_string(),
    };
    let (_, changed) = apply_save_path(&mut rec, None, &edit);
    assert!(changed);
    assert_eq!(rec.save_path, b"/mnt/torrents/X".to_vec());
}

#[test]
fn save_path_edit_without_match_touches_nothing() {
    let mut rec = plain_record();
    rec.save_path = b"/somewhere/else".to_vec();
    let column = Some("/Data/Torrents/X".to_string());
    let edit = windows_to_linux_edit();
    let (newcol, changed) = apply_save_path(&mut rec, column, &edit);
    assert!(!changed);
    assert_eq!(rec.save_path, b"/somewhere/else".to_vec());
    assert_eq!(newcol, Some("/Data/Torrents/X".to_string()));
}

#[test]
fn save_path_edit_is_idempotent() {
    let mut rec = plain_record();
    rec.save_path = b"C:\\Data\\Torrents\\X".to_vec();
    let edit = windows_to_linux_edit();
    let (col1, ch1) = apply_save_path(&mut rec, Some("/Data/Torrents/X".to_string()), &edit);
    assert!(ch1);
    let after_once = rec.save_path.clone();
    let (col2, ch2) = apply_save_path(&mut rec, col1.clone(), &edit);
    assert!(!ch2);
    assert_eq!(rec.save_path, after_once);
    assert_eq!(col2, col1);
}

#[test]
fn dual_representations_agree_after_edit() {
    // Both copies start as the same path in their separator styles.
    let mut rec = plain_record();
    rec.save_path = b"\\Data\\X".to_vec();
    let edit = SavePath {
        old_unix: "/Data".to_string(),
        new_unix: "/New".to_string(),
        old: "\\Data".to_string(),
        new: "\\New".to_string(),
        separator: "\\".to_string(),
    };
    let (newcol, changed) = apply_save_path(&mut rec, Some("/Data/X".to_string()), &edit);
    assert!(changed);
    let normalized: Vec<u8> = replace_bytes(&rec.save_path, b"\\", b"/");
    assert_eq!(String::from_utf8(normalized).unwrap(), newcol.unwrap());
}

#[test]
fn tracker_edit_rewrites_every_tier() {
    let mut rec = plain_record();
    rec.trackers = vec![
        vec!["http://a/x".to_string(), "http://b/y".to_string()],
        vec!["http://a/z".to_string()],
    ];
    let edit = TrackerUrl { old: "http://a".to_string(), new: "https://a".to_string() };
    let changed = apply_tracker_url(&mut rec, &edit);
    assert!(changed);
    assert_eq!(
        rec.trackers,
        vec![
            vec!["https://a/x".to_string(), "http://b/y".to_string()],
            vec!["https://a/z".to_string()],
        ]
    );
}

#[test]
fn tracker_edit_without_match_reports_unchanged() {
    let mut rec = plain_record();
    rec.trackers = vec![vec!["http://b/y".to_string()]];
    let edit = TrackerUrl { old: "http://a".to_string(), new: "https://a".to_string() };
    let changed = apply_tracker_url(&mut rec, &edit);
    assert!(!changed);
    assert_eq!(rec.trackers, vec![vec!["http://b/y".to_string()]]);
}

#[test]
fn tracker_edit_is_idempotent() {
    let mut rec = plain_record();
    rec.trackers = vec![vec!["http://a/x".to_string()]];
    let edit = TrackerUrl { old: "http://a".to_string(), new: "https://a".to_string() };
    assert!(apply_tracker_url(&mut rec, &edit));
    let once = rec.trackers.clone();
    assert!(!apply_tracker_url(&mut rec, &edit));
    assert_eq!(rec.trackers, once);
}

#[test]
fn replacement_can_recreate_pattern_across_boundaries() {
    // Removing `ab` from `aabb` leaves `ab`: such an edit re-creates its own
    // target and a second application is not a no-op.
    let once = replace_bytes(b"aabb", b"ab", b"");
    assert_eq!(once, b"ab".to_vec());
    assert!(contains_bytes(&once, b"ab"));
    let twice = replace_bytes(&once, b"ab", b"");
    assert_ne!(twice, once);
}

#[test]
fn both_edits_apply_in_one_pass() {
    let mut rec = plain_record();
    rec.save_path = b"C:\\Data\\Torrents\\X".to_vec();
    rec.trackers = vec![vec!["http://a/x".to_string()]];
    let blob = encode(&rec);
    let path_edit = windows_to_linux_edit();
    let tracker_edit = TrackerUrl { old: "http://a".to_string(), new: "https://a".to_string() };
    let decoded = decode(&blob).expect("decodable blob");
    let out = plan_update(
        decoded,
        Some("/Data/Torrents/X".to_string()),
        Some(&path_edit),
        Some(&tracker_edit),
    );
    let update = out.expect("both edits apply");
    assert_eq!(update.target_save_path, Some("/NewDrive/Torrents/X".to_string()));
    let back = decode(&update.resume_data).expect("updated blob must decode");
    assert_eq!(back.save_path, b"D:\\NewDrive\\Torrents\\X".to_vec());
    assert_eq!(back.trackers, vec![vec!["https://a/x".to_string()]]);
}

#[test]
fn null_column_stays_null() {
    let mut rec = plain_record();
    rec.save_path = b"C:\\Data\\Torrents\\X".to_vec();
    let blob = encode(&rec);
    let edit = windows_to_linux_edit();
    let decoded = decode(&blob).expect("decodable blob");
    let out = plan_update(decoded, None, Some(&edit), None);
    let update = out.expect("edit applies");
    assert_eq!(update.target_save_path, None);
    let back = decode(&update.resume_data).expect("updated blob must decode");
    assert_eq!(back.save_path, b"D:\\NewDrive\\Torrents\\X".to_vec());
}

#[test]
fn malformed_blob_is_skipped_before_any_edit() {
    assert!(decode(b"not a blob").is_err());
}

#[test]
fn exactly_matching_records_are_persisted() {
    // Ten records; the old substring appears in exactly three.
    let edit = SavePath {
        old_unix: "/old/path".to_string(),
        new_unix: "/new/path".to_string(),
        old: "/old/path".to_string(),
        new: "/new/path".to_string(),
        separator: "/".to_string(),
    };
    let mut persisted = 0;
    let mut untouched = 0;
    for i in 0..10 {
        let mut rec = plain_record();
        rec.save_path = if i % 3 == 0 && i < 9 {
            format!("/old/path/t{}", i).into_bytes()
        } else {
            format!("/elsewhere/t{}", i).into_bytes()
        };
        let blob = encode(&rec);
        let decoded = decode(&blob).expect("decodable blob");
        match plan_update(decoded, None, Some(&edit), None) {
            Some(_) => persisted += 1,
            None => untouched += 1,
        }
    }
    assert_eq!(persisted, 3);
    assert_eq!(untouched, 7);
}

#[test]
fn split_tags_splits_on_commas() {
    let tags = split_tags("a,b,c");
    assert_eq!(tags, vec!["a".to_string(), "b".to_string(), "c".to_string()]);
    assert_eq!(split_tags(""), vec![String::new()]);
    assert_eq!(split_tags("one"), vec!["one".to_string()]);
    assert_eq!(split_tags("x,,y"), vec!["x".to_string(), String::new(), "y".to_string()]);
}

#[test]
fn join_tags_inverts_split() {
    let s = "alpha,beta gamma,\u{00e9}";
    assert_eq!(join_tags(&split_tags(s)), s.to_string());
    assert_eq!(join_tags(&Vec::new()), String::new());
}

#[test]
fn merge_row_copies_columns_into_record() {
    let row = DatabaseData {
        id: 1,
        torrent_id: "abc123".to_string(),
        queue_position: 0,
        name: Some("renamed".to_string()),
        category: Some("movies".to_string()),
        tags: Some("a,b".to_string()),
        target_save_path: Some("/data/x".to_string()),
        download_path: None,
        content_layout: "Original".to_string(),
        ratio_limit: -2000,
        seeding_time_limit: -2,
        inactive_seeding_time_limit: -2,
        share_limit_action: None,
        has_outer_pieces_priority: 1,
        has_seed_status: 1,
        operating_mode: "AutoManaged".to_string(),
        stopped: 0,
        stop_condition: "None".to_string(),
        libtorrent_resume_data: Vec::new(),
        metadata: Vec::new(),
    };
    let mut rec = plain_record();
    merge_row(&mut rec, &row);
    assert_eq!(rec.qbt_category, Some("movies".to_string()));
    assert_eq!(rec.qbt_content_layout, Some("Original".to_string()));
    assert_eq!(rec.qbt_first_last_piece_priority, Some(1));
    assert_eq!(rec.qbt_name, Some("renamed".to_string()));
    assert_eq!(rec.qbt_ratio_limit, Some(-2000));
    assert_eq!(rec.qbt_save_path, Some("/data/x".to_string()));
    assert_eq!(rec.qbt_download_path, Some(String::new()));
    assert_eq!(rec.qbt_share_limit_action, Some(String::new()));
    assert_eq!(rec.qbt_stop_condition, Some("None".to_string()));
    assert_eq!(rec.qbt_tags, Some(vec!["a".to_string(), "b".to_string()]));
    // The merged record still encodes and decodes cleanly.
    let bytes = encode(&rec);
    assert_eq!(decode(&bytes).expect("merged record must decode"), rec);
}

#[test]
fn merge_row_keeps_paths_for_auto_managed_rows() {
    let row = DatabaseData {
        id: 2,
        torrent_id: "def456".to_string(),
        queue_position: 0,
        name: None,
        category: None,
        tags: None,
        target_save_path: None,
        download_path: None,
        content_layout: "Original".to_string(),
        ratio_limit: 0,
        seeding_time_limit: 0,
        inactive_seeding_time_limit: 0,
        share_limit_action: None,
        has_outer_pieces_priority: 0,
        has_seed_status: 0,
        operating_mode: "AutoManaged".to_string(),
        stopped: 0,
        stop_condition: "None".to_string(),
        libtorrent_resume_data: Vec::new(),
        metadata: Vec::new(),
    };
    let mut rec = plain_record();
    merge_row(&mut rec, &row);
    assert_eq!(rec.qbt_save_path, None);
    assert_eq!(rec.qbt_download_path, None);
    assert_eq!(rec.qbt_tags, Some(Vec::new()));
}
