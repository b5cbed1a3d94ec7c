use photo_organizer::db::{
    active_semantic_model_sql, as_i64, effective_scalar_expression, escape_like, library_name,
    path_depth, placeholders, sql_literal, Repository,
};
use photo_organizer::imaging::{normalize_exif_datetime, thumbnail_name_for_key, thumbnail_path_for_key};
use photo_organizer::ipc::{data_url, data_url_for, jpeg_data_url, mime_for_extension, mime_for_path};
use photo_organizer::models::{ExistingAssetSnapshot, FileSnapshot, ScanPerformance, ScanProgress};
use photo_organizer::scanner::{
    add_performance, add_summary_to_progress, aggregate_scope_progress, fallback_fingerprint,
    fallback_snapshot, file_snapshot, fingerprint_bytes, import_root_order, is_pruned_source_root,
    is_same_or_descendant, is_supported_extension_of, is_supported_image, is_unchanged, ContentHasher,
    snapshot_from_parts,
    saturate_micros, summary_from_progress,
};

#[test]
fn supported_images_are_recognized_by_extension() {
    assert!(is_supported_image("/photos/中文 路径/红色.JPG"));
    assert!(is_supported_image("C:\\photos\\green.WebP"));
    assert!(is_supported_image("a/b.jpeg"));
    assert!(!is_supported_image("a/notes.txt"));
    assert!(!is_supported_image("a/.png"));
    assert!(!is_supported_image("a.png/readme"));
    assert!(is_supported_image("x/a.jpg/"));
    assert!(is_supported_image("photo.JPEG"));
    assert!(!is_supported_image("photo"));
    assert!(!is_supported_image("a.jpg.bak"));
}

#[test]
fn supported_extension_answers_decide_support() {
    assert!(is_supported_extension_of(&Some("PnG".to_owned())));
    assert!(is_supported_extension_of(&Some("webp".to_owned())));
    assert!(!is_supported_extension_of(&Some("gif".to_owned())));
    assert!(!is_supported_extension_of(&Some(String::new())));
    assert!(!is_supported_extension_of(&None));
}

#[test]
fn snapshot_parts_fill_the_snapshot() {
    let snapshot = snapshot_from_parts(
        "/r/sub/Photo.JPG",
        Some("sub/Photo.JPG".to_owned()),
        Some("Photo.JPG".to_owned()),
        Some("JPG".to_owned()),
        7,
        9,
    );
    assert_eq!(snapshot.absolute_path, "/r/sub/Photo.JPG");
    assert_eq!(snapshot.relative_path, "sub/Photo.JPG");
    assert_eq!(snapshot.file_name, "Photo.JPG");
    assert_eq!(snapshot.extension, "jpg");
    assert_eq!(snapshot.file_size, 7);
    assert_eq!(snapshot.modified_at, 9);
    let outside = snapshot_from_parts("/elsewhere/x", None, None, None, 0, 0);
    assert_eq!(outside.relative_path, "/elsewhere/x");
    assert_eq!(outside.file_name, "");
    assert_eq!(outside.extension, "");
}

#[test]
fn preview_mime_follows_the_extension() {
    assert_eq!(mime_for_path("a/b.PNG"), "data:image/png;base64,");
    assert_eq!(mime_for_path("a/b.webp"), "data:image/webp;base64,");
    assert_eq!(mime_for_path("a/b.jpg"), "data:image/jpeg;base64,");
    assert_eq!(mime_for_path("a/b"), "data:image/jpeg;base64,");
    assert_eq!(mime_for_extension(&Some("WEBP".to_owned())), "data:image/webp;base64,");
    assert_eq!(mime_for_extension(&None), "data:image/jpeg;base64,");
}

fn progress(discovered: u64, status: &str) -> ScanProgress {
    let mut value = ScanProgress::starting("task");
    value.discovered = discovered;
    value.processed = discovered;
    value.status = status.to_owned();
    value.performance.decode_us = discovered * 10;
    value
}

#[test]
fn scope_progress_adds_up_like_the_finished_summary() {
    let base = progress(5, "running");
    let mut local = progress(3, "running");
    local.stage = "processing".to_owned();
    local.current_path = Some("x.jpg".to_owned());
    let running = aggregate_scope_progress(&base, &local);
    assert_eq!(running.discovered, 8);
    assert_eq!(running.performance.decode_us, 80);
    assert_eq!(running.stage, "processing");
    assert_eq!(running.status, "running");
    assert_eq!(running.current_path, Some("x.jpg".to_owned()));
    let summary = summary_from_progress(&local, 7);
    assert_eq!(summary.library_id, 7);
    let mut finished = base.clone();
    add_summary_to_progress(&mut finished, &summary);
    assert_eq!(finished.discovered, running.discovered);
    assert_eq!(finished.processed, running.processed);
    assert_eq!(finished.performance, running.performance);
    assert_eq!(finished.stage, "preparing");
    let cancelled = aggregate_scope_progress(&base, &progress(1, "cancelled"));
    assert_eq!(cancelled.status, "cancelled");
}

#[test]
fn performance_counters_saturate() {
    let mut total = ScanPerformance {
        fingerprint_us: u64::MAX - 1,
        ..ScanPerformance::default()
    };
    let value = ScanPerformance {
        fingerprint_us: 5,
        exif_us: 2,
        ..ScanPerformance::default()
    };
    add_performance(&mut total, &value);
    assert_eq!(total.fingerprint_us, u64::MAX);
    assert_eq!(total.exif_us, 2);
}

#[test]
fn unreadable_files_get_an_empty_snapshot() {
    let snapshot = fallback_snapshot("/root", "/root/sub/Photo.JPG");
    assert_eq!(snapshot.absolute_path, "/root/sub/Photo.JPG");
    assert_eq!(snapshot.relative_path, "sub/Photo.JPG");
    assert_eq!(snapshot.file_name, "Photo.JPG");
    assert_eq!(snapshot.extension, "jpg");
    assert_eq!(snapshot.file_size, 0);
    assert_eq!(snapshot.modified_at, 0);
}

#[test]
fn sql_pieces_are_quoted_and_escaped() {
    assert_eq!(sql_literal("it's"), "'it''s'");
    assert_eq!(placeholders(0), "");
    assert_eq!(placeholders(3), "?,?,?");
    assert_eq!(escape_like("50%_a\\b"), "50\\%\\_a\\\\b");
    assert_eq!(
        active_semantic_model_sql("name", "siglip"),
        "COALESCE((SELECT name FROM semantic_models WHERE is_active=1 ORDER BY id DESC LIMIT 1), 'siglip')"
    );
    let expression = effective_scalar_expression("tone", "tf.tone_label");
    assert!(expression.starts_with("COALESCE((SELECT json_extract(mco.value_json, '$')"));
    assert!(expression.ends_with("mco.field='tone'), tf.tone_label)"));
    assert_eq!(as_i64(u64::MAX), i64::MAX);
    assert_eq!(as_i64(42), 42);
    assert_eq!(path_depth("/a//b/c/"), 3);
    assert_eq!(path_depth(""), 0);
}

#[test]
fn repositories_keep_their_database_path() {
    let repository = Repository::new("/data/photo-organizer.sqlite3");
    assert_eq!(repository.database_path(), "/data/photo-organizer.sqlite3");
}

#[test]
fn library_names_fall_back_in_order() {
    assert_eq!(library_name("/photos/Travel", "/other"), "Travel");
    assert_eq!(library_name("/", "/fallback/Name"), "Name");
    assert_eq!(library_name("/", "/"), "图库");
}

#[test]
fn exif_date_times_become_iso() {
    assert_eq!(
        normalize_exif_datetime("2026:08:05 18:30:09".to_owned()),
        "2026-08-05T18:30:09"
    );
    assert_eq!(normalize_exif_datetime("2026:08".to_owned()), "2026:08");
    assert_eq!(
        normalize_exif_datetime("2026-08-05 18:30:09".to_owned()),
        "2026-08-05T18:30:09"
    );
    assert_eq!(
        normalize_exif_datetime("é026:08:05 18:30:09".to_owned()),
        "é026:08:05 18:30:09"
    );
    assert_eq!(
        normalize_exif_datetime("é26:08:05 18:30:09".to_owned()),
        "é26-08-05T18:30:09"
    );
}

#[test]
fn thumbnails_are_named_by_key_and_spec() {
    assert_eq!(thumbnail_name_for_key("abc"), "abc-grid-320-v1.jpg");
    assert_eq!(
        thumbnail_path_for_key("/cache/thumbs", "abc"),
        "/cache/thumbs/abc-grid-320-v1.jpg"
    );
}

#[test]
fn snapshots_clamp_sizes_and_times() {
    let snapshot = file_snapshot("/root", "/root/a.PNG", u64::MAX, Some(u128::MAX));
    assert_eq!(snapshot.file_size, i64::MAX);
    assert_eq!(snapshot.modified_at, i64::MAX);
    assert_eq!(snapshot.extension, "png");
    let snapshot = file_snapshot("/root", "/root/a.png", 12, None);
    assert_eq!(snapshot.file_size, 12);
    assert_eq!(snapshot.modified_at, 0);
    assert_eq!(saturate_micros(u128::MAX), u64::MAX);
    assert_eq!(saturate_micros(7), 7);
}

#[test]
fn fingerprints_digest_bytes_or_the_unreadable_snapshot() {
    assert_eq!(
        fingerprint_bytes(&b"abc".to_vec()),
        blake3::hash(b"abc").to_hex().to_string()
    );
    let snapshot = file_snapshot("/r", "/r/x.jpg", 5, Some(9));
    assert_eq!(
        fallback_fingerprint(&snapshot),
        blake3::hash(b"unreadable\0/r/x.jpg\05\09").to_hex().to_string()
    );
}

#[test]
fn import_roots_come_once_each_shallow_first() {
    let keys: Vec<String> = ["/a/b", "/a", "/a/b", "/c", "/a/a/x", "/b"]
        .iter()
        .map(|key| key.to_string())
        .collect();
    assert_eq!(import_root_order(&keys), vec!["/a", "/b", "/c", "/a/b", "/a/a/x"]);
    assert!(import_root_order(&Vec::new()).is_empty());
}

#[test]
fn unchanged_files_need_the_same_size_time_analysis_and_a_ready_thumbnail() {
    let existing = ExistingAssetSnapshot {
        id: 1,
        file_size: 10,
        modified_at: 20,
        analysis_status: "completed".to_owned(),
        analysis_algorithm_version: Some("basic-color-v2".to_owned()),
        thumbnail_status: Some("ready".to_owned()),
        cache_path: Some("/cache/a.webp".to_owned()),
    };
    let snapshot = FileSnapshot {
        absolute_path: "/r/a.jpg".to_owned(),
        relative_path: "a.jpg".to_owned(),
        file_name: "a.jpg".to_owned(),
        extension: "jpg".to_owned(),
        file_size: 10,
        modified_at: 20,
    };
    assert!(is_unchanged(&existing, &snapshot, true));
    assert!(!is_unchanged(&existing, &snapshot, false));
    let older = ExistingAssetSnapshot { analysis_algorithm_version: Some("basic-color-v1".to_owned()), ..existing.clone() };
    assert!(!is_unchanged(&older, &snapshot, true));
    let resized = FileSnapshot { file_size: 11, ..snapshot.clone() };
    assert!(!is_unchanged(&existing, &resized, true));
    let pending = ExistingAssetSnapshot { thumbnail_status: Some("pending".to_owned()), ..existing };
    assert!(!is_unchanged(&pending, &snapshot, true));
}

#[test]
fn nested_source_roots_are_pruned_with_everything_below() {
    assert!(is_same_or_descendant("/a/b", "/a/b"));
    assert!(is_same_or_descendant("/a/b", "/a/b/c"));
    assert!(!is_same_or_descendant("/a/b", "/a/bc"));
    assert!(!is_same_or_descendant("/a/b", "/a"));
    let descendants = vec!["/lib/child".to_owned(), "/lib/other".to_owned()];
    assert!(is_pruned_source_root("/lib/child/x.jpg", &descendants));
    assert!(is_pruned_source_root("/lib/other", &descendants));
    assert!(!is_pruned_source_root("/lib/children", &descendants));
    assert!(!is_pruned_source_root("/lib", &descendants));
}

#[test]
fn content_hashed_in_blocks_matches_the_whole_fingerprint() {
    let bytes: Vec<u8> = (0..200_000u32).map(|i| (i % 251) as u8).collect();
    let mut hasher = ContentHasher::new();
    for block in bytes.chunks(65_536) {
        hasher.update(block);
    }
    let digest = hasher.finalize_hex();
    assert_eq!(digest, fingerprint_bytes(&bytes));
    assert_eq!(digest.len(), 64);
    assert_eq!(
        ContentHasher::new().finalize_hex(),
        "af1349b9f5f9a1a6a0404dea36dcc9499bcb25c9adc112b7cc9a93cae41f3262"
    );
}

#[test]
fn data_urls_name_the_type_and_carry_base64() {
    assert_eq!(data_url("a/b/photo.PNG", b"hi"), "data:image/png;base64,aGk=");
    assert_eq!(data_url("a/photo.webp", b"abc"), "data:image/webp;base64,YWJj");
    assert_eq!(data_url("a/photo", b""), "data:image/jpeg;base64,");
    assert_eq!(data_url_for(&Some("WebP".to_owned()), b"a"), "data:image/webp;base64,YQ==");
    assert_eq!(jpeg_data_url(b"hello"), "data:image/jpeg;base64,aGVsbG8=");
}

#[test]
fn full_paths_are_judged_by_their_last_component() {
    assert!(is_supported_image("/photos/2026/summer.Jpeg"));
    assert!(is_supported_image("photos//summer.png/."));
    assert!(!is_supported_image("photos.jpg/notes"));
    assert!(!is_supported_image("photos/.webp"));
    assert!(!is_supported_image("photos/a.jpg/.."));
}
