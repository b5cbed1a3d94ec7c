use photo_organizer::asset_filter::{
    asset_filter_sql, asset_query_scope_sql, AssetFilterShape, BindSlot, ModelVersions, QueryRoot,
};
use photo_organizer::models::SemanticMatchMode;

fn query(root: QueryRoot) -> AssetFilterShape {
    AssetFilterShape {
        root,
        include_descendants: false,
        favorite_only: false,
        collection_id: None,
        search: None,
        primary_categories: Vec::new(),
        auxiliary_tags: Vec::new(),
        semantic_match: SemanticMatchMode::Any,
        tone_labels: Vec::new(),
        color_categories: Vec::new(),
        hue_bins: Vec::new(),
        ratings: Vec::new(),
        color_labels: Vec::new(),
        saturation_levels: Vec::new(),
        brightness_min: false,
        brightness_max: false,
        saturation_min: false,
        saturation_max: false,
        captured_from: None,
        captured_to: None,
        analysis_status: None,
    }
}

fn models() -> ModelVersions {
    ModelVersions {
        semantic_name: "scene-model".to_owned(),
        semantic_version: "v2".to_owned(),
        semantic_analysis_version: "a3".to_owned(),
        subject_name: "subject-model".to_owned(),
        subject_version: "s1".to_owned(),
        subject_analysis_version: "sa1".to_owned(),
        subject_taxonomy_version: "st1".to_owned(),
    }
}

fn text(value: &str) -> BindSlot {
    BindSlot::Text(value.to_owned())
}

#[test]
fn an_empty_filter_selects_everything() {
    let (sql, slots) = asset_filter_sql(&query(QueryRoot::All), &models());
    assert_eq!(sql, "1=1");
    assert!(slots.is_empty());
    let (sql, slots) = asset_query_scope_sql(&query(QueryRoot::Favorites));
    assert!(sql.contains("favorite_collection.system_key='default_favorites'"));
    assert!(slots.is_empty());
}

#[test]
fn simple_filters_join_with_and_in_order() {
    let mut q = query(QueryRoot::Source(5));
    q.search = Some("  a_b%  ".to_owned());
    q.ratings = vec![2, 4, 3];
    q.captured_from = Some("2026-01-01".to_owned());
    q.captured_to = Some("2026-01-02".to_owned());
    q.analysis_status = Some("failed".to_owned());
    q.color_labels = vec!["red".to_owned(), "blue".to_owned()];
    let (sql, slots) = asset_filter_sql(&q, &models());
    assert_eq!(
        sql,
        "a.library_id=? AND (a.file_name LIKE ? ESCAPE '\\' OR a.relative_path LIKE ? ESCAPE '\\') \
         AND a.rating >= ? AND a.color_label IN (?,?) AND a.capture_time>=? AND a.capture_time<=? \
         AND a.semantic_status='failed'"
    );
    assert_eq!(
        slots,
        vec![
            BindSlot::Integer(5),
            text("%a\\_b\\%%"),
            text("%a\\_b\\%%"),
            BindSlot::Integer(4),
            text("red"),
            text("blue"),
            text("2026-01-01"),
            text("2026-01-02T23:59:59.999"),
        ]
    );
    let placeholders = sql.matches('?').count();
    assert_eq!(placeholders, slots.len());
}

#[test]
fn a_full_timestamp_bound_is_kept_and_blank_search_is_ignored() {
    let mut q = query(QueryRoot::Collection(9));
    q.include_descendants = true;
    q.search = Some("   ".to_owned());
    q.captured_to = Some("2026-01-02T10:00:00".to_owned());
    q.analysis_status = Some("unknown".to_owned());
    let (sql, slots) = asset_filter_sql(&q, &models());
    assert!(sql.starts_with("EXISTS(\n"));
    assert!(sql.contains("WITH RECURSIVE collection_scope"));
    assert!(sql.ends_with(" AND a.capture_time<=?"));
    assert_eq!(slots, vec![BindSlot::Integer(9), text("2026-01-02T10:00:00")]);
}

#[test]
fn tags_bind_each_tag_four_times_and_follow_the_match_mode() {
    let mut q = query(QueryRoot::All);
    q.auxiliary_tags = vec!["cat".to_owned(), "dog".to_owned()];
    q.semantic_match = SemanticMatchMode::All;
    let (sql, slots) = asset_filter_sql(&q, &models());
    assert!(sql.starts_with("1=1 AND ((EXISTS(SELECT 1 FROM manual_tag_overrides add_tag"));
    assert!(sql.contains("))) AND (EXISTS(SELECT 1 FROM manual_tag_overrides add_tag"));
    assert!(sql.contains("subject.model_name='subject-model'"));
    assert!(sql.contains(
        "COALESCE((SELECT name FROM semantic_models WHERE is_active=1 ORDER BY id DESC LIMIT 1), 'scene-model')"
    ));
    assert_eq!(
        slots,
        vec![
            text("cat"),
            text("cat"),
            text("cat"),
            text("cat"),
            text("dog"),
            text("dog"),
            text("dog"),
            text("dog"),
        ]
    );
    assert_eq!(sql.matches('?').count(), slots.len());
}

#[test]
fn colour_and_numeric_filters_name_their_real_slots() {
    let mut q = query(QueryRoot::All);
    q.color_categories = vec!["red".to_owned()];
    q.hue_bins = vec![0, 11];
    q.brightness_min = true;
    q.saturation_max = true;
    q.primary_categories = vec!["photo_food".to_owned()];
    q.tone_labels = vec!["bright".to_owned()];
    let (sql, slots) = asset_filter_sql(&q, &models());
    assert!(sql.contains("CAST(selected_hue.key AS INTEGER) IN (?,?)"));
    assert!(sql.contains("mco.field='dominant_color_category'"));
    assert!(sql.contains("WHERE mco.asset_id=a.id AND mco.field='tone'), tf.tone_label) IN (?)"));
    assert!(sql.ends_with(" AND tf.brightness_mean>=? AND cf.saturation_mean<=?"));
    assert_eq!(
        slots,
        vec![
            text("photo_food"),
            text("bright"),
            text("red"),
            BindSlot::MinColorArea,
            BindSlot::HueBin(0),
            BindSlot::HueBin(11),
            BindSlot::HueThreshold,
            BindSlot::BrightnessMin,
            BindSlot::SaturationMax,
        ]
    );
    assert_eq!(sql.matches('?').count(), slots.len());
}

#[test]
fn user_values_change_only_the_bindings() {
    let mut a = query(QueryRoot::Source(1));
    a.search = Some("cat".to_owned());
    a.auxiliary_tags = vec!["x".to_owned()];
    a.captured_from = Some("2026-01-01".to_owned());
    let mut b = query(QueryRoot::Source(2));
    b.search = Some("' OR 1=1 --".to_owned());
    b.auxiliary_tags = vec!["y'); DROP TABLE assets; --".to_owned()];
    b.captured_from = Some("1999".to_owned());
    let (sql_a, slots_a) = asset_filter_sql(&a, &models());
    let (sql_b, slots_b) = asset_filter_sql(&b, &models());
    assert_eq!(sql_a, sql_b);
    assert_ne!(slots_a, slots_b);
    assert!(!sql_b.contains("DROP"));
}
