use photo_organizer::conflicts::{apply_conflicts, decide_conflict, ConflictDecision, DraftItem};
use photo_organizer::error::AppError;
use photo_organizer::manifest::{
    check_manifest_target, csv_cell, manifest_csv, manifest_format, manifest_target_outcome,
    ManifestFormat,
};
use photo_organizer::models::{
    OrganizationConflictStrategy, OrganizationIssue, OrganizationIssueSeverity,
    OrganizationItemStatus, OrganizationLevel, OrganizationLevelKind, OrganizationMissingFallback,
    OrganizationPlanItem, OrganizationPlanRequest, OrganizationRules, OrganizationScope,
    OrganizationTreeNode, PlanAsset,
};
use photo_organizer::organization::{
    check_relative_target, csv_field, format_sequence, has_invalid_windows_segment,
    insert_tree_item, is_reserved_name, normalize_for_compare, parse_template, short_hash,
    status_for_issues, validate_rules, validate_target_boundary, TemplateToken,
};
use photo_organizer::plan::{build_plan, sort_assets};
use photo_organizer::render::{
    format_capture_time, parse_capture_time, render_template, replace_text, CaptureTime,
    RenderContext,
};

fn asset(id: i64, root: &str, name: &str, capture_time: Option<&str>) -> PlanAsset {
    PlanAsset {
        id,
        absolute_path: format!("{root}/{name}"),
        relative_path: name.to_owned(),
        file_name: name.to_owned(),
        extension: "jpg".to_owned(),
        file_size: format!("fixture-{id}").len() as i64,
        modified_at: 1_754_500_000,
        capture_time: capture_time.map(str::to_string),
        camera_make: None,
        camera_model: None,
        lens_model: None,
        file_status: "present".to_owned(),
        tone_label: Some("balanced".to_owned()),
        saturation_label: Some("medium".to_owned()),
        dominant_color_category: Some("blue".to_owned()),
        primary_category: None,
    }
}

fn request(target_root: &str, rules: OrganizationRules) -> OrganizationPlanRequest {
    OrganizationPlanRequest {
        library_id: 1,
        target_root: target_root.to_owned(),
        scope: OrganizationScope::All,
        selected_asset_ids: Vec::new(),
        rules,
    }
}

fn missing_root(name: &str) -> String {
    format!("/nonexistent-photo-organizer-fixture/{name}")
}

#[test]
fn modification_time_fallback_is_only_valid_for_date_dimensions() {
    let rules = OrganizationRules {
        levels: vec![OrganizationLevel {
            kind: OrganizationLevelKind::PrimarySemantic,
            fallback: OrganizationMissingFallback::ModificationTime,
        }],
        ..OrganizationRules::default()
    };
    let issues = validate_rules(&rules);
    assert!(issues.iter().any(|issue| {
        issue.code == "invalid_level_fallback" && issue.detail.contains("仅适用于拍摄年份、月份或日期")
    }));
}

#[test]
fn comparison_normalizes_case_and_canonical_unicode() {
    assert_eq!(
        normalize_for_compare("Cafe\u{301}"),
        normalize_for_compare("Café")
    );
    assert_eq!(
        normalize_for_compare("照片\\A.JPG"),
        normalize_for_compare("照片/a.jpg")
    );
}

#[test]
fn target_inside_source_is_rejected_without_creating_it() {
    let source = missing_root("图库");
    let target = format!("{source}/整理结果");
    let result = build_plan(
        &request(&target, OrganizationRules::default()),
        &source,
        Vec::new(),
    );
    assert!(matches!(result, Err(AppError::UnsafePath(_))));
    assert!(!std::path::Path::new(&target).exists());
}

#[test]
fn deterministic_sequence_strategy_does_not_create_target_files() {
    let source = missing_root("源 中文 😀");
    let target = missing_root("目标 русский/not-created");
    let rules = OrganizationRules {
        levels: Vec::new(),
        template: "same".into(),
        ..OrganizationRules::default()
    };
    let assets = vec![
        asset(2, &source, "二.jpg", Some("2026-08-05T18:30:00")),
        asset(1, &source, "一.jpg", None),
    ];
    let first = build_plan(&request(&target, rules.clone()), &source, assets.clone())
        .expect("first plan");
    let second = build_plan(&request(&target, rules), &source, assets).expect("second plan");
    let first_targets: Vec<_> = first
        .items
        .iter()
        .map(|item| item.target_relative_path.clone())
        .collect();
    let second_targets: Vec<_> = second
        .items
        .iter()
        .map(|item| item.target_relative_path.clone())
        .collect();
    assert_eq!(first_targets, second_targets);
    assert_eq!(first_targets, vec!["same.jpg", "same_0001.jpg"]);
    assert_eq!(first.items[0].asset_id, 1);
    assert_eq!(first.items[1].ordinal, 2);
    assert!(!std::path::Path::new(&target).exists());
}

#[test]
fn invalid_windows_name_and_missing_capture_are_reported() {
    let source = missing_root("source");
    let target = missing_root("target");
    let rules = OrganizationRules {
        levels: vec![OrganizationLevel {
            kind: OrganizationLevelKind::Year,
            fallback: OrganizationMissingFallback::ModificationTime,
        }],
        template: "CON*".into(),
        ..OrganizationRules::default()
    };
    let plan = build_plan(
        &request(&target, rules),
        &source,
        vec![asset(1, &source, "фото.jpg", None)],
    )
    .expect("plan");
    let codes: Vec<&str> = plan.items[0]
        .issues
        .iter()
        .map(|issue| issue.code.as_str())
        .collect();
    assert!(codes.contains(&"invalid_segment") || codes.contains(&"reserved_name"));
    assert!(codes.contains(&"capture_time_missing"));
    assert_eq!(plan.items[0].status, OrganizationItemStatus::Error);
}

#[test]
fn plan_summary_counts_items_bytes_and_issues() {
    let source = missing_root("summary-source");
    let target = missing_root("summary-target");
    let rules = OrganizationRules {
        levels: Vec::new(),
        template: "{original_stem}".into(),
        ..OrganizationRules::default()
    };
    let plan = build_plan(
        &request(&target, rules),
        &source,
        vec![asset(1, &source, "a.jpg", None), asset(2, &source, "b.jpg", None)],
    )
    .expect("plan");
    assert_eq!(plan.summary.item_count, 2);
    assert_eq!(plan.summary.estimated_bytes, 18);
    assert_eq!(plan.tree.file_count, 2);
    assert_eq!(plan.tree.byte_count, 18);
    assert_eq!(plan.summary.status, "has_errors");
    assert!(plan.summary.error_count >= 2);
    assert_eq!(plan.summary.source_snapshot.len(), 64);
    assert_eq!(plan.items[0].target_relative_path, "a.jpg");
    assert_eq!(plan.items[1].target_relative_path, "b.jpg");
    assert!(plan.items.iter().all(|item| item
        .issues
        .iter()
        .any(|issue| issue.code == "source_missing")));
}

#[test]
fn invalid_rules_are_refused_with_the_first_issue() {
    let rules = OrganizationRules {
        sequence_width: 0,
        ..OrganizationRules::default()
    };
    let result = build_plan(&request("/t", rules), "/s", Vec::new());
    match result {
        Err(AppError::InvalidArgument(message)) => {
            assert_eq!(message, "序号宽度必须在 1 到 12 之间。")
        }
        _ => panic!("rules with an issue must be refused"),
    }
}

#[test]
fn default_rules_have_no_issue() {
    assert!(validate_rules(&OrganizationRules::default()).is_empty());
}

#[test]
fn unknown_variable_and_unclosed_template_are_rule_issues() {
    let rules = OrganizationRules {
        template: "{nope}".into(),
        ..OrganizationRules::default()
    };
    let issues = validate_rules(&rules);
    assert_eq!(issues.len(), 1);
    assert_eq!(issues[0].code, "unknown_template_variable");
    let rules = OrganizationRules {
        template: "{capture_time".into(),
        ..OrganizationRules::default()
    };
    let issues = validate_rules(&rules);
    assert_eq!(issues[0].code, "invalid_template");
    assert_eq!(issues[0].detail, "命名模板缺少右花括号。");
}

#[test]
fn duplicate_levels_are_reported() {
    let level = OrganizationLevel {
        kind: OrganizationLevelKind::Tone,
        fallback: OrganizationMissingFallback::Unknown,
    };
    let rules = OrganizationRules {
        levels: vec![level, level],
        ..OrganizationRules::default()
    };
    let issues = validate_rules(&rules);
    assert_eq!(issues.len(), 1);
    assert_eq!(issues[0].code, "duplicate_level");
    assert_eq!(issues[0].detail, "目录维度 tone 重复。");
}

#[test]
fn templates_parse_into_literals_and_variables() {
    let tokens = parse_template("a_{sequence: 000 }_b").expect("tokens");
    assert_eq!(
        tokens,
        vec![
            TemplateToken::Literal("a_".into()),
            TemplateToken::Variable {
                name: "sequence".into(),
                format: Some("000".into())
            },
            TemplateToken::Literal("_b".into()),
        ]
    );
    assert_eq!(
        parse_template("{ }"),
        Err("命名模板包含空变量。".to_owned())
    );
    assert_eq!(
        parse_template("{:x}"),
        Err("命名模板变量名不能为空。".to_owned())
    );
}

#[test]
fn sequences_are_padded_to_the_pattern_width() {
    assert_eq!(format_sequence(7, "0000"), "0007");
    assert_eq!(format_sequence(12345, "00"), "12345");
    assert_eq!(format_sequence(3, "x"), "3");
}

#[test]
fn templates_render_variables_and_refuse_empty_names() {
    let context = RenderContext {
        values: vec![
            ("original_stem".to_owned(), "IMG_1".to_owned()),
            ("semantic".to_owned(), "portrait".to_owned()),
        ],
        capture_time: None,
    };
    let tokens = parse_template("{semantic}-{original_stem}-{sequence:000}").expect("tokens");
    assert_eq!(
        render_template(&tokens, &context, 4),
        Ok("portrait-IMG_1-004".to_owned())
    );
    let tokens = parse_template("{missing}").expect("tokens");
    assert_eq!(
        render_template(&tokens, &context, 1),
        Err("命名模板渲染结果为空。".to_owned())
    );
}

#[test]
fn capture_times_parse_and_format_with_template_patterns() {
    let time = parse_capture_time("2026-08-05T18:30:09").expect("naive time");
    assert_eq!(
        time,
        CaptureTime {
            seconds: 1_785_954_609,
            nanos: 0
        }
    );
    assert_eq!(
        format_capture_time(time, "yyyyMMdd_HHmmss"),
        Some("20260805_183009".to_owned())
    );
    let zoned = parse_capture_time("2026-08-05T20:30:09+02:00").expect("rfc 3339 time");
    assert_eq!(zoned, time);
    assert_eq!(parse_capture_time("yesterday"), None);
    assert_eq!(replace_text("yyyy-yyyy", "yyyy", "%Y"), "%Y-%Y");
}

#[test]
fn windows_names_are_checked() {
    assert!(is_reserved_name("con.txt"));
    assert!(is_reserved_name("LPT1"));
    assert!(!is_reserved_name("LPT0"));
    assert!(!is_reserved_name("console"));
    assert!(has_invalid_windows_segment("a?b"));
    assert!(has_invalid_windows_segment("name."));
    assert!(has_invalid_windows_segment(""));
    assert!(!has_invalid_windows_segment("photo.jpg"));
}

#[test]
fn relative_targets_are_checked_segment_by_segment() {
    let mut issues = Vec::new();
    assert!(check_relative_target("2026/08/a.jpg", "/t/2026/08/a.jpg", "/s/a.jpg", &mut issues));
    assert!(issues.is_empty());
    assert!(!check_relative_target("../a.jpg", "/t/../a.jpg", "/s/a.jpg", &mut issues));
    assert_eq!(issues[0].code, "target_escape");
    assert!(issues.iter().all(|issue| issue.severity == OrganizationIssueSeverity::Error));
    let long = "x".repeat(300);
    let mut issues = Vec::new();
    assert!(!check_relative_target(&long, &long, "/s/a.jpg", &mut issues));
    let codes: Vec<&str> = issues.iter().map(|issue| issue.code.as_str()).collect();
    assert_eq!(codes, vec!["segment_too_long", "path_too_long"]);
}

#[test]
fn target_boundary_is_checked_after_normalization() {
    assert!(validate_target_boundary("C:\\Photos", "c:/photos/Sorted").is_err());
    assert!(validate_target_boundary("C:\\Photos", "C:\\Photos\\").is_err());
    assert!(validate_target_boundary("C:\\Photos", "").is_err());
    assert!(validate_target_boundary("C:\\Photos", "C:\\PhotosSorted").is_ok());
}

#[test]
fn csv_fields_quote_only_when_needed() {
    assert_eq!(csv_field("plain"), "plain");
    assert_eq!(csv_field("a,b"), "\"a,b\"");
    assert_eq!(csv_field("say \"hi\""), "\"say \"\"hi\"\"\"");
    assert_eq!(csv_cell("x\"y"), "\"x\"\"y\"");
}

#[test]
fn short_hash_keeps_eight_characters() {
    assert_eq!(short_hash("0123456789abcdef"), "01234567");
    assert_eq!(short_hash("abc"), "abc");
}

fn issue_with(severity: OrganizationIssueSeverity) -> OrganizationIssue {
    OrganizationIssue {
        code: "x".into(),
        severity,
        source_path: None,
        target_path: None,
        detail: "d".into(),
    }
}

#[test]
fn item_status_follows_the_worst_issue() {
    assert_eq!(status_for_issues(&Vec::new()), OrganizationItemStatus::Ready);
    assert_eq!(
        status_for_issues(&vec![issue_with(OrganizationIssueSeverity::Warning)]),
        OrganizationItemStatus::Warning
    );
    assert_eq!(
        status_for_issues(&vec![
            issue_with(OrganizationIssueSeverity::Warning),
            issue_with(OrganizationIssueSeverity::Error)
        ]),
        OrganizationItemStatus::Error
    );
}

#[test]
fn tree_counts_files_along_each_path() {
    let mut tree = OrganizationTreeNode {
        name: "root".into(),
        relative_path: String::new(),
        file_count: 0,
        byte_count: 0,
        children: Vec::new(),
    };
    insert_tree_item(&mut tree, "2026/08/a.jpg", 10);
    insert_tree_item(&mut tree, "2026/09/b.jpg", 5);
    assert_eq!(tree.file_count, 2);
    assert_eq!(tree.byte_count, 15);
    assert_eq!(tree.children.len(), 1);
    let year = &tree.children[0];
    assert_eq!(year.name, "2026");
    assert_eq!(year.file_count, 2);
    assert_eq!(year.children.len(), 2);
    assert_eq!(year.children[1].relative_path, "2026/09");
    assert_eq!(year.children[1].children[0].relative_path, "2026/09/b.jpg");
}

fn draft(id: i64, target: &str, valid: bool) -> DraftItem {
    DraftItem {
        item: OrganizationPlanItem {
            ordinal: id as u32,
            asset_id: id,
            source_path: format!("/s/{id}.jpg"),
            source_relative_path: format!("{id}.jpg"),
            source_fingerprint: format!("{id:064}"),
            target_relative_path: target.to_owned(),
            target_path: String::new(),
            file_size: 1,
            status: OrganizationItemStatus::Ready,
            variables: Vec::new(),
            issues: Vec::new(),
        },
        valid_target: valid,
    }
}

#[test]
fn conflicts_resolve_by_strategy() {
    let root = missing_root("conflicts");
    let mut drafts = vec![
        draft(1, "a/same.jpg", true),
        draft(2, "A/Same.JPG", true),
        draft(3, "a/same.jpg", true),
    ];
    apply_conflicts(&mut drafts, &root, &OrganizationConflictStrategy::Sequence, 1, 4);
    let targets: Vec<&str> = drafts
        .iter()
        .map(|draft| draft.item.target_relative_path.as_str())
        .collect();
    assert_eq!(targets, vec!["a/same.jpg", "A/Same_0001.JPG", "a/same_0002.jpg"]);
    assert_eq!(drafts[1].item.issues[0].code, "duplicate_target");
    assert_eq!(drafts[1].item.status, OrganizationItemStatus::Warning);

    let mut drafts = vec![draft(1, "same.jpg", true), draft(2, "same.jpg", true)];
    apply_conflicts(&mut drafts, &root, &OrganizationConflictStrategy::Skip, 1, 4);
    assert_eq!(drafts[1].item.status, OrganizationItemStatus::SkippedConflict);
    assert_eq!(drafts[1].item.target_relative_path, "same.jpg");
    assert_eq!(
        drafts[1].item.issues[0].severity,
        OrganizationIssueSeverity::Error
    );

    let mut drafts = vec![draft(1, "same.jpg", true), draft(2, "same.jpg", true)];
    apply_conflicts(&mut drafts, &root, &OrganizationConflictStrategy::ShortHash, 1, 4);
    assert_eq!(drafts[1].item.target_relative_path, "same_00000000.jpg");

    let mut drafts = vec![draft(1, "same.jpg", false), draft(2, "same.jpg", false)];
    apply_conflicts(&mut drafts, &root, &OrganizationConflictStrategy::Skip, 1, 4);
    assert!(drafts[1].item.issues.is_empty());
}

#[test]
fn assets_sort_by_normalized_path_then_id() {
    let sorted = sort_assets(vec![
        asset(3, "/s", "b.jpg", None),
        asset(2, "/s", "A.jpg", None),
        asset(1, "/s", "a.jpg", None),
    ]);
    let ids: Vec<i64> = sorted.iter().map(|asset| asset.id).collect();
    assert_eq!(ids, vec![1, 2, 3]);
}

#[test]
fn manifest_targets_are_checked_before_writing() {
    let source = missing_root("manifest-source");
    let target = missing_root("manifest-target");
    let plan = build_plan(
        &request(&target, OrganizationRules::default()),
        &source,
        vec![asset(1, &source, "source.jpg", None)],
    )
    .expect("plan");
    assert_eq!(manifest_format("JSON"), Some(ManifestFormat::Json));
    assert_eq!(manifest_format("xml"), None);
    assert!(matches!(
        check_manifest_target(&plan, &format!("{source}/plan-export.json"), "json"),
        Err(AppError::UnsafePath(_))
    ));
    assert!(matches!(
        check_manifest_target(&plan, &format!("{source}/source.jpg"), "csv"),
        Err(AppError::UnsafePath(_))
    ));
    assert!(matches!(
        check_manifest_target(&plan, "/tmp/x.json", "yaml"),
        Err(AppError::InvalidArgument(_))
    ));
    assert!(matches!(
        check_manifest_target(&plan, &format!("{target}/plan.json"), "json"),
        Err(AppError::InvalidArgument(_))
    ));
    let fresh = format!("{target}/fresh.json");
    assert_eq!(
        manifest_target_outcome(&plan, &fresh, "CSV", false, &Some(target.clone()), true),
        Ok(ManifestFormat::Csv)
    );
    assert_eq!(
        manifest_target_outcome(&plan, &fresh, "json", false, &Some(String::new()), false),
        Ok(ManifestFormat::Json)
    );
    match manifest_target_outcome(&plan, &fresh, "json", true, &Some(target.clone()), true) {
        Err(AppError::InvalidArgument(message)) => {
            assert_eq!(message, format!("导出文件已存在，为避免覆盖请另选路径: {fresh}"))
        },
        other => panic!("unexpected {other:?}"),
    }
    match manifest_target_outcome(&plan, &fresh, "json", false, &Some(target.clone()), false) {
        Err(AppError::InvalidArgument(message)) => {
            assert_eq!(message, "导出目录不存在；dry-run 不会创建目录。")
        },
        other => panic!("unexpected {other:?}"),
    }
    assert!(matches!(
        manifest_target_outcome(&plan, &format!("{source}/x.json"), "json", false, &None, true),
        Err(AppError::UnsafePath(_))
    ));
    let csv = manifest_csv(&plan);
    assert!(csv.starts_with("ordinal,asset_id,source_path,target_path,status,file_size,issues\n1,1,"));
    assert_eq!(csv.lines().count(), 2);
}

#[test]
fn modification_time_folders_and_text_come_from_the_timestamp() {
    let source = missing_root("mtime-source");
    let target = missing_root("mtime-target");
    let rules = OrganizationRules {
        levels: vec![
            OrganizationLevel {
                kind: OrganizationLevelKind::Year,
                fallback: OrganizationMissingFallback::ModificationTime,
            },
            OrganizationLevel {
                kind: OrganizationLevelKind::Month,
                fallback: OrganizationMissingFallback::ModificationTime,
            },
        ],
        template: "{capture_time}".into(),
        missing_fallback: OrganizationMissingFallback::ModificationTime,
        ..OrganizationRules::default()
    };
    let plan = build_plan(
        &request(&target, rules),
        &source,
        vec![asset(1, &source, "a.jpg", None)],
    )
    .expect("plan");
    assert_eq!(
        plan.items[0].target_relative_path,
        "2025/08/2025-08-06T17:06:40+00:00.jpg"
    );
    assert_eq!(
        plan.items[0].target_path,
        format!("{target}/2025/08/2025-08-06T17:06:40+00:00.jpg")
    );
    assert!(plan.items[0]
        .issues
        .iter()
        .any(|issue| issue.code == "target_escape"));
    assert_eq!(plan.tree.children[0].name, "2025");
}

#[test]
fn fingerprints_digest_path_size_and_modification_time() {
    let item = asset(1, "/s", "a.jpg", None);
    let expected = blake3::hash(b"/s/a.jpg:9:1754500000").to_hex().to_string();
    assert_eq!(photo_organizer::render::asset_fingerprint(&item), expected);
    let snapshot = photo_organizer::plan::source_snapshot(&vec![item]);
    let text = format!("1:{expected};");
    assert_eq!(snapshot, blake3::hash(text.as_bytes()).to_hex().to_string());
}

#[test]
fn existing_target_uses_selected_conflict_strategy_without_overwrite() {
    let mut drafts = vec![draft(1, "tmp", true)];
    apply_conflicts(&mut drafts, "/", &OrganizationConflictStrategy::ShortHash, 1, 4);
    assert_ne!(drafts[0].item.target_relative_path, "tmp");
    assert_eq!(drafts[0].item.target_relative_path, "tmp_00000000");
    assert!(drafts[0]
        .item
        .issues
        .iter()
        .any(|issue| issue.code == "existing_target"));
    let mut drafts = vec![draft(1, "tmp", true)];
    apply_conflicts(&mut drafts, "/", &OrganizationConflictStrategy::Sequence, 1, 4);
    assert_eq!(drafts[0].item.target_relative_path, "tmp_0001");
    assert_eq!(drafts[0].item.issues[0].severity, OrganizationIssueSeverity::Warning);
}

#[test]
fn reported_existing_target_is_numbered_with_first_free_candidate() {
    let d = draft(1, "a/same.jpg", true);
    let assigned: Vec<String> = vec!["a/same_0002.jpg".to_owned()];
    let strategy = OrganizationConflictStrategy::Sequence;
    assert_eq!(
        decide_conflict(&d, &assigned, &strategy, 1, 4, true, &vec![]),
        ConflictDecision::Ask("a/same_0001.jpg".to_owned())
    );
    assert_eq!(
        decide_conflict(&d, &assigned, &strategy, 1, 4, true, &vec![true]),
        ConflictDecision::Ask("a/same_0002.jpg".to_owned())
    );
    assert_eq!(
        decide_conflict(&d, &assigned, &strategy, 1, 4, true, &vec![true, false]),
        ConflictDecision::Ask("a/same_0003.jpg".to_owned())
    );
    assert_eq!(
        decide_conflict(&d, &assigned, &strategy, 1, 4, true, &vec![true, true, false]),
        ConflictDecision::Rename(true, "a/same_0003.jpg".to_owned(), "a/same_0003.jpg".to_owned(), 4)
    );
    assert_eq!(
        decide_conflict(&d, &assigned, &strategy, 1, 4, true, &vec![false]),
        ConflictDecision::Rename(true, "a/same_0001.jpg".to_owned(), "a/same_0001.jpg".to_owned(), 2)
    );
}

#[test]
fn conflict_decisions_follow_the_strategy() {
    let d = draft(7, "x/Photo.JPG", true);
    let none: Vec<String> = Vec::new();
    assert_eq!(
        decide_conflict(&d, &none, &OrganizationConflictStrategy::Skip, 1, 4, false, &vec![]),
        ConflictDecision::Keep("x/photo.jpg".to_owned())
    );
    assert_eq!(
        decide_conflict(&d, &none, &OrganizationConflictStrategy::Skip, 1, 4, true, &vec![]),
        ConflictDecision::SetAside(true, 1)
    );
    let taken = vec!["x/photo.jpg".to_owned()];
    assert_eq!(
        decide_conflict(&d, &taken, &OrganizationConflictStrategy::Skip, 5, 4, false, &vec![]),
        ConflictDecision::SetAside(false, 5)
    );
    assert_eq!(
        decide_conflict(&d, &none, &OrganizationConflictStrategy::ShortHash, 1, 4, true, &vec![]),
        ConflictDecision::Rename(
            true,
            "x/Photo_00000000.JPG".to_owned(),
            "x/photo_00000000.jpg".to_owned(),
            1
        )
    );
    let invalid = draft(8, "x/Photo.JPG", false);
    assert_eq!(
        decide_conflict(&invalid, &taken, &OrganizationConflictStrategy::Sequence, 1, 4, true, &vec![]),
        ConflictDecision::Keep("x/photo.jpg".to_owned())
    );
}

#[test]
fn sequence_numbers_run_out_at_the_largest_u32() {
    let d = draft(1, "same.jpg", true);
    let none: Vec<String> = Vec::new();
    let strategy = OrganizationConflictStrategy::Sequence;
    assert_eq!(
        decide_conflict(&d, &none, &strategy, 0xFFFF_FFFF, 1, true, &vec![]),
        ConflictDecision::Ask("same_4294967295.jpg".to_owned())
    );
    assert_eq!(
        decide_conflict(&d, &none, &strategy, 0xFFFF_FFFF, 1, true, &vec![true]),
        ConflictDecision::SetAside(true, 0x1_0000_0000)
    );
    assert_eq!(
        decide_conflict(&d, &none, &strategy, 0x1_0000_0000, 1, true, &vec![]),
        ConflictDecision::SetAside(true, 0x1_0000_0000)
    );
}
