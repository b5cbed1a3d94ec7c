use photo_organizer::classification::{
    is_registry_field, normalize_override_value, normalize_string_list, normalize_tag_id,
    registry_descriptors, resolve_classification, AutoClassification, ClassificationSource,
    EffectiveClassification, ManualClassification, OverrideInput, OverrideValue,
    FIELD_AUXILIARY_TAGS, FIELD_DOMINANT_COLOR_CATEGORY, FIELD_TONE,
};
use photo_organizer::error::AppError;

#[test]
fn registry_is_closed_and_all_fields_restore_auto() {
    let registry = registry_descriptors();
    assert_eq!(registry.len(), 5);
    assert!(registry.iter().all(|field| {
        field.supports_manual_override && field.supports_restore_auto && field.filterable
    }));
    assert!(!is_registry_field("brightness"));
}

#[test]
fn manual_single_value_wins_over_auto() {
    let result = resolve_classification(
        4,
        AutoClassification {
            primary_category: Some("landscape".to_owned()),
            tone: Some("mid_tone".to_owned()),
            ..AutoClassification::default()
        },
        ManualClassification {
            primary_category: Some("architecture".to_owned()),
            ..ManualClassification::default()
        },
    );
    assert_eq!(
        result.primary_category.effective.as_deref(),
        Some("architecture")
    );
    assert_eq!(result.primary_category.source, ClassificationSource::Manual);
    assert_eq!(result.tone.effective.as_deref(), Some("mid_tone"));
    assert_eq!(result.tone.source, ClassificationSource::Auto);
}

#[test]
fn tag_overrides_add_and_remove_deterministically() {
    let result = resolve_classification(
        0,
        AutoClassification {
            auxiliary_tags: vec!["portrait".to_owned(), "outdoor".to_owned()],
            ..AutoClassification::default()
        },
        ManualClassification {
            auxiliary_tag_additions: vec!["favorite".to_owned(), "portrait".to_owned()],
            auxiliary_tag_removals: vec!["outdoor".to_owned()],
            ..ManualClassification::default()
        },
    );
    assert_eq!(
        result.auxiliary_tags.effective,
        vec!["favorite", "portrait"]
    );
    assert_eq!(result.auxiliary_tags.source, ClassificationSource::Mixed);
}

#[test]
fn failed_auto_can_still_have_manual_effective_value() {
    let result = resolve_classification(
        1,
        AutoClassification::default(),
        ManualClassification {
            saturation_level: Some("high".to_owned()),
            ..ManualClassification::default()
        },
    );
    assert_eq!(result.saturation_level.effective.as_deref(), Some("high"));
    assert_eq!(result.saturation_level.source, ClassificationSource::Manual);
}

#[test]
fn registry_lists_the_five_fields_in_display_order() {
    let ids: Vec<String> = registry_descriptors().into_iter().map(|d| d.id).collect();
    assert_eq!(
        ids,
        vec![
            "primary_category",
            "auxiliary_tags",
            "tone",
            "dominant_color_category",
            "saturation_level"
        ]
    );
    let kinds: Vec<String> = registry_descriptors().into_iter().map(|d| d.kind).collect();
    assert_eq!(kinds, vec!["single", "multi", "single", "multi", "single"]);
    assert!(is_registry_field("tone"));
    assert!(is_registry_field("auxiliary_tags"));
    assert!(!is_registry_field("Tone"));
}

#[test]
fn tags_sort_by_lowercase_form_and_keep_order_of_equal_forms() {
    let result = resolve_classification(
        0,
        AutoClassification {
            auxiliary_tags: vec![
                "b".to_owned(),
                "Apple".to_owned(),
                "apple".to_owned(),
                "C".to_owned(),
            ],
            ..AutoClassification::default()
        },
        ManualClassification::default(),
    );
    assert_eq!(result.auxiliary_tags.effective, vec!["Apple", "apple", "b", "C"]);
    assert_eq!(result.auxiliary_tags.source, ClassificationSource::Auto);
}

#[test]
fn removed_tag_that_is_added_again_stays() {
    let result = resolve_classification(
        0,
        AutoClassification {
            auxiliary_tags: vec!["x".to_owned(), "y".to_owned()],
            ..AutoClassification::default()
        },
        ManualClassification {
            auxiliary_tag_additions: vec!["y".to_owned(), "z".to_owned(), "z".to_owned()],
            auxiliary_tag_removals: vec!["y".to_owned(), "x".to_owned()],
            ..ManualClassification::default()
        },
    );
    assert_eq!(result.auxiliary_tags.effective, vec!["y", "z"]);
    let manual_only = resolve_classification(
        0,
        AutoClassification::default(),
        ManualClassification {
            auxiliary_tag_additions: vec!["k".to_owned()],
            ..ManualClassification::default()
        },
    );
    assert_eq!(manual_only.auxiliary_tags.source, ClassificationSource::Manual);
}

#[test]
fn dominant_colors_resolve_from_auto_list_or_manual_override() {
    let auto_only = resolve_classification(
        2,
        AutoClassification {
            dominant_color_categories: vec!["blue".to_owned(), "red".to_owned()],
            ..AutoClassification::default()
        },
        ManualClassification::default(),
    );
    assert_eq!(
        auto_only.dominant_color_categories.effective,
        Some(vec!["blue".to_owned(), "red".to_owned()])
    );
    assert_eq!(auto_only.dominant_color_categories.source, ClassificationSource::Auto);
    let nothing = resolve_classification(2, AutoClassification::default(), ManualClassification::default());
    assert_eq!(nothing.dominant_color_categories.auto, None);
    assert_eq!(nothing.dominant_color_categories.effective, None);
    assert_eq!(nothing.dominant_color_categories.source, ClassificationSource::Unset);
    assert_eq!(nothing, EffectiveClassification::empty(2));
    let manual = resolve_classification(
        2,
        AutoClassification {
            dominant_color_categories: vec!["blue".to_owned()],
            ..AutoClassification::default()
        },
        ManualClassification {
            dominant_color_categories: Some(vec!["green".to_owned()]),
            ..ManualClassification::default()
        },
    );
    assert_eq!(
        manual.dominant_color_categories.effective,
        Some(vec!["green".to_owned()])
    );
    assert_eq!(manual.dominant_color_categories.source, ClassificationSource::Manual);
}

#[test]
fn override_values_are_normalized_or_rejected() {
    assert_eq!(
        normalize_override_value(FIELD_TONE, OverrideInput::Text("  high_key ".to_owned())),
        Ok(OverrideValue::Text("high_key".to_owned()))
    );
    assert_eq!(
        normalize_override_value(FIELD_TONE, OverrideInput::Text("   ".to_owned())),
        Err(AppError::InvalidArgument("tone override cannot be empty".to_owned()))
    );
    assert_eq!(
        normalize_override_value(FIELD_TONE, OverrideInput::Other),
        Err(AppError::InvalidArgument("tone override must be a string".to_owned()))
    );
    assert_eq!(
        normalize_override_value(FIELD_AUXILIARY_TAGS, OverrideInput::Text("a".to_owned())),
        Err(AppError::InvalidArgument(
            "field auxiliary_tags is not a single classification override".to_owned()
        ))
    );
    assert_eq!(
        normalize_override_value("brightness", OverrideInput::Text("a".to_owned())),
        Err(AppError::InvalidArgument(
            "field brightness is not a single classification override".to_owned()
        ))
    );
    assert_eq!(
        normalize_override_value(
            FIELD_DOMINANT_COLOR_CATEGORY,
            OverrideInput::List(vec![
                Some(" red".to_owned()),
                Some("blue".to_owned()),
                Some("red ".to_owned())
            ])
        ),
        Ok(OverrideValue::List(vec!["red".to_owned(), "blue".to_owned()]))
    );
    assert_eq!(
        normalize_override_value(FIELD_DOMINANT_COLOR_CATEGORY, OverrideInput::Text("green".to_owned())),
        Ok(OverrideValue::List(vec!["green".to_owned()]))
    );
    assert_eq!(
        normalize_override_value(
            FIELD_DOMINANT_COLOR_CATEGORY,
            OverrideInput::List(vec![Some("red".to_owned()), None])
        ),
        Err(AppError::InvalidArgument(
            "dominant color categories must be strings".to_owned()
        ))
    );
    assert_eq!(
        normalize_override_value(FIELD_DOMINANT_COLOR_CATEGORY, OverrideInput::Other),
        Err(AppError::InvalidArgument(
            "dominant color categories must be a string array".to_owned()
        ))
    );
    assert_eq!(
        normalize_override_value(
            FIELD_DOMINANT_COLOR_CATEGORY,
            OverrideInput::List(vec![Some(" ".to_owned())])
        ),
        Err(AppError::InvalidArgument(
            "dominant color categories cannot contain empty values".to_owned()
        ))
    );
}

#[test]
fn tag_ids_and_string_lists_are_trimmed() {
    assert_eq!(normalize_tag_id("  favorite\t"), Ok("favorite".to_owned()));
    assert_eq!(
        normalize_tag_id(" \u{3000} "),
        Err(AppError::InvalidArgument("tag id cannot be empty".to_owned()))
    );
    assert_eq!(
        normalize_string_list(vec!["a".to_owned(), " b".to_owned(), "a ".to_owned()], "labels"),
        Ok(vec!["a".to_owned(), "b".to_owned()])
    );
    assert_eq!(
        normalize_string_list(vec!["a".to_owned(), "".to_owned()], "labels"),
        Err(AppError::InvalidArgument("labels cannot contain empty values".to_owned()))
    );
}

#[test]
fn error_messages_name_their_kind() {
    assert_eq!(
        AppError::InvalidArgument("x".to_owned()).message(),
        "invalid argument: x"
    );
    assert_eq!(AppError::Cancelled.message(), "operation cancelled");
}

#[test]
fn normalizing_an_override_twice_changes_nothing() {
    let once = normalize_override_value(
        FIELD_DOMINANT_COLOR_CATEGORY,
        OverrideInput::List(vec![
            Some(" red ".to_owned()),
            Some("blue".to_owned()),
            Some("red".to_owned()),
        ]),
    )
    .expect("accepted");
    let again = match &once {
        OverrideValue::List(list) => OverrideInput::List(list.iter().cloned().map(Some).collect()),
        OverrideValue::Text(text) => OverrideInput::Text(text.clone()),
    };
    assert_eq!(once, OverrideValue::List(vec!["red".to_owned(), "blue".to_owned()]));
    assert_eq!(normalize_override_value(FIELD_DOMINANT_COLOR_CATEGORY, again), Ok(once));
    let text = normalize_override_value(FIELD_TONE, OverrideInput::Text("  low_key ".to_owned()))
        .expect("accepted");
    assert_eq!(text, OverrideValue::Text("low_key".to_owned()));
    assert_eq!(
        normalize_override_value(FIELD_TONE, OverrideInput::Text("low_key".to_owned())),
        Ok(text)
    );
}

#[test]
fn the_manual_tag_list_does_not_change_the_resolution() {
    let auto = AutoClassification {
        primary_category: Some("photo_food".to_owned()),
        auxiliary_tags: vec!["cat".to_owned(), "dog".to_owned()],
        ..Default::default()
    };
    let manual = ManualClassification {
        auxiliary_tag_additions: vec!["bird".to_owned()],
        auxiliary_tag_removals: vec!["dog".to_owned()],
        ..Default::default()
    };
    let other = ManualClassification { auxiliary_tags: vec!["fish".to_owned()], ..manual.clone() };
    assert_eq!(
        resolve_classification(3, auto.clone(), manual),
        resolve_classification(3, auto, other)
    );
}

#[test]
fn nothing_resolves_to_the_empty_classification() {
    assert_eq!(
        resolve_classification(4, AutoClassification::default(), ManualClassification::default()),
        EffectiveClassification::empty(4)
    );
    assert_eq!(EffectiveClassification::default(), EffectiveClassification::empty(0));
}
