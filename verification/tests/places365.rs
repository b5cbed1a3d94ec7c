use photo_organizer::places365::{
    all_leaf_labels, base_clusters, photo_cluster_id_for_leaf, scene_cluster_display_name,
    scene_cluster_for_leaf, scene_cluster_id_for_leaf, scene_cluster_index_for_leaf,
    scene_clusters, PLACES365_LEAF_COUNT,
};

#[test]
fn mapping_covers_all_places365_leaves_exactly_once() {
    let mut labels = all_leaf_labels();
    assert_eq!(labels.len(), PLACES365_LEAF_COUNT);
    labels.sort_unstable();
    labels.dedup();
    assert_eq!(labels.len(), PLACES365_LEAF_COUNT);
    assert_eq!(
        base_clusters()
            .iter()
            .map(|cluster| cluster.leaf_labels.len())
            .sum::<usize>(),
        PLACES365_LEAF_COUNT
    );
    assert!(all_leaf_labels()
        .into_iter()
        .all(|label| scene_cluster_for_leaf(label).is_some()));
}

#[test]
fn every_photography_topic_has_mapped_evidence() {
    let mut counts = vec![0usize; scene_clusters().len()];
    for label in all_leaf_labels() {
        counts[scene_cluster_index_for_leaf(label).expect("leaf must have a topic")] += 1;
    }
    assert!(counts.iter().all(|count| *count > 0));
}

#[test]
fn boundary_labels_are_in_the_intended_cluster() {
    assert_eq!(
        scene_cluster_id_for_leaf("restaurant_patio"),
        Some("photo_food")
    );
    assert_eq!(
        scene_cluster_id_for_leaf("apartment_building/outdoor"),
        Some("photo_indoor")
    );
    assert_eq!(
        scene_cluster_id_for_leaf("museum/outdoor"),
        Some("photo_architecture")
    );
    assert_eq!(
        scene_cluster_id_for_leaf("museum/indoor"),
        Some("photo_travel")
    );
    assert_eq!(
        scene_cluster_id_for_leaf("highway"),
        Some("photo_transport")
    );
    assert_eq!(scene_cluster_id_for_leaf("street"), Some("photo_urban"));
    assert_eq!(
        scene_cluster_id_for_leaf("medina"),
        Some("photo_architecture")
    );
    assert_eq!(
        scene_cluster_id_for_leaf("shopfront"),
        Some("photo_commercial")
    );
    assert_eq!(
        scene_cluster_id_for_leaf("formal_garden"),
        Some("photo_plant")
    );
    assert_eq!(
        scene_cluster_id_for_leaf("field/wild"),
        Some("photo_landscape")
    );
}

#[test]
fn unknown_labels_have_no_topic_and_topics_have_names() {
    assert_eq!(photo_cluster_id_for_leaf("not_a_places365_label"), None);
    assert_eq!(scene_cluster_index_for_leaf("not_a_places365_label"), None);
    assert_eq!(scene_cluster_id_for_leaf(""), None);
    assert_eq!(scene_cluster_display_name("photo_food"), Some("美食餐饮"));
    assert_eq!(scene_cluster_display_name("photo_documentary"), Some("纪实与工业"));
    assert_eq!(scene_cluster_display_name("scene_nature"), None);
    assert_eq!(scene_cluster_index_for_leaf("bar"), Some(3));
    let topics = scene_clusters();
    assert_eq!(topics.len(), 11);
    assert!(topics.iter().all(|topic| topic.leaf_labels.is_empty()));
    assert_eq!(topics[0].id, "photo_landscape");
    let cluster = scene_cluster_for_leaf("bar").expect("bar has a topic");
    assert_eq!(cluster.id, "photo_food");
    assert_eq!(base_clusters()[0].id, "scene_nature");
}

#[test]
fn topic_ids_agree_and_come_from_leaves() {
    for label in all_leaf_labels() {
        assert_eq!(scene_cluster_id_for_leaf(label), photo_cluster_id_for_leaf(label));
        assert!(photo_cluster_id_for_leaf(label).is_some());
    }
    for label in ["", "Street", "photo_food", "not_a_scene"] {
        assert_eq!(photo_cluster_id_for_leaf(label), None);
        assert_eq!(scene_cluster_id_for_leaf(label), None);
    }
}
