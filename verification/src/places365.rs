//! Stable product taxonomy built on top of the official Places365 leaf labels.
//!
//! Places365 remains the model taxonomy. The complete base mapping of the
//! 365 leaf labels into the official scene groups is kept as data; the public
//! clusters are the versioned product taxonomy of photography topics, so a
//! topic keeps the same meaning across libraries and analysis runs.
use vstd::prelude::*;

use crate::text::{str_eq, str_views};

verus! {

#[derive(Debug, Clone, Copy, PartialEq, Eq)]
pub struct SceneCluster {
    pub id: &'static str,
    pub display_name: &'static str,
    pub leaf_labels: &'static [&'static str],
}

pub const TAXONOMY_VERSION: &'static str = "photo-organizer-photography-topics-v1";

pub const PLACES365_LEAF_COUNT: usize = 365;

/// The ids of the official Places365 scene groups, in the order in which
/// a leaf label is looked up.
pub const BASE_CLUSTER_IDS: [&'static str; 10] = [
    "scene_nature",
    "scene_urban",
    "scene_architecture",
    "scene_commerce",
    "scene_residential",
    "scene_public",
    "scene_transport",
    "scene_sports",
    "scene_industrial",
    "scene_agriculture",
];

/// The display names of the official scene groups.
pub const BASE_CLUSTER_NAMES: [&'static str; 10] = [
    "自然风景与地貌",
    "城市街道与社区",
    "建筑、地标与宗教",
    "餐饮与商业",
    "居住与生活空间",
    "工作、教育、医疗与公共室内",
    "交通、旅行与交通设施",
    "运动、娱乐与活动",
    "工业、施工、能源与军事",
    "农业、园林与户外休闲",
];

/// The leaf labels of the `scene_nature` scene group.
pub const NATURE_LEAVES: [&'static str; 47] = [
    "badlands",
    "bamboo_forest",
    "beach",
    "butte",
    "canal/natural",
    "canyon",
    "cliff",
    "coast",
    "creek",
    "crevasse",
    "desert/sand",
    "desert/vegetation",
    "desert_road",
    "field/wild",
    "forest/broadleaf",
    "forest_path",
    "forest_road",
    "glacier",
    "grotto",
    "hot_spring",
    "ice_floe",
    "ice_shelf",
    "iceberg",
    "islet",
    "lagoon",
    "lake/natural",
    "marsh",
    "moat/water",
    "mountain",
    "mountain_path",
    "mountain_snowy",
    "ocean",
    "pond",
    "rainforest",
    "river",
    "rock_arch",
    "sky",
    "snowfield",
    "swamp",
    "swimming_hole",
    "tundra",
    "underwater/ocean_deep",
    "valley",
    "volcano",
    "waterfall",
    "watering_hole",
    "wave",
];

/// The leaf labels of the `scene_urban` scene group.
pub const URBAN_LEAVES: [&'static str; 12] = [
    "alley",
    "canal/urban",
    "crosswalk",
    "downtown",
    "driveway",
    "phone_booth",
    "plaza",
    "promenade",
    "residential_neighborhood",
    "slum",
    "street",
    "village",
];

/// The leaf labels of the `scene_architecture` scene group.
pub const ARCHITECTURE_LEAVES: [&'static str; 33] = [
    "aqueduct",
    "arch",
    "archaelogical_excavation",
    "bridge",
    "building_facade",
    "burial_chamber",
    "castle",
    "catacomb",
    "cemetery",
    "church/indoor",
    "church/outdoor",
    "courthouse",
    "courtyard",
    "doorway/outdoor",
    "embassy",
    "fire_escape",
    "kasbah",
    "lighthouse",
    "medina",
    "mausoleum",
    "mosque/outdoor",
    "museum/outdoor",
    "office_building",
    "pagoda",
    "palace",
    "ruin",
    "rope_bridge",
    "skyscraper",
    "synagogue/outdoor",
    "temple/asia",
    "throne_room",
    "tower",
    "viaduct",
];

/// The leaf labels of the `scene_commerce` scene group.
pub const COMMERCE_LEAVES: [&'static str; 49] = [
    "auto_showroom",
    "bakery/shop",
    "bar",
    "banquet_hall",
    "bazaar/indoor",
    "bazaar/outdoor",
    "beauty_salon",
    "beer_garden",
    "beer_hall",
    "bookstore",
    "booth/indoor",
    "butchers_shop",
    "cafeteria",
    "candy_store",
    "clothing_store",
    "coffee_shop",
    "delicatessen",
    "department_store",
    "diner/outdoor",
    "dining_hall",
    "drugstore",
    "escalator/indoor",
    "fabric_store",
    "fastfood_restaurant",
    "flea_market/indoor",
    "florist_shop/indoor",
    "food_court",
    "general_store/indoor",
    "general_store/outdoor",
    "gift_shop",
    "hardware_store",
    "ice_cream_parlor",
    "jewelry_shop",
    "laundromat",
    "market/indoor",
    "market/outdoor",
    "pet_shop",
    "pharmacy",
    "pizzeria",
    "pub/indoor",
    "restaurant",
    "restaurant_kitchen",
    "restaurant_patio",
    "shoe_shop",
    "shopfront",
    "shopping_mall/indoor",
    "supermarket",
    "sushi_bar",
    "toyshop",
];

/// The leaf labels of the `scene_residential` scene group.
pub const RESIDENTIAL_LEAVES: [&'static str; 43] = [
    "alcove",
    "apartment_building/outdoor",
    "artists_loft",
    "attic",
    "balcony/exterior",
    "balcony/interior",
    "basement",
    "bathroom",
    "beach_house",
    "bedchamber",
    "bedroom",
    "bow_window/indoor",
    "cabin/outdoor",
    "chalet",
    "childs_room",
    "closet",
    "cottage",
    "dining_room",
    "dorm_room",
    "dressing_room",
    "home_office",
    "home_theater",
    "house",
    "hunting_lodge/outdoor",
    "igloo",
    "jacuzzi/indoor",
    "kitchen",
    "living_room",
    "mansion",
    "manufactured_home",
    "mezzanine",
    "pantry",
    "patio",
    "playroom",
    "porch",
    "sauna",
    "shower",
    "staircase",
    "storage_room",
    "television_room",
    "utility_room",
    "wet_bar",
    "yard",
];

/// The leaf labels of the `scene_public` scene group.
pub const PUBLIC_LEAVES: [&'static str; 43] = [
    "archive",
    "art_gallery",
    "art_school",
    "art_studio",
    "atrium/public",
    "bank_vault",
    "biology_laboratory",
    "campus",
    "chemistry_lab",
    "classroom",
    "clean_room",
    "computer_room",
    "conference_center",
    "conference_room",
    "corridor",
    "elevator/door",
    "elevator_lobby",
    "elevator_shaft",
    "entrance_hall",
    "fire_station",
    "hospital",
    "hospital_room",
    "jail_cell",
    "kindergarden_classroom",
    "lecture_room",
    "legislative_chamber",
    "library/indoor",
    "library/outdoor",
    "lobby",
    "museum/indoor",
    "natural_history_museum",
    "nursing_home",
    "office",
    "office_cubicles",
    "operating_room",
    "physics_laboratory",
    "reception",
    "schoolhouse",
    "science_museum",
    "server_room",
    "television_studio",
    "veterinarians_office",
    "waiting_room",
];

/// The leaf labels of the `scene_transport` scene group.
pub const TRANSPORT_LEAVES: [&'static str; 36] = [
    "airfield",
    "airplane_cabin",
    "airport_terminal",
    "berth",
    "boat_deck",
    "boathouse",
    "bus_interior",
    "bus_station/indoor",
    "car_interior",
    "cockpit",
    "galley",
    "garage/indoor",
    "garage/outdoor",
    "gas_station",
    "hangar/indoor",
    "hangar/outdoor",
    "harbor",
    "heliport",
    "highway",
    "hotel/outdoor",
    "hotel_room",
    "inn/outdoor",
    "landing_deck",
    "motel",
    "parking_garage/indoor",
    "parking_garage/outdoor",
    "parking_lot",
    "pier",
    "raft",
    "railroad_track",
    "runway",
    "subway_station/platform",
    "ticket_booth",
    "train_interior",
    "train_station/platform",
    "youth_hostel",
];

/// The leaf labels of the `scene_sports` scene group.
pub const SPORTS_LEAVES: [&'static str; 46] = [
    "amphitheater",
    "amusement_arcade",
    "amusement_park",
    "aquarium",
    "arcade",
    "arena/hockey",
    "arena/performance",
    "arena/rodeo",
    "athletic_field/outdoor",
    "auditorium",
    "ball_pit",
    "ballroom",
    "baseball_field",
    "basketball_court/indoor",
    "bowling_alley",
    "boxing_ring",
    "bullring",
    "carrousel",
    "discotheque",
    "football_field",
    "golf_course",
    "gymnasium/indoor",
    "ice_skating_rink/indoor",
    "ice_skating_rink/outdoor",
    "locker_room",
    "martial_arts_gym",
    "movie_theater/indoor",
    "music_studio",
    "orchestra_pit",
    "playground",
    "racecourse",
    "raceway",
    "recreation_room",
    "sandbox",
    "ski_resort",
    "ski_slope",
    "soccer_field",
    "stadium/baseball",
    "stadium/football",
    "stadium/soccer",
    "stage/indoor",
    "stage/outdoor",
    "swimming_pool/indoor",
    "swimming_pool/outdoor",
    "volleyball_court/outdoor",
    "water_park",
];

/// The leaf labels of the `scene_industrial` scene group.
pub const INDUSTRIAL_LEAVES: [&'static str; 17] = [
    "army_base",
    "assembly_line",
    "auto_factory",
    "construction_site",
    "dam",
    "engine_room",
    "excavation",
    "industrial_area",
    "junkyard",
    "landfill",
    "loading_dock",
    "lock_chamber",
    "oilrig",
    "repair_shop",
    "trench",
    "water_tower",
    "wind_farm",
];

/// The leaf labels of the `scene_agriculture` scene group.
pub const AGRICULTURE_LEAVES: [&'static str; 39] = [
    "barn",
    "barndoor",
    "boardwalk",
    "botanical_garden",
    "campsite",
    "corn_field",
    "corral",
    "farm",
    "field/cultivated",
    "field_road",
    "fishpond",
    "formal_garden",
    "fountain",
    "gazebo/exterior",
    "greenhouse/indoor",
    "greenhouse/outdoor",
    "hayfield",
    "japanese_garden",
    "kennel/outdoor",
    "lawn",
    "nursery",
    "oast_house",
    "orchard",
    "park",
    "pasture",
    "picnic_area",
    "pavilion",
    "rice_paddy",
    "roof_garden",
    "shed",
    "stable",
    "topiary_garden",
    "tree_farm",
    "tree_house",
    "vegetable_garden",
    "vineyard",
    "wheat_field",
    "windmill",
    "zen_garden",
];

/// The photography topics, in display order.
pub const SCENE_CLUSTER_IDS: [&'static str; 11] = [
    "photo_landscape",
    "photo_urban",
    "photo_architecture",
    "photo_food",
    "photo_commercial",
    "photo_indoor",
    "photo_travel",
    "photo_event",
    "photo_transport",
    "photo_plant",
    "photo_documentary",
];

/// The display names of the photography topics.
pub const SCENE_CLUSTER_NAMES: [&'static str; 11] = [
    "风光自然",
    "城市街拍",
    "建筑与空间",
    "美食餐饮",
    "商业与静物",
    "室内与生活",
    "旅行人文",
    "活动与运动",
    "交通与汽车",
    "植物与园艺",
    "纪实与工业",
];

/// Leaf labels redirected to the food topic.
pub const PHOTO_FOOD_LEAVES: [&'static str; 21] = [
    "bakery/shop",
    "bar",
    "banquet_hall",
    "beer_garden",
    "beer_hall",
    "butchers_shop",
    "cafeteria",
    "candy_store",
    "coffee_shop",
    "delicatessen",
    "diner/outdoor",
    "dining_hall",
    "fastfood_restaurant",
    "food_court",
    "ice_cream_parlor",
    "pizzeria",
    "pub/indoor",
    "restaurant",
    "restaurant_kitchen",
    "restaurant_patio",
    "sushi_bar",
];

/// Leaf labels redirected to the travel topic.
pub const PHOTO_TRAVEL_LEAVES: [&'static str; 30] = [
    "airfield",
    "airplane_cabin",
    "airport_terminal",
    "art_gallery",
    "art_school",
    "art_studio",
    "berth",
    "boat_deck",
    "boathouse",
    "bus_station/indoor",
    "cockpit",
    "galley",
    "harbor",
    "heliport",
    "hotel/outdoor",
    "hotel_room",
    "inn/outdoor",
    "landing_deck",
    "museum/indoor",
    "natural_history_museum",
    "motel",
    "pier",
    "raft",
    "runway",
    "science_museum",
    "subway_station/platform",
    "ticket_booth",
    "train_interior",
    "train_station/platform",
    "youth_hostel",
];

/// Leaf labels redirected to the plant topic.
pub const PHOTO_PLANT_LEAVES: [&'static str; 20] = [
    "botanical_garden",
    "corn_field",
    "field/cultivated",
    "formal_garden",
    "greenhouse/indoor",
    "greenhouse/outdoor",
    "hayfield",
    "japanese_garden",
    "lawn",
    "nursery",
    "orchard",
    "pasture",
    "rice_paddy",
    "roof_garden",
    "topiary_garden",
    "tree_farm",
    "vegetable_garden",
    "vineyard",
    "wheat_field",
    "zen_garden",
];

/// The leaf labels of the `i`-th scene group.
pub open spec fn base_leaves(i: int) -> Seq<&'static str> {
    if i == 0 {
        NATURE_LEAVES@
    } else if i == 1 {
        URBAN_LEAVES@
    } else if i == 2 {
        ARCHITECTURE_LEAVES@
    } else if i == 3 {
        COMMERCE_LEAVES@
    } else if i == 4 {
        RESIDENTIAL_LEAVES@
    } else if i == 5 {
        PUBLIC_LEAVES@
    } else if i == 6 {
        TRANSPORT_LEAVES@
    } else if i == 7 {
        SPORTS_LEAVES@
    } else if i == 8 {
        INDUSTRIAL_LEAVES@
    } else {
        AGRICULTURE_LEAVES@
    }
}

/// The leaf labels of the `i`-th scene group.
pub fn base_cluster_leaves(i: usize) -> (r: &'static [&'static str])
    requires
        i < 10,
    ensures
        r@ == base_leaves(i as int),
{
    match i {
        0 => &NATURE_LEAVES,
        1 => &URBAN_LEAVES,
        2 => &ARCHITECTURE_LEAVES,
        3 => &COMMERCE_LEAVES,
        4 => &RESIDENTIAL_LEAVES,
        5 => &PUBLIC_LEAVES,
        6 => &TRANSPORT_LEAVES,
        7 => &SPORTS_LEAVES,
        8 => &INDUSTRIAL_LEAVES,
        _ => &AGRICULTURE_LEAVES,
    }
}

/// The photography topic of each scene group.
pub open spec fn topic_of_base(base_id: Seq<char>) -> Option<Seq<char>> {
    if base_id == "scene_nature"@ {
        Some("photo_landscape"@)
    } else if base_id == "scene_urban"@ {
        Some("photo_urban"@)
    } else if base_id == "scene_architecture"@ {
        Some("photo_architecture"@)
    } else if base_id == "scene_commerce"@ {
        Some("photo_commercial"@)
    } else if base_id == "scene_residential"@ {
        Some("photo_indoor"@)
    } else if base_id == "scene_public"@ {
        Some("photo_indoor"@)
    } else if base_id == "scene_transport"@ {
        Some("photo_transport"@)
    } else if base_id == "scene_sports"@ {
        Some("photo_event"@)
    } else if base_id == "scene_industrial"@ {
        Some("photo_documentary"@)
    } else if base_id == "scene_agriculture"@ {
        Some("photo_landscape"@)
    } else {
        None
    }
}

fn topic_for_base(base_id: &str) -> (r: Option<&'static str>)
    ensures
        r matches Some(t) ==> topic_of_base(base_id@) == Some(t@),
        r is None ==> topic_of_base(base_id@) is None,
{
    if str_eq(base_id, "scene_nature") {
        Some("photo_landscape")
    } else if str_eq(base_id, "scene_urban") {
        Some("photo_urban")
    } else if str_eq(base_id, "scene_architecture") {
        Some("photo_architecture")
    } else if str_eq(base_id, "scene_commerce") {
        Some("photo_commercial")
    } else if str_eq(base_id, "scene_residential") {
        Some("photo_indoor")
    } else if str_eq(base_id, "scene_public") {
        Some("photo_indoor")
    } else if str_eq(base_id, "scene_transport") {
        Some("photo_transport")
    } else if str_eq(base_id, "scene_sports") {
        Some("photo_event")
    } else if str_eq(base_id, "scene_industrial") {
        Some("photo_documentary")
    } else if str_eq(base_id, "scene_agriculture") {
        Some("photo_landscape")
    } else {
        None
    }
}

/// The view of an optional string slice.
pub open spec fn opt_view(o: Option<&str>) -> Option<Seq<char>> {
    match o {
        Some(s) => Some(s@),
        None => None,
    }
}

/// `list` holds `label`.
fn slice_contains(list: &[&str], label: &str) -> (r: bool)
    ensures
        r == str_views(list@).contains(label@),
{
    let mut i: usize = 0;
    while i < list.len()
        invariant
            i <= list@.len(),
            forall|k: int| 0 <= k < i ==> list@[k]@ != label@,
        decreases list@.len() - i,
    {
        if str_eq(list[i], label) {
            assert(str_views(list@)[i as int] == label@);
            return true;
        }
        i += 1;
    }
    proof {
        if str_views(list@).contains(label@) {
            let k = choose|k: int| 0 <= k < str_views(list@).len() && str_views(list@)[k] == label@;
            assert(list@[k]@ == label@);
        }
    }
    false
}

/// The first scene group, from the `i`-th on, whose leaves hold `label`.
pub open spec fn first_base_from(label: Seq<char>, i: int) -> Option<int>
    decreases 10 - i,
{
    if i < 0 || i >= 10 {
        None
    } else if str_views(base_leaves(i)).contains(label) {
        Some(i)
    } else {
        first_base_from(label, i + 1)
    }
}

/// The scene group of a Places365 leaf label.
pub open spec fn spec_base_cluster_id(label: Seq<char>) -> Option<Seq<char>> {
    match first_base_from(label, 0) {
        Some(i) => Some(BASE_CLUSTER_IDS@[i]@),
        None => None,
    }
}

proof fn lemma_first_base_from_range(label: Seq<char>, i: int)
    ensures
        first_base_from(label, i) matches Some(k) ==> 0 <= k < 10 && i <= k,
    decreases 10 - i,
{
    if 0 <= i < 10 && !str_views(base_leaves(i)).contains(label) {
        lemma_first_base_from_range(label, i + 1);
    }
}

fn base_cluster_id_for_leaf(label: &str) -> (r: Option<&'static str>)
    ensures
        opt_view(r) == spec_base_cluster_id(label@),
{
    let ids = BASE_CLUSTER_IDS;
    let mut i: usize = 0;
    while i < 10
        invariant
            i <= 10,
            ids@ == BASE_CLUSTER_IDS@,
            first_base_from(label@, 0) == first_base_from(label@, i as int),
        decreases 10 - i,
    {
        if slice_contains(base_cluster_leaves(i), label) {
            return Some(ids[i]);
        }
        i += 1;
    }
    None
}

/// The photography topic of a Places365 leaf label: the food, travel and
/// plant redirections first, then the topic of the label's scene group.
pub open spec fn spec_photo_cluster_id(label: Seq<char>) -> Option<Seq<char>> {
    if str_views(PHOTO_FOOD_LEAVES@).contains(label) {
        Some("photo_food"@)
    } else if str_views(PHOTO_TRAVEL_LEAVES@).contains(label) {
        Some("photo_travel"@)
    } else if str_views(PHOTO_PLANT_LEAVES@).contains(label) {
        Some("photo_plant"@)
    } else {
        match spec_base_cluster_id(label) {
            Some(base) => topic_of_base(base),
            None => None,
        }
    }
}

/// Returns the stable photography topic for an official Places365 leaf.
///
/// Places365 is a scene model, so this is a topic inference: it is not
/// subject recognition (it cannot tell whether a scene contains a person).
pub fn photo_cluster_id_for_leaf(label: &str) -> (r: Option<&'static str>)
    ensures
        opt_view(r) == spec_photo_cluster_id(label@),
{
    if slice_contains(&PHOTO_FOOD_LEAVES, label) {
        return Some("photo_food");
    }
    if slice_contains(&PHOTO_TRAVEL_LEAVES, label) {
        return Some("photo_travel");
    }
    if slice_contains(&PHOTO_PLANT_LEAVES, label) {
        return Some("photo_plant");
    }
    match base_cluster_id_for_leaf(label) {
        Some(base) => topic_for_base(base),
        None => None,
    }
}

/// The first photography topic, from the `i`-th on, with the given id.
pub open spec fn topic_index_from(id: Seq<char>, i: int) -> Option<int>
    decreases 11 - i,
{
    if i < 0 || i >= 11 {
        None
    } else if SCENE_CLUSTER_IDS@[i]@ == id {
        Some(i)
    } else {
        topic_index_from(id, i + 1)
    }
}

/// The position of the photography topic with the given id.
pub open spec fn spec_topic_index(id: Option<Seq<char>>) -> Option<int> {
    match id {
        Some(id) => topic_index_from(id, 0),
        None => None,
    }
}

fn topic_index(id: &str) -> (r: Option<usize>)
    ensures
        r matches Some(i) ==> topic_index_from(id@, 0) == Some(i as int) && i < 11,
        r is None ==> topic_index_from(id@, 0) is None,
{
    let ids = SCENE_CLUSTER_IDS;
    let mut i: usize = 0;
    while i < 11
        invariant
            i <= 11,
            ids@ == SCENE_CLUSTER_IDS@,
            topic_index_from(id@, 0) == topic_index_from(id@, i as int),
        decreases 11 - i,
    {
        if str_eq(ids[i], id) {
            return Some(i);
        }
        i += 1;
    }
    None
}

/// The position of a leaf label's photography topic among the topics.
pub fn scene_cluster_index_for_leaf(label: &str) -> (r: Option<usize>)
    ensures
        r matches Some(i) ==> i < 11 && spec_topic_index(spec_photo_cluster_id(label@)) == Some(
            i as int,
        ),
        r is None ==> spec_topic_index(spec_photo_cluster_id(label@)) is None,
{
    match photo_cluster_id_for_leaf(label) {
        Some(id) => topic_index(id),
        None => None,
    }
}

/// The `i`-th photography topic. Topics carry no leaf labels of their own:
/// leaves reach them through `photo_cluster_id_for_leaf`.
pub fn scene_cluster(i: usize) -> (r: SceneCluster)
    requires
        i < 11,
    ensures
        r.id@ == SCENE_CLUSTER_IDS@[i as int]@,
        r.display_name@ == SCENE_CLUSTER_NAMES@[i as int]@,
        r.leaf_labels@.len() == 0,
{
    let ids = SCENE_CLUSTER_IDS;
    let names = SCENE_CLUSTER_NAMES;
    SceneCluster { id: ids[i], display_name: names[i], leaf_labels: &[] }
}

/// The photography topics, in display order.
pub fn scene_clusters() -> (r: Vec<SceneCluster>)
    ensures
        r@.len() == 11,
        forall|i: int|
            0 <= i < 11 ==> (#[trigger] r@[i]).id@ == SCENE_CLUSTER_IDS@[i]@ && r@[i].display_name@
                == SCENE_CLUSTER_NAMES@[i]@ && r@[i].leaf_labels@.len() == 0,
{
    let mut r: Vec<SceneCluster> = Vec::new();
    let mut i: usize = 0;
    while i < 11
        invariant
            i <= 11,
            r@.len() == i,
            forall|k: int|
                0 <= k < i ==> (#[trigger] r@[k]).id@ == SCENE_CLUSTER_IDS@[k]@ && r@[k].display_name@
                    == SCENE_CLUSTER_NAMES@[k]@ && r@[k].leaf_labels@.len() == 0,
        decreases 11 - i,
    {
        r.push(scene_cluster(i));
        i += 1;
    }
    r
}

/// The official scene groups with their leaf labels, in lookup order.
pub fn base_clusters() -> (r: Vec<SceneCluster>)
    ensures
        r@.len() == 10,
        forall|i: int|
            0 <= i < 10 ==> (#[trigger] r@[i]).id@ == BASE_CLUSTER_IDS@[i]@ && r@[i].display_name@
                == BASE_CLUSTER_NAMES@[i]@ && r@[i].leaf_labels@ == base_leaves(i),
{
    let ids = BASE_CLUSTER_IDS;
    let names = BASE_CLUSTER_NAMES;
    let mut r: Vec<SceneCluster> = Vec::new();
    let mut i: usize = 0;
    while i < 10
        invariant
            i <= 10,
            ids@ == BASE_CLUSTER_IDS@,
            names@ == BASE_CLUSTER_NAMES@,
            r@.len() == i,
            forall|k: int|
                0 <= k < i ==> (#[trigger] r@[k]).id@ == BASE_CLUSTER_IDS@[k]@ && r@[k].display_name@
                    == BASE_CLUSTER_NAMES@[k]@ && r@[k].leaf_labels@ == base_leaves(k),
        decreases 10 - i,
    {
        r.push(SceneCluster { id: ids[i], display_name: names[i], leaf_labels: base_cluster_leaves(i) });
        i += 1;
    }
    r
}

/// The photography topic of a leaf label.
pub fn scene_cluster_for_leaf(label: &str) -> (r: Option<SceneCluster>)
    ensures
        r is Some <==> spec_topic_index(spec_photo_cluster_id(label@)) is Some,
        r matches Some(c) ==> c.id@ == SCENE_CLUSTER_IDS@[spec_topic_index(
            spec_photo_cluster_id(label@),
        )->0]@ && c.display_name@ == SCENE_CLUSTER_NAMES@[spec_topic_index(
            spec_photo_cluster_id(label@),
        )->0]@,
{
    match scene_cluster_index_for_leaf(label) {
        Some(index) => Some(scene_cluster(index)),
        None => None,
    }
}

proof fn lemma_topic_index_from(id: Seq<char>, j: int)
    requires
        0 <= j,
    ensures
        topic_index_from(id, j) matches Some(i) ==> j <= i < 11 && SCENE_CLUSTER_IDS@[i]@ == id,
    decreases 11 - j,
{
    if j < 11 && SCENE_CLUSTER_IDS@[j]@ != id {
        lemma_topic_index_from(id, j + 1);
    }
}

/// The id of a leaf label's photography topic: the same as
/// `photo_cluster_id_for_leaf` gives.
pub fn scene_cluster_id_for_leaf(label: &str) -> (r: Option<&'static str>)
    ensures
        opt_view(r) == spec_photo_cluster_id(label@),
        r is Some <==> spec_topic_index(spec_photo_cluster_id(label@)) is Some,
{
    let found = scene_cluster_for_leaf(label);
    proof {
        lemma_photo_topics_are_published(label@);
        if let Some(id) = spec_photo_cluster_id(label@) {
            lemma_topic_index_from(id, 0);
        }
    }
    match found {
        Some(cluster) => Some(cluster.id),
        None => None,
    }
}

/// The display name of the photography topic with the given id.
pub fn scene_cluster_display_name(id: &str) -> (r: Option<&'static str>)
    ensures
        r is Some <==> topic_index_from(id@, 0) is Some,
        r matches Some(name) ==> name@ == SCENE_CLUSTER_NAMES@[topic_index_from(id@, 0)->0]@,
{
    let names = SCENE_CLUSTER_NAMES;
    match topic_index(id) {
        Some(index) => Some(names[index]),
        None => None,
    }
}

/// All Places365 leaf labels, scene group by scene group.
pub open spec fn all_leaves_from(i: int) -> Seq<&'static str>
    decreases 10 - i,
{
    if i < 0 || i >= 10 {
        Seq::empty()
    } else {
        base_leaves(i) + all_leaves_from(i + 1)
    }
}

pub fn all_leaf_labels() -> (r: Vec<&'static str>)
    ensures
        r@ == all_leaves_from(0),
{
    let mut r: Vec<&'static str> = Vec::new();
    let mut i: usize = 0;
    while i < 10
        invariant
            i <= 10,
            r@ + all_leaves_from(i as int) == all_leaves_from(0),
        decreases 10 - i,
    {
        let leaves = base_cluster_leaves(i);
        let ghost before = r@;
        let mut k: usize = 0;
        while k < leaves.len()
            invariant
                k <= leaves@.len(),
                leaves@ == base_leaves(i as int),
                r@ == before + leaves@.subrange(0, k as int),
            decreases leaves@.len() - k,
        {
            r.push(leaves[k]);
            k += 1;
            assert(r@ =~= before + leaves@.subrange(0, k as int));
        }
        assert(leaves@.subrange(0, leaves@.len() as int) =~= leaves@);
        assert(all_leaves_from(i as int) == base_leaves(i as int) + all_leaves_from(i + 1));
        assert(r@ + all_leaves_from(i + 1) =~= before + all_leaves_from(i as int));
        i += 1;
    }
    assert(r@ + all_leaves_from(10) =~= r@);
    r
}


proof fn lemma_first_base_found(label: Seq<char>, i: int, j: int)
    requires
        0 <= j <= i < 10,
        str_views(base_leaves(i)).contains(label),
    ensures
        first_base_from(label, j) is Some,
    decreases i - j,
{
    if !str_views(base_leaves(j)).contains(label) {
        lemma_first_base_found(label, i, j + 1);
    }
}

proof fn lemma_all_leaves_from(label: Seq<char>, j: int)
    requires
        0 <= j,
        str_views(all_leaves_from(j)).contains(label),
    ensures
        exists|i: int| j <= i < 10 && str_views(base_leaves(i)).contains(label),
    decreases 10 - j,
{
    if j < 10 {
        let here = base_leaves(j);
        let rest = all_leaves_from(j + 1);
        let all = here + rest;
        let k = choose|k: int| 0 <= k < str_views(all).len() && str_views(all)[k] == label;
        if k < here.len() {
            assert(str_views(here)[k] == label);
            assert(str_views(base_leaves(j)).contains(label));
        } else {
            assert(str_views(rest)[k - here.len()] == label);
            lemma_all_leaves_from(label, j + 1);
        }
    }
}

proof fn lemma_topic_found(id: Seq<char>, k: int, j: int)
    requires
        0 <= j <= k < 11,
        SCENE_CLUSTER_IDS@[k]@ == id,
    ensures
        topic_index_from(id, j) is Some,
    decreases k - j,
{
    if SCENE_CLUSTER_IDS@[j]@ != id {
        lemma_topic_found(id, k, j + 1);
    }
}

/// Whatever label it is given, the topic `photo_cluster_id_for_leaf` names
/// is one of the published photography topics.
pub proof fn lemma_photo_topics_are_published(label: Seq<char>)
    ensures
        spec_photo_cluster_id(label) is Some ==> spec_topic_index(spec_photo_cluster_id(label)) is Some,
{
    lemma_first_base_from_range(label, 0);
    let ids = SCENE_CLUSTER_IDS@;
    lemma_topic_found(ids[0]@, 0, 0);
    lemma_topic_found(ids[1]@, 1, 0);
    lemma_topic_found(ids[2]@, 2, 0);
    lemma_topic_found(ids[3]@, 3, 0);
    lemma_topic_found(ids[4]@, 4, 0);
    lemma_topic_found(ids[5]@, 5, 0);
    lemma_topic_found(ids[6]@, 6, 0);
    lemma_topic_found(ids[7]@, 7, 0);
    lemma_topic_found(ids[8]@, 8, 0);
    lemma_topic_found(ids[9]@, 9, 0);
    lemma_topic_found(ids[10]@, 10, 0);
}

/// Every Places365 leaf label has a photography topic, and that topic is one
/// of the published topics.
pub proof fn lemma_every_leaf_has_a_topic(label: Seq<char>)
    requires
        str_views(all_leaves_from(0)).contains(label),
    ensures
        spec_photo_cluster_id(label) is Some,
        spec_topic_index(spec_photo_cluster_id(label)) is Some,
{
    lemma_all_leaves_from(label, 0);
    let i = choose|i: int| 0 <= i < 10 && str_views(base_leaves(i)).contains(label);
    lemma_first_base_found(label, i, 0);
    lemma_first_base_from_range(label, 0);
    lemma_photo_topics_are_published(label);
}

proof fn lemma_leaf_in_all(label: Seq<char>, i: int, j: int)
    requires
        0 <= j <= i < 10,
        str_views(base_leaves(i)).contains(label),
    ensures
        str_views(all_leaves_from(j)).contains(label),
    decreases i - j,
{
    let here = base_leaves(j);
    let rest = all_leaves_from(j + 1);
    assert(all_leaves_from(j) == here + rest);
    if j == i {
        let k = choose|k: int| 0 <= k < str_views(here).len() && str_views(here)[k] == label;
        assert(str_views(here + rest)[k] == label);
    } else {
        lemma_leaf_in_all(label, i, j + 1);
        let k = choose|k: int| 0 <= k < str_views(rest).len() && str_views(rest)[k] == label;
        assert(str_views(here + rest)[here.len() + k] == label);
    }
}

proof fn lemma_food_leaves_are_leaves(k: int)
    requires
        0 <= k < 21,
    ensures
        str_views(all_leaves_from(0)).contains(PHOTO_FOOD_LEAVES@[k]@),
{
    let label = PHOTO_FOOD_LEAVES@[k]@;
    if k == 0 {
        assert(str_views(base_leaves(3))[1] == label);
        lemma_leaf_in_all(label, 3, 0);
    } else if k == 1 {
        assert(str_views(base_leaves(3))[2] == label);
        lemma_leaf_in_all(label, 3, 0);
    } else if k == 2 {
        assert(str_views(base_leaves(3))[3] == label);
        lemma_leaf_in_all(label, 3, 0);
    } else if k == 3 {
        assert(str_views(base_leaves(3))[7] == label);
        lemma_leaf_in_all(label, 3, 0);
    } else if k == 4 {
        assert(str_views(base_leaves(3))[8] == label);
        lemma_leaf_in_all(label, 3, 0);
    } else if k == 5 {
        assert(str_views(base_leaves(3))[11] == label);
        lemma_leaf_in_all(label, 3, 0);
    } else if k == 6 {
        assert(str_views(base_leaves(3))[12] == label);
        lemma_leaf_in_all(label, 3, 0);
    } else if k == 7 {
        assert(str_views(base_leaves(3))[13] == label);
        lemma_leaf_in_all(label, 3, 0);
    } else if k == 8 {
        assert(str_views(base_leaves(3))[15] == label);
        lemma_leaf_in_all(label, 3, 0);
    } else if k == 9 {
        assert(str_views(base_leaves(3))[16] == label);
        lemma_leaf_in_all(label, 3, 0);
    } else if k == 10 {
        assert(str_views(base_leaves(3))[18] == label);
        lemma_leaf_in_all(label, 3, 0);
    } else if k == 11 {
        assert(str_views(base_leaves(3))[19] == label);
        lemma_leaf_in_all(label, 3, 0);
    } else if k == 12 {
        assert(str_views(base_leaves(3))[23] == label);
        lemma_leaf_in_all(label, 3, 0);
    } else if k == 13 {
        assert(str_views(base_leaves(3))[26] == label);
        lemma_leaf_in_all(label, 3, 0);
    } else if k == 14 {
        assert(str_views(base_leaves(3))[31] == label);
        lemma_leaf_in_all(label, 3, 0);
    } else if k == 15 {
        assert(str_views(base_leaves(3))[38] == label);
        lemma_leaf_in_all(label, 3, 0);
    } else if k == 16 {
        assert(str_views(base_leaves(3))[39] == label);
        lemma_leaf_in_all(label, 3, 0);
    } else if k == 17 {
        assert(str_views(base_leaves(3))[40] == label);
        lemma_leaf_in_all(label, 3, 0);
    } else if k == 18 {
        assert(str_views(base_leaves(3))[41] == label);
        lemma_leaf_in_all(label, 3, 0);
    } else if k == 19 {
        assert(str_views(base_leaves(3))[42] == label);
        lemma_leaf_in_all(label, 3, 0);
    } else if k == 20 {
        assert(str_views(base_leaves(3))[47] == label);
        lemma_leaf_in_all(label, 3, 0);
    }
}

proof fn lemma_travel_leaves_are_leaves(k: int)
    requires
        0 <= k < 30,
    ensures
        str_views(all_leaves_from(0)).contains(PHOTO_TRAVEL_LEAVES@[k]@),
{
    let label = PHOTO_TRAVEL_LEAVES@[k]@;
    if k == 0 {
        assert(str_views(base_leaves(6))[0] == label);
        lemma_leaf_in_all(label, 6, 0);
    } else if k == 1 {
        assert(str_views(base_leaves(6))[1] == label);
        lemma_leaf_in_all(label, 6, 0);
    } else if k == 2 {
        assert(str_views(base_leaves(6))[2] == label);
        lemma_leaf_in_all(label, 6, 0);
    } else if k == 3 {
        assert(str_views(base_leaves(5))[1] == label);
        lemma_leaf_in_all(label, 5, 0);
    } else if k == 4 {
        assert(str_views(base_leaves(5))[2] == label);
        lemma_leaf_in_all(label, 5, 0);
    } else if k == 5 {
        assert(str_views(base_leaves(5))[3] == label);
        lemma_leaf_in_all(label, 5, 0);
    } else if k == 6 {
        assert(str_views(base_leaves(6))[3] == label);
        lemma_leaf_in_all(label, 6, 0);
    } else if k == 7 {
        assert(str_views(base_leaves(6))[4] == label);
        lemma_leaf_in_all(label, 6, 0);
    } else if k == 8 {
        assert(str_views(base_leaves(6))[5] == label);
        lemma_leaf_in_all(label, 6, 0);
    } else if k == 9 {
        assert(str_views(base_leaves(6))[7] == label);
        lemma_leaf_in_all(label, 6, 0);
    } else if k == 10 {
        assert(str_views(base_leaves(6))[9] == label);
        lemma_leaf_in_all(label, 6, 0);
    } else if k == 11 {
        assert(str_views(base_leaves(6))[10] == label);
        lemma_leaf_in_all(label, 6, 0);
    } else if k == 12 {
        assert(str_views(base_leaves(6))[16] == label);
        lemma_leaf_in_all(label, 6, 0);
    } else if k == 13 {
        assert(str_views(base_leaves(6))[17] == label);
        lemma_leaf_in_all(label, 6, 0);
    } else if k == 14 {
        assert(str_views(base_leaves(6))[19] == label);
        lemma_leaf_in_all(label, 6, 0);
    } else if k == 15 {
        assert(str_views(base_leaves(6))[20] == label);
        lemma_leaf_in_all(label, 6, 0);
    } else if k == 16 {
        assert(str_views(base_leaves(6))[21] == label);
        lemma_leaf_in_all(label, 6, 0);
    } else if k == 17 {
        assert(str_views(base_leaves(6))[22] == label);
        lemma_leaf_in_all(label, 6, 0);
    } else if k == 18 {
        assert(str_views(base_leaves(5))[29] == label);
        lemma_leaf_in_all(label, 5, 0);
    } else if k == 19 {
        assert(str_views(base_leaves(5))[30] == label);
        lemma_leaf_in_all(label, 5, 0);
    } else if k == 20 {
        assert(str_views(base_leaves(6))[23] == label);
        lemma_leaf_in_all(label, 6, 0);
    } else if k == 21 {
        assert(str_views(base_leaves(6))[27] == label);
        lemma_leaf_in_all(label, 6, 0);
    } else if k == 22 {
        assert(str_views(base_leaves(6))[28] == label);
        lemma_leaf_in_all(label, 6, 0);
    } else if k == 23 {
        assert(str_views(base_leaves(6))[30] == label);
        lemma_leaf_in_all(label, 6, 0);
    } else if k == 24 {
        assert(str_views(base_leaves(5))[38] == label);
        lemma_leaf_in_all(label, 5, 0);
    } else if k == 25 {
        assert(str_views(base_leaves(6))[31] == label);
        lemma_leaf_in_all(label, 6, 0);
    } else if k == 26 {
        assert(str_views(base_leaves(6))[32] == label);
        lemma_leaf_in_all(label, 6, 0);
    } else if k == 27 {
        assert(str_views(base_leaves(6))[33] == label);
        lemma_leaf_in_all(label, 6, 0);
    } else if k == 28 {
        assert(str_views(base_leaves(6))[34] == label);
        lemma_leaf_in_all(label, 6, 0);
    } else if k == 29 {
        assert(str_views(base_leaves(6))[35] == label);
        lemma_leaf_in_all(label, 6, 0);
    }
}

proof fn lemma_plant_leaves_are_leaves(k: int)
    requires
        0 <= k < 20,
    ensures
        str_views(all_leaves_from(0)).contains(PHOTO_PLANT_LEAVES@[k]@),
{
    let label = PHOTO_PLANT_LEAVES@[k]@;
    if k == 0 {
        assert(str_views(base_leaves(9))[3] == label);
        lemma_leaf_in_all(label, 9, 0);
    } else if k == 1 {
        assert(str_views(base_leaves(9))[5] == label);
        lemma_leaf_in_all(label, 9, 0);
    } else if k == 2 {
        assert(str_views(base_leaves(9))[8] == label);
        lemma_leaf_in_all(label, 9, 0);
    } else if k == 3 {
        assert(str_views(base_leaves(9))[11] == label);
        lemma_leaf_in_all(label, 9, 0);
    } else if k == 4 {
        assert(str_views(base_leaves(9))[14] == label);
        lemma_leaf_in_all(label, 9, 0);
    } else if k == 5 {
        assert(str_views(base_leaves(9))[15] == label);
        lemma_leaf_in_all(label, 9, 0);
    } else if k == 6 {
        assert(str_views(base_leaves(9))[16] == label);
        lemma_leaf_in_all(label, 9, 0);
    } else if k == 7 {
        assert(str_views(base_leaves(9))[17] == label);
        lemma_leaf_in_all(label, 9, 0);
    } else if k == 8 {
        assert(str_views(base_leaves(9))[19] == label);
        lemma_leaf_in_all(label, 9, 0);
    } else if k == 9 {
        assert(str_views(base_leaves(9))[20] == label);
        lemma_leaf_in_all(label, 9, 0);
    } else if k == 10 {
        assert(str_views(base_leaves(9))[22] == label);
        lemma_leaf_in_all(label, 9, 0);
    } else if k == 11 {
        assert(str_views(base_leaves(9))[24] == label);
        lemma_leaf_in_all(label, 9, 0);
    } else if k == 12 {
        assert(str_views(base_leaves(9))[27] == label);
        lemma_leaf_in_all(label, 9, 0);
    } else if k == 13 {
        assert(str_views(base_leaves(9))[28] == label);
        lemma_leaf_in_all(label, 9, 0);
    } else if k == 14 {
        assert(str_views(base_leaves(9))[31] == label);
        lemma_leaf_in_all(label, 9, 0);
    } else if k == 15 {
        assert(str_views(base_leaves(9))[32] == label);
        lemma_leaf_in_all(label, 9, 0);
    } else if k == 16 {
        assert(str_views(base_leaves(9))[34] == label);
        lemma_leaf_in_all(label, 9, 0);
    } else if k == 17 {
        assert(str_views(base_leaves(9))[35] == label);
        lemma_leaf_in_all(label, 9, 0);
    } else if k == 18 {
        assert(str_views(base_leaves(9))[36] == label);
        lemma_leaf_in_all(label, 9, 0);
    } else if k == 19 {
        assert(str_views(base_leaves(9))[38] == label);
        lemma_leaf_in_all(label, 9, 0);
    }
}

/// A label has a photography topic only where it is a Places365 leaf
/// label; the food, travel and plant redirections name leaves too.
pub proof fn lemma_topics_come_from_leaves(label: Seq<char>)
    ensures
        spec_photo_cluster_id(label) is Some ==> str_views(all_leaves_from(0)).contains(label),
{
    if str_views(PHOTO_FOOD_LEAVES@).contains(label) {
        let k = choose|k: int| 0 <= k < str_views(PHOTO_FOOD_LEAVES@).len() && str_views(PHOTO_FOOD_LEAVES@)[k] == label;
        lemma_food_leaves_are_leaves(k);
    } else if str_views(PHOTO_TRAVEL_LEAVES@).contains(label) {
        let k = choose|k: int| 0 <= k < str_views(PHOTO_TRAVEL_LEAVES@).len() && str_views(PHOTO_TRAVEL_LEAVES@)[k] == label;
        lemma_travel_leaves_are_leaves(k);
    } else if str_views(PHOTO_PLANT_LEAVES@).contains(label) {
        let k = choose|k: int| 0 <= k < str_views(PHOTO_PLANT_LEAVES@).len() && str_views(PHOTO_PLANT_LEAVES@)[k] == label;
        lemma_plant_leaves_are_leaves(k);
    } else if spec_base_cluster_id(label) is Some {
        lemma_first_base_from_range(label, 0);
        lemma_first_base_is_first(label, 0);
        let i = first_base_from(label, 0)->0;
        lemma_leaf_in_all(label, i, 0);
    }
}

proof fn lemma_first_base_is_first(label: Seq<char>, j: int)
    requires
        0 <= j,
    ensures
        first_base_from(label, j) matches Some(i) ==> str_views(base_leaves(i)).contains(label),
    decreases 10 - j,
{
    if j < 10 && !str_views(base_leaves(j)).contains(label) {
        lemma_first_base_is_first(label, j + 1);
    }
}

/// A leaf that is not redirected to food, travel or plant takes the
/// photography topic of its scene group: nature and agriculture give
/// landscape; urban, urban; architecture, architecture; commerce,
/// commercial; residential and public places, indoor; transport,
/// transport; sports, event; industrial, documentary.
pub proof fn lemma_group_topics(label: Seq<char>)
    requires
        !str_views(PHOTO_FOOD_LEAVES@).contains(label),
        !str_views(PHOTO_TRAVEL_LEAVES@).contains(label),
        !str_views(PHOTO_PLANT_LEAVES@).contains(label),
    ensures
        spec_base_cluster_id(label) == Some("scene_nature"@) ==> spec_photo_cluster_id(label) == Some("photo_landscape"@),
        spec_base_cluster_id(label) == Some("scene_urban"@) ==> spec_photo_cluster_id(label) == Some("photo_urban"@),
        spec_base_cluster_id(label) == Some("scene_architecture"@) ==> spec_photo_cluster_id(label) == Some("photo_architecture"@),
        spec_base_cluster_id(label) == Some("scene_commerce"@) ==> spec_photo_cluster_id(label) == Some("photo_commercial"@),
        spec_base_cluster_id(label) == Some("scene_residential"@) ==> spec_photo_cluster_id(label) == Some("photo_indoor"@),
        spec_base_cluster_id(label) == Some("scene_public"@) ==> spec_photo_cluster_id(label) == Some("photo_indoor"@),
        spec_base_cluster_id(label) == Some("scene_transport"@) ==> spec_photo_cluster_id(label) == Some("photo_transport"@),
        spec_base_cluster_id(label) == Some("scene_sports"@) ==> spec_photo_cluster_id(label) == Some("photo_event"@),
        spec_base_cluster_id(label) == Some("scene_industrial"@) ==> spec_photo_cluster_id(label) == Some("photo_documentary"@),
        spec_base_cluster_id(label) == Some("scene_agriculture"@) ==> spec_photo_cluster_id(label) == Some("photo_landscape"@),
{
    reveal_strlit("scene_nature");
    reveal_strlit("scene_urban");
    reveal_strlit("scene_architecture");
    reveal_strlit("scene_commerce");
    reveal_strlit("scene_residential");
    reveal_strlit("scene_public");
    reveal_strlit("scene_transport");
    reveal_strlit("scene_sports");
    reveal_strlit("scene_industrial");
    reveal_strlit("scene_agriculture");
    assert("scene_nature"@.len() == 12);
    assert("scene_urban"@.len() == 11);
    assert("scene_architecture"@.len() == 18);
    assert("scene_commerce"@.len() == 14);
    assert("scene_residential"@.len() == 17);
    assert("scene_public"@.len() == 12);
    assert("scene_transport"@.len() == 15);
    assert("scene_sports"@.len() == 12);
    assert("scene_industrial"@.len() == 16);
    assert("scene_agriculture"@.len() == 17);
    assert("scene_urban"@[6] == 'u' && "scene_sports"@[6] == 's');
    assert("scene_public"@[6] == 'p' && "scene_sports"@[7] == 'p');
    assert("scene_residential"@[6] == 'r' && "scene_agriculture"@[6] == 'a');
}

} // verus!
