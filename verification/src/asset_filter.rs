//! The SQL condition of an asset query: the query's scope, then every
//! filter it sets, joined with `AND`, and what each placeholder binds.
//! Numbers that are reals (brightness and saturation bounds, the hue match
//! threshold, the smallest main-colour area) are named by their slot and
//! bound by the caller.
use vstd::prelude::*;

use crate::classification::{
    FIELD_DOMINANT_COLOR_CATEGORY, FIELD_PRIMARY_CATEGORY, FIELD_SATURATION_LEVEL, FIELD_TONE,
};
use crate::db::{
    active_semantic_model_sql, effective_scalar_expression, escape_like, placeholders, sql_literal,
    spec_active_semantic_model_sql, spec_effective_scalar_expression, spec_escape_like,
    spec_placeholders, spec_sql_literal,
};
use crate::models::SemanticMatchMode;
use crate::places365::TAXONOMY_VERSION;
use crate::text::{chars_of, concat, concat3, str_eq, string_views, trim_spec, trim_string};

verus! {

pub const SCOPE_ALL: &'static str = "1=1";
pub const SCOPE_SOURCE: &'static str = "a.library_id=?";
pub const SCOPE_SOURCE_TREE: &'static str = "a.library_id IN (
                        WITH RECURSIVE library_scope(library_id) AS (
                            SELECT id FROM libraries WHERE id=?
                            UNION
                            SELECT child.id
                            FROM libraries child
                            JOIN library_scope scope
                              ON child.parent_library_id=scope.library_id
                             AND child.parent_relation='source'
                        )
                        SELECT library_id FROM library_scope
                    )";
pub const SCOPE_COLLECTION: &'static str = "EXISTS(
                        SELECT 1 FROM collection_assets membership
                        WHERE membership.collection_id=?
                          AND membership.asset_id=a.id
                    )";
pub const SCOPE_COLLECTION_TREE: &'static str = "EXISTS(
                        WITH RECURSIVE collection_scope(collection_id) AS (
                            SELECT id FROM collections WHERE id=?
                            UNION
                            SELECT child.id
                            FROM collections child
                            JOIN collection_scope parent
                              ON child.parent_collection_id=parent.collection_id
                        )
                        SELECT 1
                        FROM collection_assets membership
                        JOIN collection_scope scope
                          ON scope.collection_id=membership.collection_id
                        WHERE membership.asset_id=a.id
                    )";
pub const SCOPE_FAVORITES: &'static str = "EXISTS(
                SELECT 1
                FROM collection_assets favorite_membership
                JOIN collections favorite_collection
                  ON favorite_collection.id=favorite_membership.collection_id
                WHERE favorite_collection.system_key='default_favorites'
                  AND favorite_membership.asset_id=a.id
            )";
pub const FAVORITE_ONLY: &'static str = "EXISTS(
                SELECT 1 FROM collection_assets favorite_membership
                JOIN collections favorite_collection
                  ON favorite_collection.id=favorite_membership.collection_id
                WHERE favorite_collection.system_key='default_favorites'
                  AND favorite_membership.asset_id=a.id
            )";
pub const COLLECTION_FILTER: &'static str = "EXISTS(SELECT 1 FROM collection_assets source_collection
                    WHERE source_collection.collection_id=? AND source_collection.asset_id=a.id)";
pub const SEARCH_FILTER: &'static str = "(a.file_name LIKE ? ESCAPE '\\' OR a.relative_path LIKE ? ESCAPE '\\')";
pub const PRIMARY_0: &'static str = "CASE WHEN a.semantic_status='completed' AND NOT EXISTS(
                         SELECT 1 FROM semantic_labels current_scene
                         WHERE current_scene.asset_id=a.id
                           AND current_scene.source_fingerprint=a.fingerprint
                           AND current_scene.is_manual=0 AND current_scene.is_primary=1
                           AND current_scene.model_name=";
pub const PRIMARY_1: &'static str = "
                           AND current_scene.model_version=";
pub const PRIMARY_2: &'static str = "
                           AND current_scene.analysis_version=";
pub const PRIMARY_3: &'static str = "
                           AND current_scene.taxonomy_version=";
pub const PRIMARY_4: &'static str = "
                       ) THEN 'photo_abstract'
                       ELSE (SELECT sl.label FROM semantic_labels sl
                             WHERE sl.asset_id=a.id AND sl.source_fingerprint=a.fingerprint
                               AND sl.is_manual=0 AND sl.is_primary=1
                               AND sl.model_name=";
pub const PRIMARY_5: &'static str = " AND sl.model_version=";
pub const PRIMARY_6: &'static str = "
                               AND sl.analysis_version=";
pub const PRIMARY_7: &'static str = "
                               AND sl.taxonomy_version=";
pub const PRIMARY_8: &'static str = "
                             ORDER BY sl.similarity DESC, sl.label ASC LIMIT 1)
                  END";
pub const TAG_0: &'static str = "(EXISTS(SELECT 1 FROM manual_tag_overrides add_tag
                            WHERE add_tag.asset_id=a.id AND add_tag.tag_id=? AND add_tag.state='add')
                     OR ((EXISTS(SELECT 1 FROM semantic_labels sl
                                  WHERE sl.asset_id=a.id AND sl.source_fingerprint=a.fingerprint
                                    AND sl.is_manual=0 AND sl.is_primary=0
                                    AND sl.model_name=";
pub const TAG_1: &'static str = " AND sl.model_version=";
pub const TAG_2: &'static str = "
                                    AND sl.analysis_version=";
pub const TAG_3: &'static str = "
                                    AND sl.taxonomy_version=";
pub const TAG_4: &'static str = " AND sl.label=?)
                            OR EXISTS(SELECT 1 FROM subject_labels subject
                                      WHERE subject.asset_id=a.id
                                        AND subject.source_fingerprint=a.fingerprint
                                        AND subject.model_name=";
pub const TAG_5: &'static str = "
                                        AND subject.model_version=";
pub const TAG_6: &'static str = "
                                        AND subject.analysis_version=";
pub const TAG_7: &'static str = "
                                        AND subject.taxonomy_version=";
pub const TAG_8: &'static str = "
                                        AND subject.label=?))
                         AND NOT EXISTS(SELECT 1 FROM manual_tag_overrides remove_tag
                                        WHERE remove_tag.asset_id=a.id AND remove_tag.tag_id=?
                                           AND remove_tag.state='remove')))";
pub const PALETTE_0: &'static str = "EXISTS(SELECT 1 FROM json_each(
            COALESCE(
                (SELECT mco.value_json FROM manual_classification_overrides mco
                 WHERE mco.asset_id=a.id AND mco.field='";
pub const PALETTE_1: &'static str = "'),
                CASE
                    WHEN json_type(cf.dominant_colors_json, '$.coveragePalette')='array'
                         AND json_array_length(cf.dominant_colors_json, '$.coveragePalette') > 0
                    THEN json_extract(cf.dominant_colors_json, '$.coveragePalette')
                    ELSE json_array(cf.dominant_color_category)
                END
            )
        ) palette WHERE CASE
            WHEN palette.type='object' THEN json_extract(palette.value, '$.category')
            ELSE palette.value
        END IN (";
pub const PALETTE_2: &'static str = ")
        AND (palette.type <> 'object'
             OR COALESCE(CAST(json_extract(palette.value, '$.areaCoverage') AS REAL), 1.0) >= ?))";
pub const HUE_0: &'static str = "(SELECT COALESCE(SUM(CASE WHEN CAST(selected_hue.key AS INTEGER) IN (";
pub const HUE_1: &'static str = ")\n                                  THEN CAST(selected_hue.value AS REAL) ELSE 0 END), 0.0)\n          FROM json_each(COALESCE(cf.hue_histogram_json, '[]')) selected_hue)\n         >= ? *\n        (SELECT COALESCE(SUM(CAST(all_hue.value AS REAL)), 0.0)\n          FROM json_each(COALESCE(cf.hue_histogram_json, '[]')) all_hue)\n       AND (SELECT COALESCE(SUM(CAST(non_empty_hue.value AS REAL)), 0.0)\n          FROM json_each(COALESCE(cf.hue_histogram_json, '[]')) non_empty_hue) > 0";

/// Where the assets of a query come from.
#[derive(Debug, Clone, Copy, PartialEq, Eq, Structural)]
pub enum QueryRoot {
    All,
    Source(i64),
    Collection(i64),
    Favorites,
}

/// What an asset query filters on, as plain values: labels and tags are
/// canonical ids; of the numeric bounds only whether each is given (a finite
/// number the caller binds); of the hue range, the hue bins it covers.
#[derive(Debug, Clone, PartialEq, Eq)]
pub struct AssetFilterShape {
    pub root: QueryRoot,
    pub include_descendants: bool,
    pub favorite_only: bool,
    pub collection_id: Option<i64>,
    pub search: Option<String>,
    pub primary_categories: Vec<String>,
    pub auxiliary_tags: Vec<String>,
    pub semantic_match: SemanticMatchMode,
    pub tone_labels: Vec<String>,
    pub color_categories: Vec<String>,
    pub hue_bins: Vec<u64>,
    pub ratings: Vec<i64>,
    pub color_labels: Vec<String>,
    pub saturation_levels: Vec<String>,
    pub brightness_min: bool,
    pub brightness_max: bool,
    pub saturation_min: bool,
    pub saturation_max: bool,
    pub captured_from: Option<String>,
    pub captured_to: Option<String>,
    pub analysis_status: Option<String>,
}

/// The names and versions of the models whose results a query reads: the
/// scene model (the fallback when no model is active) and the subject model.
#[derive(Debug, Clone, PartialEq, Eq)]
pub struct ModelVersions {
    pub semantic_name: String,
    pub semantic_version: String,
    pub semantic_analysis_version: String,
    pub subject_name: String,
    pub subject_version: String,
    pub subject_analysis_version: String,
    pub subject_taxonomy_version: String,
}

/// What is bound at a placeholder of the filter.
#[derive(Debug, Clone, PartialEq, Eq)]
pub enum BindSlot {
    Integer(i64),
    Text(String),
    HueBin(u64),
    /// The smallest area a main colour covers.
    MinColorArea,
    /// The share of the hue histogram the selected bins must hold.
    HueThreshold,
    BrightnessMin,
    BrightnessMax,
    SaturationMin,
    SaturationMax,
}

/// A bind slot as a mathematical value.
pub enum SlotSpec {
    Integer(i64),
    Text(Seq<char>),
    HueBin(u64),
    MinColorArea,
    HueThreshold,
    BrightnessMin,
    BrightnessMax,
    SaturationMin,
    SaturationMax,
}

pub open spec fn slot_view(b: BindSlot) -> SlotSpec {
    match b {
        BindSlot::Integer(n) => SlotSpec::Integer(n),
        BindSlot::Text(t) => SlotSpec::Text(t@),
        BindSlot::HueBin(n) => SlotSpec::HueBin(n),
        BindSlot::MinColorArea => SlotSpec::MinColorArea,
        BindSlot::HueThreshold => SlotSpec::HueThreshold,
        BindSlot::BrightnessMin => SlotSpec::BrightnessMin,
        BindSlot::BrightnessMax => SlotSpec::BrightnessMax,
        BindSlot::SaturationMin => SlotSpec::SaturationMin,
        BindSlot::SaturationMax => SlotSpec::SaturationMax,
    }
}

pub open spec fn slot_views(s: Seq<BindSlot>) -> Seq<SlotSpec> {
    s.map_values(|b: BindSlot| slot_view(b))
}

/// One clause of the filter with what its placeholders bind.
pub type Part = (Seq<char>, Seq<SlotSpec>);

pub open spec fn part_view(o: Option<(String, Vec<BindSlot>)>) -> Option<Part> {
    match o {
        Some(p) => Some((p.0@, slot_views(p.1@))),
        None => None,
    }
}

pub open spec fn push_opt(parts: Seq<Part>, o: Option<Part>) -> Seq<Part> {
    match o {
        Some(p) => parts.push(p),
        None => parts,
    }
}

pub open spec fn part_texts(parts: Seq<Part>) -> Seq<Seq<char>> {
    parts.map_values(|p: Part| p.0)
}

pub open spec fn part_slots(parts: Seq<Part>) -> Seq<SlotSpec>
    decreases parts.len(),
{
    if parts.len() == 0 {
        Seq::empty()
    } else {
        part_slots(parts.drop_last()) + parts.last().1
    }
}

/// The texts joined with `sep` between them.
pub open spec fn join_with(texts: Seq<Seq<char>>, sep: Seq<char>) -> Seq<char>
    decreases texts.len(),
{
    if texts.len() == 0 {
        Seq::empty()
    } else if texts.len() == 1 {
        texts[0]
    } else {
        join_with(texts.drop_last(), sep) + sep + texts.last()
    }
}

/// `n` copies of `text` joined with `sep`.
pub open spec fn repeat_join(text: Seq<char>, n: nat, sep: Seq<char>) -> Seq<char>
    decreases n,
{
    if n == 0 {
        Seq::empty()
    } else if n == 1 {
        text
    } else {
        repeat_join(text, (n - 1) as nat, sep) + sep + text
    }
}

pub open spec fn text_slots(list: Seq<String>) -> Seq<SlotSpec> {
    list.map_values(|s: String| SlotSpec::Text(s@))
}

/// Every tag bound four times in a row, tag after tag.
pub open spec fn tag_slots(list: Seq<String>) -> Seq<SlotSpec>
    decreases list.len(),
{
    if list.len() == 0 {
        Seq::empty()
    } else {
        let t = SlotSpec::Text(list.last()@);
        tag_slots(list.drop_last()) + seq![t, t, t, t]
    }
}

/// The largest of a non-empty list.
pub open spec fn seq_max(s: Seq<i64>) -> i64
    decreases s.len(),
{
    if s.len() <= 1 {
        s[0]
    } else if seq_max(s.drop_last()) >= s.last() {
        seq_max(s.drop_last())
    } else {
        s.last()
    }
}

/// The number of bytes of a text in UTF-8.
pub open spec fn utf8_len(s: Seq<char>) -> nat
    decreases s.len(),
{
    if s.len() == 0 {
        0
    } else {
        let c = s.last() as u32;
        utf8_len(s.drop_last()) + if c < 0x80 {
            1nat
        } else if c < 0x800 {
            2nat
        } else if c < 0x10000 {
            3nat
        } else {
            4nat
        }
    }
}

pub open spec fn in_clause(column: Seq<char>, n: nat) -> Seq<char> {
    column + " IN ("@ + spec_placeholders(n) + ")"@
}

pub open spec fn spec_scope_part(q: AssetFilterShape) -> Part {
    match q.root {
        QueryRoot::All => (SCOPE_ALL@, Seq::empty()),
        QueryRoot::Source(id) => (
            if q.include_descendants { SCOPE_SOURCE_TREE@ } else { SCOPE_SOURCE@ },
            seq![SlotSpec::Integer(id)],
        ),
        QueryRoot::Collection(id) => (
            if q.include_descendants { SCOPE_COLLECTION_TREE@ } else { SCOPE_COLLECTION@ },
            seq![SlotSpec::Integer(id)],
        ),
        QueryRoot::Favorites => (SCOPE_FAVORITES@, Seq::empty()),
    }
}

pub open spec fn spec_search_part(q: AssetFilterShape) -> Option<Part> {
    match q.search {
        Some(s) => if trim_spec(s@).len() > 0 {
            let pattern = "%"@ + spec_escape_like(trim_spec(s@)) + "%"@;
            Some((SEARCH_FILTER@, seq![SlotSpec::Text(pattern), SlotSpec::Text(pattern)]))
        } else {
            None
        },
        None => None,
    }
}

pub open spec fn model_sql(m: ModelVersions) -> (Seq<char>, Seq<char>, Seq<char>, Seq<char>) {
    (
        spec_active_semantic_model_sql("name"@, m.semantic_name@),
        spec_active_semantic_model_sql("version"@, m.semantic_version@),
        spec_active_semantic_model_sql("analysis_version"@, m.semantic_analysis_version@),
        spec_sql_literal(TAXONOMY_VERSION@),
    )
}

/// The automatic primary category of an asset in SQL.
pub open spec fn primary_expression(m: ModelVersions) -> Seq<char> {
    let (name, version, analysis, taxonomy) = model_sql(m);
    PRIMARY_0@ + name + PRIMARY_1@ + version + PRIMARY_2@ + analysis + PRIMARY_3@ + taxonomy
        + PRIMARY_4@ + name + PRIMARY_5@ + version + PRIMARY_6@ + analysis + PRIMARY_7@ + taxonomy
        + PRIMARY_8@
}

pub open spec fn spec_primary_part(q: AssetFilterShape, m: ModelVersions) -> Option<Part> {
    if q.primary_categories@.len() > 0 {
        Some((
            in_clause(
                spec_effective_scalar_expression(FIELD_PRIMARY_CATEGORY@, primary_expression(m)),
                q.primary_categories@.len(),
            ),
            text_slots(q.primary_categories@),
        ))
    } else {
        None
    }
}

/// Whether an asset carries one tag, manually or automatically, in SQL.
pub open spec fn tag_predicate(m: ModelVersions) -> Seq<char> {
    let (name, version, analysis, taxonomy) = model_sql(m);
    TAG_0@ + name + TAG_1@ + version + TAG_2@ + analysis + TAG_3@ + taxonomy + TAG_4@
        + spec_sql_literal(m.subject_name@) + TAG_5@ + spec_sql_literal(m.subject_version@) + TAG_6@
        + spec_sql_literal(m.subject_analysis_version@) + TAG_7@ + spec_sql_literal(
        m.subject_taxonomy_version@,
    ) + TAG_8@
}

pub open spec fn joiner(mode: SemanticMatchMode) -> Seq<char> {
    match mode {
        SemanticMatchMode::Any => " OR "@,
        SemanticMatchMode::All => " AND "@,
    }
}

pub open spec fn spec_tags_part(q: AssetFilterShape, m: ModelVersions) -> Option<Part> {
    if q.auxiliary_tags@.len() > 0 {
        Some((
            "("@ + repeat_join(tag_predicate(m), q.auxiliary_tags@.len(), joiner(q.semantic_match)) + ")"@,
            tag_slots(q.auxiliary_tags@),
        ))
    } else {
        None
    }
}

pub open spec fn spec_in_part(column: Seq<char>, list: Seq<String>) -> Option<Part> {
    if list.len() > 0 {
        Some((in_clause(column, list.len()), text_slots(list)))
    } else {
        None
    }
}

pub open spec fn spec_palette_part(q: AssetFilterShape) -> Option<Part> {
    if q.color_categories@.len() > 0 {
        Some((
            PALETTE_0@ + FIELD_DOMINANT_COLOR_CATEGORY@ + PALETTE_1@ + spec_placeholders(
                q.color_categories@.len(),
            ) + PALETTE_2@,
            text_slots(q.color_categories@).push(SlotSpec::MinColorArea),
        ))
    } else {
        None
    }
}

pub open spec fn spec_hue_part(q: AssetFilterShape) -> Option<Part> {
    if q.hue_bins@.len() > 0 {
        Some((
            HUE_0@ + spec_placeholders(q.hue_bins@.len()) + HUE_1@,
            q.hue_bins@.map_values(|b: u64| SlotSpec::HueBin(b)).push(SlotSpec::HueThreshold),
        ))
    } else {
        None
    }
}

pub open spec fn spec_rating_part(q: AssetFilterShape) -> Option<Part> {
    if q.ratings@.len() > 0 {
        Some(("a.rating >= ?"@, seq![SlotSpec::Integer(seq_max(q.ratings@))]))
    } else {
        None
    }
}

pub open spec fn bound_part(given: bool, clause: Seq<char>, slot: SlotSpec) -> Option<Part> {
    if given {
        Some((clause, seq![slot]))
    } else {
        None
    }
}

pub open spec fn spec_from_part(q: AssetFilterShape) -> Option<Part> {
    match q.captured_from {
        Some(v) => if v@.len() > 0 {
            Some(("a.capture_time>=?"@, seq![SlotSpec::Text(v@)]))
        } else {
            None
        },
        None => None,
    }
}

/// The end of a capture-time range: a bare date (ten bytes) means the end
/// of that day.
pub open spec fn range_end(v: Seq<char>) -> Seq<char> {
    if utf8_len(v) == 10 {
        v + "T23:59:59.999"@
    } else {
        v
    }
}

pub open spec fn spec_to_part(q: AssetFilterShape) -> Option<Part> {
    match q.captured_to {
        Some(v) => if v@.len() > 0 {
            Some(("a.capture_time<=?"@, seq![SlotSpec::Text(range_end(v@))]))
        } else {
            None
        },
        None => None,
    }
}

pub open spec fn spec_status_part(q: AssetFilterShape) -> Option<Part> {
    match q.analysis_status {
        Some(s) => if s@ == "not_analyzed"@ {
            Some(("a.semantic_status IN ('not_analyzed', 'queued', 'running')"@, Seq::empty()))
        } else if s@ == "failed"@ {
            Some(("a.semantic_status='failed'"@, Seq::empty()))
        } else if s@ == "completed"@ {
            Some(("a.semantic_status='completed'"@, Seq::empty()))
        } else {
            None
        },
        None => None,
    }
}

/// The clauses of an asset filter, in order, with what they bind.
pub open spec fn filter_parts(q: AssetFilterShape, m: ModelVersions) -> Seq<Part> {
    let p = seq![spec_scope_part(q)];
    let p = push_opt(p, if q.favorite_only { Some((FAVORITE_ONLY@, Seq::<SlotSpec>::empty())) } else { None });
    let p = push_opt(p, match q.collection_id {
        Some(id) => Some((COLLECTION_FILTER@, seq![SlotSpec::Integer(id)])),
        None => None,
    });
    let p = push_opt(p, spec_search_part(q));
    let p = push_opt(p, spec_primary_part(q, m));
    let p = push_opt(p, spec_tags_part(q, m));
    let p = push_opt(p, spec_in_part(spec_effective_scalar_expression(FIELD_TONE@, "tf.tone_label"@), q.tone_labels@));
    let p = push_opt(p, spec_palette_part(q));
    let p = push_opt(p, spec_hue_part(q));
    let p = push_opt(p, spec_rating_part(q));
    let p = push_opt(p, spec_in_part("a.color_label"@, q.color_labels@));
    let p = push_opt(p, spec_in_part(spec_effective_scalar_expression(FIELD_SATURATION_LEVEL@, "cf.saturation_label"@), q.saturation_levels@));
    let p = push_opt(p, bound_part(q.brightness_min, "tf.brightness_mean>=?"@, SlotSpec::BrightnessMin));
    let p = push_opt(p, bound_part(q.brightness_max, "tf.brightness_mean<=?"@, SlotSpec::BrightnessMax));
    let p = push_opt(p, bound_part(q.saturation_min, "cf.saturation_mean>=?"@, SlotSpec::SaturationMin));
    let p = push_opt(p, bound_part(q.saturation_max, "cf.saturation_mean<=?"@, SlotSpec::SaturationMax));
    let p = push_opt(p, spec_from_part(q));
    let p = push_opt(p, spec_to_part(q));
    push_opt(p, spec_status_part(q))
}

/// The SQL condition of an asset filter: its clauses joined with `AND`.
pub open spec fn spec_filter_sql(q: AssetFilterShape, m: ModelVersions) -> Seq<char> {
    join_with(part_texts(filter_parts(q, m)), " AND "@)
}

/// What the placeholders of the filter bind, in order.
pub open spec fn spec_bind_slots(q: AssetFilterShape, m: ModelVersions) -> Seq<SlotSpec> {
    part_slots(filter_parts(q, m))
}

fn text_bindings(list: &Vec<String>) -> (r: Vec<BindSlot>)
    ensures
        slot_views(r@) == text_slots(list@),
{
    let mut r: Vec<BindSlot> = Vec::new();
    let mut i: usize = 0;
    while i < list.len()
        invariant
            i <= list@.len(),
            slot_views(r@) == text_slots(list@.take(i as int)),
        decreases list@.len() - i,
    {
        let ghost before = r@;
        r.push(BindSlot::Text(list[i].clone()));
        assert(slot_views(r@) =~= slot_views(before).push(SlotSpec::Text(list@[i as int]@)));
        assert(text_slots(list@.take(i + 1)) =~= text_slots(list@.take(i as int)).push(
            SlotSpec::Text(list@[i as int]@),
        ));
        i += 1;
    }
    assert(list@.take(list@.len() as int) =~= list@);
    r
}

fn tag_bindings(list: &Vec<String>) -> (r: Vec<BindSlot>)
    ensures
        slot_views(r@) == tag_slots(list@),
{
    let mut r: Vec<BindSlot> = Vec::new();
    let mut i: usize = 0;
    assert(list@.take(0) =~= Seq::<String>::empty());
    while i < list.len()
        invariant
            i <= list@.len(),
            slot_views(r@) == tag_slots(list@.take(i as int)),
        decreases list@.len() - i,
    {
        let ghost before = r@;
        r.push(BindSlot::Text(list[i].clone()));
        r.push(BindSlot::Text(list[i].clone()));
        r.push(BindSlot::Text(list[i].clone()));
        r.push(BindSlot::Text(list[i].clone()));
        i += 1;
        assert(list@.take(i as int).drop_last() =~= list@.take(i - 1));
        assert(slot_views(r@) =~= slot_views(before) + seq![
            SlotSpec::Text(list@[i - 1]@),
            SlotSpec::Text(list@[i - 1]@),
            SlotSpec::Text(list@[i - 1]@),
            SlotSpec::Text(list@[i - 1]@),
        ]);
    }
    assert(list@.take(list@.len() as int) =~= list@);
    r
}

fn in_clause_text(column: &str, n: usize) -> (r: String)
    ensures
        r@ == in_clause(column@, n as nat),
{
    let head = concat(column, " IN (");
    concat3(head.as_str(), placeholders(n).as_str(), ")")
}

/// The scope of an asset query in SQL and what it binds: everything; one
/// library (with the libraries imported below it where descendants are
/// included); one collection (with its child collections likewise); or
/// the favorites.
pub fn asset_query_scope_sql(q: &AssetFilterShape) -> (r: (String, Vec<BindSlot>))
    ensures
        (r.0@, slot_views(r.1@)) == spec_scope_part(*q),
{
    match q.root {
        QueryRoot::All => {
            let r = (SCOPE_ALL.to_owned(), Vec::new());
            assert(slot_views(r.1@) =~= Seq::<SlotSpec>::empty());
            r
        },
        QueryRoot::Source(id) => {
            let text = if q.include_descendants { SCOPE_SOURCE_TREE } else { SCOPE_SOURCE };
            let r = (text.to_owned(), vec![BindSlot::Integer(id)]);
            assert(slot_views(r.1@) =~= seq![SlotSpec::Integer(id)]);
            r
        },
        QueryRoot::Collection(id) => {
            let text = if q.include_descendants { SCOPE_COLLECTION_TREE } else { SCOPE_COLLECTION };
            let r = (text.to_owned(), vec![BindSlot::Integer(id)]);
            assert(slot_views(r.1@) =~= seq![SlotSpec::Integer(id)]);
            r
        },
        QueryRoot::Favorites => {
            let r = (SCOPE_FAVORITES.to_owned(), Vec::new());
            assert(slot_views(r.1@) =~= Seq::<SlotSpec>::empty());
            r
        },
    }
}

fn single(text: &str, slot: BindSlot) -> (r: Option<(String, Vec<BindSlot>)>)
    ensures
        part_view(r) == Some((text@, seq![slot_view(slot)])),
{
    let r = (text.to_owned(), vec![slot]);
    assert(slot_views(r.1@) =~= seq![slot_view(slot)]);
    Some(r)
}

fn bare(text: &str) -> (r: Option<(String, Vec<BindSlot>)>)
    ensures
        part_view(r) == Some((text@, Seq::<SlotSpec>::empty())),
{
    let r = (text.to_owned(), Vec::new());
    assert(slot_views(r.1@) =~= Seq::<SlotSpec>::empty());
    Some(r)
}

fn search_part(q: &AssetFilterShape) -> (r: Option<(String, Vec<BindSlot>)>)
    ensures
        part_view(r) == spec_search_part(*q),
{
    match &q.search {
        Some(s) => {
            let trimmed = trim_string(s.as_str());
            if trimmed.as_str().is_empty() {
                None
            } else {
                let pattern = concat3("%", escape_like(trimmed.as_str()).as_str(), "%");
                let r = (SEARCH_FILTER.to_owned(), vec![BindSlot::Text(pattern.clone()), BindSlot::Text(pattern)]);
                assert(slot_views(r.1@) =~= seq![SlotSpec::Text(pattern@), SlotSpec::Text(pattern@)]);
                Some(r)
            }
        },
        None => None,
    }
}

fn model_texts(m: &ModelVersions) -> (r: (String, String, String, String))
    ensures
        (r.0@, r.1@, r.2@, r.3@) == model_sql(*m),
{
    (
        active_semantic_model_sql("name", m.semantic_name.as_str()),
        active_semantic_model_sql("version", m.semantic_version.as_str()),
        active_semantic_model_sql("analysis_version", m.semantic_analysis_version.as_str()),
        sql_literal(TAXONOMY_VERSION),
    )
}

fn primary_part(q: &AssetFilterShape, m: &ModelVersions) -> (r: Option<(String, Vec<BindSlot>)>)
    ensures
        part_view(r) == spec_primary_part(*q, *m),
{
    if q.primary_categories.len() == 0 {
        return None;
    }
    let (name, version, analysis, taxonomy) = model_texts(m);
    let e = concat(PRIMARY_0, name.as_str());
    let e = concat3(e.as_str(), PRIMARY_1, version.as_str());
    let e = concat3(e.as_str(), PRIMARY_2, analysis.as_str());
    let e = concat3(e.as_str(), PRIMARY_3, taxonomy.as_str());
    let e = concat3(e.as_str(), PRIMARY_4, name.as_str());
    let e = concat3(e.as_str(), PRIMARY_5, version.as_str());
    let e = concat3(e.as_str(), PRIMARY_6, analysis.as_str());
    let e = concat3(e.as_str(), PRIMARY_7, taxonomy.as_str());
    let e = concat(e.as_str(), PRIMARY_8);
    assert(e@ == primary_expression(*m));
    let column = effective_scalar_expression(FIELD_PRIMARY_CATEGORY, e.as_str());
    let text = in_clause_text(column.as_str(), q.primary_categories.len());
    Some((text, text_bindings(&q.primary_categories)))
}

fn tags_part(q: &AssetFilterShape, m: &ModelVersions) -> (r: Option<(String, Vec<BindSlot>)>)
    ensures
        part_view(r) == spec_tags_part(*q, *m),
{
    if q.auxiliary_tags.len() == 0 {
        return None;
    }
    let (name, version, analysis, taxonomy) = model_texts(m);
    let e = concat(TAG_0, name.as_str());
    let e = concat3(e.as_str(), TAG_1, version.as_str());
    let e = concat3(e.as_str(), TAG_2, analysis.as_str());
    let e = concat3(e.as_str(), TAG_3, taxonomy.as_str());
    let e = concat3(e.as_str(), TAG_4, sql_literal(m.subject_name.as_str()).as_str());
    let e = concat3(e.as_str(), TAG_5, sql_literal(m.subject_version.as_str()).as_str());
    let e = concat3(e.as_str(), TAG_6, sql_literal(m.subject_analysis_version.as_str()).as_str());
    let e = concat3(e.as_str(), TAG_7, sql_literal(m.subject_taxonomy_version.as_str()).as_str());
    let predicate = concat(e.as_str(), TAG_8);
    assert(predicate@ == tag_predicate(*m));
    let sep = match q.semantic_match {
        SemanticMatchMode::Any => " OR ",
        SemanticMatchMode::All => " AND ",
    };
    let mut joined = predicate.clone();
    let mut k: usize = 1;
    while k < q.auxiliary_tags.len()
        invariant
            1 <= k <= q.auxiliary_tags@.len(),
            sep@ == joiner(q.semantic_match),
            predicate@ == tag_predicate(*m),
            joined@ == repeat_join(predicate@, k as nat, sep@),
        decreases q.auxiliary_tags@.len() - k,
    {
        joined = concat3(joined.as_str(), sep, predicate.as_str());
        k += 1;
    }
    let text = concat3("(", joined.as_str(), ")");
    Some((text, tag_bindings(&q.auxiliary_tags)))
}

fn in_part(column: &str, list: &Vec<String>) -> (r: Option<(String, Vec<BindSlot>)>)
    ensures
        part_view(r) == spec_in_part(column@, list@),
{
    if list.len() == 0 {
        None
    } else {
        Some((in_clause_text(column, list.len()), text_bindings(list)))
    }
}

fn palette_part(q: &AssetFilterShape) -> (r: Option<(String, Vec<BindSlot>)>)
    ensures
        part_view(r) == spec_palette_part(*q),
{
    if q.color_categories.len() == 0 {
        return None;
    }
    let e = concat3(PALETTE_0, FIELD_DOMINANT_COLOR_CATEGORY, PALETTE_1);
    let text = concat3(e.as_str(), placeholders(q.color_categories.len()).as_str(), PALETTE_2);
    let mut slots = text_bindings(&q.color_categories);
    let ghost before = slots@;
    slots.push(BindSlot::MinColorArea);
    assert(slot_views(slots@) =~= slot_views(before).push(SlotSpec::MinColorArea));
    Some((text, slots))
}

fn hue_part(q: &AssetFilterShape) -> (r: Option<(String, Vec<BindSlot>)>)
    ensures
        part_view(r) == spec_hue_part(*q),
{
    if q.hue_bins.len() == 0 {
        return None;
    }
    let text = concat3(HUE_0, placeholders(q.hue_bins.len()).as_str(), HUE_1);
    let mut slots: Vec<BindSlot> = Vec::new();
    let mut i: usize = 0;
    while i < q.hue_bins.len()
        invariant
            i <= q.hue_bins@.len(),
            slot_views(slots@) == q.hue_bins@.take(i as int).map_values(|b: u64| SlotSpec::HueBin(b)),
        decreases q.hue_bins@.len() - i,
    {
        let ghost before = slots@;
        slots.push(BindSlot::HueBin(q.hue_bins[i]));
        assert(slot_views(slots@) =~= slot_views(before).push(SlotSpec::HueBin(q.hue_bins@[i as int])));
        assert(q.hue_bins@.take(i + 1).map_values(|b: u64| SlotSpec::HueBin(b)) =~= q.hue_bins@.take(
            i as int,
        ).map_values(|b: u64| SlotSpec::HueBin(b)).push(SlotSpec::HueBin(q.hue_bins@[i as int])));
        i += 1;
    }
    assert(q.hue_bins@.take(q.hue_bins@.len() as int) =~= q.hue_bins@);
    let ghost before = slots@;
    slots.push(BindSlot::HueThreshold);
    assert(slot_views(slots@) =~= slot_views(before).push(SlotSpec::HueThreshold));
    Some((text, slots))
}

fn rating_part(q: &AssetFilterShape) -> (r: Option<(String, Vec<BindSlot>)>)
    ensures
        part_view(r) == spec_rating_part(*q),
{
    if q.ratings.len() == 0 {
        return None;
    }
    let mut best = q.ratings[0];
    let mut i: usize = 1;
    assert(q.ratings@.take(1).len() == 1);
    while i < q.ratings.len()
        invariant
            1 <= i <= q.ratings@.len(),
            best == seq_max(q.ratings@.take(i as int)),
        decreases q.ratings@.len() - i,
    {
        assert(q.ratings@.take(i + 1).drop_last() =~= q.ratings@.take(i as int));
        if q.ratings[i] > best {
            best = q.ratings[i];
        }
        i += 1;
    }
    assert(q.ratings@.take(q.ratings@.len() as int) =~= q.ratings@);
    single("a.rating >= ?", BindSlot::Integer(best))
}

fn bound(given: bool, clause: &str, slot: BindSlot) -> (r: Option<(String, Vec<BindSlot>)>)
    ensures
        part_view(r) == bound_part(given, clause@, slot_view(slot)),
{
    if given {
        single(clause, slot)
    } else {
        None
    }
}

fn text_utf8_len(s: &str) -> (r: usize)
    ensures
        r == utf8_len(s@) || (utf8_len(s@) > usize::MAX && r == usize::MAX),
{
    let cs = chars_of(s);
    let mut n: usize = 0;
    let mut i: usize = 0;
    let mut capped = false;
    while i < cs.len()
        invariant
            i <= cs@.len(),
            cs@ == s@,
            !capped ==> n == utf8_len(cs@.take(i as int)),
            capped ==> utf8_len(cs@.take(i as int)) > usize::MAX && n == usize::MAX,
        decreases cs@.len() - i,
    {
        let c = cs[i] as u32;
        let w: usize = if c < 0x80 {
            1
        } else if c < 0x800 {
            2
        } else if c < 0x10000 {
            3
        } else {
            4
        };
        assert(cs@.take(i + 1).drop_last() =~= cs@.take(i as int));
        if capped || n > usize::MAX - w {
            capped = true;
            n = usize::MAX;
        } else {
            n = n + w;
        }
        i += 1;
    }
    assert(cs@.take(cs@.len() as int) =~= cs@);
    n
}

fn from_part(q: &AssetFilterShape) -> (r: Option<(String, Vec<BindSlot>)>)
    ensures
        part_view(r) == spec_from_part(*q),
{
    match &q.captured_from {
        Some(v) => if v.as_str().is_empty() {
            None
        } else {
            single("a.capture_time>=?", BindSlot::Text(v.clone()))
        },
        None => None,
    }
}

fn to_part(q: &AssetFilterShape) -> (r: Option<(String, Vec<BindSlot>)>)
    ensures
        part_view(r) == spec_to_part(*q),
{
    match &q.captured_to {
        Some(v) => if v.as_str().is_empty() {
            None
        } else {
            let end = if text_utf8_len(v.as_str()) == 10 {
                concat(v.as_str(), "T23:59:59.999")
            } else {
                v.clone()
            };
            single("a.capture_time<=?", BindSlot::Text(end))
        },
        None => None,
    }
}

fn status_part(q: &AssetFilterShape) -> (r: Option<(String, Vec<BindSlot>)>)
    ensures
        part_view(r) == spec_status_part(*q),
{
    match &q.analysis_status {
        Some(s) => if str_eq(s.as_str(), "not_analyzed") {
            bare("a.semantic_status IN ('not_analyzed', 'queued', 'running')")
        } else if str_eq(s.as_str(), "failed") {
            bare("a.semantic_status='failed'")
        } else if str_eq(s.as_str(), "completed") {
            bare("a.semantic_status='completed'")
        } else {
            None
        },
        None => None,
    }
}

fn append_part(
    texts: &mut Vec<String>,
    slots: &mut Vec<BindSlot>,
    part: Option<(String, Vec<BindSlot>)>,
    Ghost(parts): Ghost<Seq<Part>>,
)
    requires
        string_views(old(texts)@) == part_texts(parts),
        slot_views(old(slots)@) == part_slots(parts),
    ensures
        string_views(final(texts)@) == part_texts(push_opt(parts, part_view(part))),
        slot_views(final(slots)@) == part_slots(push_opt(parts, part_view(part))),
{
    match part {
        Some(p) => {
            let (text, mut more) = p;
            let ghost added = (text@, slot_views(more@));
            let ghost before = slots@;
            let ghost texts_before = texts@;
            texts.push(text);
            slots.append(&mut more);
            assert(string_views(texts@) =~= string_views(texts_before).push(added.0));
            assert(part_texts(parts.push(added)) =~= part_texts(parts).push(added.0));
            assert(parts.push(added).drop_last() =~= parts);
            assert(slot_views(slots@) =~= slot_views(before) + added.1);
        },
        None => {},
    }
}

fn join_and(texts: &Vec<String>) -> (r: String)
    ensures
        r@ == join_with(string_views(texts@), " AND "@),
{
    let mut out = String::new();
    let mut i: usize = 0;
    while i < texts.len()
        invariant
            i <= texts@.len(),
            out@ == join_with(string_views(texts@.take(i as int)), " AND "@),
        decreases texts@.len() - i,
    {
        assert(string_views(texts@.take(i + 1)).drop_last() =~= string_views(texts@.take(i as int)));
        if i == 0 {
            out = texts[0].clone();
        } else {
            out = concat3(out.as_str(), " AND ", texts[i].as_str());
        }
        i += 1;
    }
    assert(texts@.take(texts@.len() as int) =~= texts@);
    out
}

/// The SQL condition of an asset query and what each of its placeholders
/// binds: the query's scope, then each filter that is set, joined with
/// `AND`.
pub fn asset_filter_sql(query: &AssetFilterShape, models: &ModelVersions) -> (r: (String, Vec<BindSlot>))
    ensures
        r.0@ == spec_filter_sql(*query, *models),
        slot_views(r.1@) == spec_bind_slots(*query, *models),
{
    let q = query;
    let (scope_text, scope_slots) = asset_query_scope_sql(q);
    let mut texts: Vec<String> = vec![scope_text];
    let mut slots: Vec<BindSlot> = scope_slots;
    let ghost p = seq![spec_scope_part(*q)];
    proof {
        assert(string_views(texts@) =~= part_texts(p));
        assert(p.drop_last() =~= Seq::<Part>::empty());
        assert(p.last() == spec_scope_part(*q));
        assert(part_slots(Seq::<Part>::empty()) == Seq::<SlotSpec>::empty());
        assert(Seq::<SlotSpec>::empty() + spec_scope_part(*q).1 =~= spec_scope_part(*q).1);
        assert(part_slots(p) =~= spec_scope_part(*q).1);
    }
    let favorite = if q.favorite_only { bare(FAVORITE_ONLY) } else { None };
    append_part(&mut texts, &mut slots, favorite, Ghost(p));
    let ghost p = push_opt(p, part_view(favorite));
    let collection = match q.collection_id {
        Some(id) => single(COLLECTION_FILTER, BindSlot::Integer(id)),
        None => None,
    };
    append_part(&mut texts, &mut slots, collection, Ghost(p));
    let ghost p = push_opt(p, part_view(collection));
    let part = search_part(q);
    let ghost pv = part_view(part);
    append_part(&mut texts, &mut slots, part, Ghost(p));
    let ghost p = push_opt(p, pv);
    let part = primary_part(q, models);
    let ghost pv = part_view(part);
    append_part(&mut texts, &mut slots, part, Ghost(p));
    let ghost p = push_opt(p, pv);
    let part = tags_part(q, models);
    let ghost pv = part_view(part);
    append_part(&mut texts, &mut slots, part, Ghost(p));
    let ghost p = push_opt(p, pv);
    let tone = effective_scalar_expression(FIELD_TONE, "tf.tone_label");
    let part = in_part(tone.as_str(), &q.tone_labels);
    let ghost pv = part_view(part);
    append_part(&mut texts, &mut slots, part, Ghost(p));
    let ghost p = push_opt(p, pv);
    let part = palette_part(q);
    let ghost pv = part_view(part);
    append_part(&mut texts, &mut slots, part, Ghost(p));
    let ghost p = push_opt(p, pv);
    let part = hue_part(q);
    let ghost pv = part_view(part);
    append_part(&mut texts, &mut slots, part, Ghost(p));
    let ghost p = push_opt(p, pv);
    let part = rating_part(q);
    let ghost pv = part_view(part);
    append_part(&mut texts, &mut slots, part, Ghost(p));
    let ghost p = push_opt(p, pv);
    let part = in_part("a.color_label", &q.color_labels);
    let ghost pv = part_view(part);
    append_part(&mut texts, &mut slots, part, Ghost(p));
    let ghost p = push_opt(p, pv);
    let saturation = effective_scalar_expression(FIELD_SATURATION_LEVEL, "cf.saturation_label");
    let part = in_part(saturation.as_str(), &q.saturation_levels);
    let ghost pv = part_view(part);
    append_part(&mut texts, &mut slots, part, Ghost(p));
    let ghost p = push_opt(p, pv);
    let part = bound(q.brightness_min, "tf.brightness_mean>=?", BindSlot::BrightnessMin);
    let ghost pv = part_view(part);
    append_part(&mut texts, &mut slots, part, Ghost(p));
    let ghost p = push_opt(p, pv);
    let part = bound(q.brightness_max, "tf.brightness_mean<=?", BindSlot::BrightnessMax);
    let ghost pv = part_view(part);
    append_part(&mut texts, &mut slots, part, Ghost(p));
    let ghost p = push_opt(p, pv);
    let part = bound(q.saturation_min, "cf.saturation_mean>=?", BindSlot::SaturationMin);
    let ghost pv = part_view(part);
    append_part(&mut texts, &mut slots, part, Ghost(p));
    let ghost p = push_opt(p, pv);
    let part = bound(q.saturation_max, "cf.saturation_mean<=?", BindSlot::SaturationMax);
    let ghost pv = part_view(part);
    append_part(&mut texts, &mut slots, part, Ghost(p));
    let ghost p = push_opt(p, pv);
    let part = from_part(q);
    let ghost pv = part_view(part);
    append_part(&mut texts, &mut slots, part, Ghost(p));
    let ghost p = push_opt(p, pv);
    let part = to_part(q);
    let ghost pv = part_view(part);
    append_part(&mut texts, &mut slots, part, Ghost(p));
    let ghost p = push_opt(p, pv);
    let part = status_part(q);
    let ghost pv = part_view(part);
    append_part(&mut texts, &mut slots, part, Ghost(p));
    let ghost p = push_opt(p, pv);
    assert(p == filter_parts(*q, *models));
    (join_and(&texts), slots)
}

/// Two queries of the same shape: the same scope and the same filters set,
/// with lists of the same lengths, whatever text and numbers they hold.
pub open spec fn same_shape(a: AssetFilterShape, b: AssetFilterShape) -> bool {
    &&& a.root == b.root
    &&& a.include_descendants == b.include_descendants
    &&& a.favorite_only == b.favorite_only
    &&& (a.collection_id is Some <==> b.collection_id is Some)
    &&& (spec_search_part(a) is Some <==> spec_search_part(b) is Some)
    &&& a.primary_categories@.len() == b.primary_categories@.len()
    &&& a.auxiliary_tags@.len() == b.auxiliary_tags@.len()
    &&& a.semantic_match == b.semantic_match
    &&& a.tone_labels@.len() == b.tone_labels@.len()
    &&& a.color_categories@.len() == b.color_categories@.len()
    &&& a.hue_bins@.len() == b.hue_bins@.len()
    &&& (a.ratings@.len() > 0 <==> b.ratings@.len() > 0)
    &&& a.color_labels@.len() == b.color_labels@.len()
    &&& a.saturation_levels@.len() == b.saturation_levels@.len()
    &&& a.brightness_min == b.brightness_min
    &&& a.brightness_max == b.brightness_max
    &&& a.saturation_min == b.saturation_min
    &&& a.saturation_max == b.saturation_max
    &&& (spec_from_part(a) is Some <==> spec_from_part(b) is Some)
    &&& (spec_to_part(a) is Some <==> spec_to_part(b) is Some)
    &&& spec_status_part(a) == spec_status_part(b)
}

/// The clause text of an optional part.
pub open spec fn opt_text(o: Option<Part>) -> Option<Seq<char>> {
    match o {
        Some(p) => Some(p.0),
        None => None,
    }
}

proof fn lemma_same_texts_pushed(p1: Seq<Part>, p2: Seq<Part>, o1: Option<Part>, o2: Option<Part>)
    requires
        part_texts(p1) == part_texts(p2),
        opt_text(o1) == opt_text(o2),
    ensures
        part_texts(push_opt(p1, o1)) == part_texts(push_opt(p2, o2)),
{
    match (o1, o2) {
        (Some(x), Some(y)) => {
            assert(part_texts(p1.push(x)) =~= part_texts(p1).push(x.0));
            assert(part_texts(p2.push(y)) =~= part_texts(p2).push(y.0));
        },
        _ => {},
    }
}

/// What users type (search text, labels, tags, dates) and the numbers they
/// pick reach the query only through the bindings: two queries of the same
/// shape have the same SQL text.
pub proof fn lemma_user_values_only_bound(a: AssetFilterShape, b: AssetFilterShape, m: ModelVersions)
    requires
        same_shape(a, b),
    ensures
        spec_filter_sql(a, m) == spec_filter_sql(b, m),
{
    let p1 = seq![spec_scope_part(a)];
    let p2 = seq![spec_scope_part(b)];
    assert(part_texts(p1) =~= part_texts(p2));
    let f1 = if a.favorite_only { Some((FAVORITE_ONLY@, Seq::<SlotSpec>::empty())) } else { None };
    let f2 = if b.favorite_only { Some((FAVORITE_ONLY@, Seq::<SlotSpec>::empty())) } else { None };
    lemma_same_texts_pushed(p1, p2, f1, f2);
    let (p1, p2) = (push_opt(p1, f1), push_opt(p2, f2));
    let c1 = match a.collection_id {
        Some(id) => Some((COLLECTION_FILTER@, seq![SlotSpec::Integer(id)])),
        None => None,
    };
    let c2 = match b.collection_id {
        Some(id) => Some((COLLECTION_FILTER@, seq![SlotSpec::Integer(id)])),
        None => None,
    };
    lemma_same_texts_pushed(p1, p2, c1, c2);
    let (p1, p2) = (push_opt(p1, c1), push_opt(p2, c2));
    lemma_same_texts_pushed(p1, p2, spec_search_part(a), spec_search_part(b));
    let (p1, p2) = (push_opt(p1, spec_search_part(a)), push_opt(p2, spec_search_part(b)));
    lemma_same_texts_pushed(p1, p2, spec_primary_part(a, m), spec_primary_part(b, m));
    let (p1, p2) = (push_opt(p1, spec_primary_part(a, m)), push_opt(p2, spec_primary_part(b, m)));
    lemma_same_texts_pushed(p1, p2, spec_tags_part(a, m), spec_tags_part(b, m));
    let (p1, p2) = (push_opt(p1, spec_tags_part(a, m)), push_opt(p2, spec_tags_part(b, m)));
    let tone = spec_effective_scalar_expression(FIELD_TONE@, "tf.tone_label"@);
    lemma_same_texts_pushed(p1, p2, spec_in_part(tone, a.tone_labels@), spec_in_part(tone, b.tone_labels@));
    let (p1, p2) = (push_opt(p1, spec_in_part(tone, a.tone_labels@)), push_opt(p2, spec_in_part(tone, b.tone_labels@)));
    lemma_same_texts_pushed(p1, p2, spec_palette_part(a), spec_palette_part(b));
    let (p1, p2) = (push_opt(p1, spec_palette_part(a)), push_opt(p2, spec_palette_part(b)));
    lemma_same_texts_pushed(p1, p2, spec_hue_part(a), spec_hue_part(b));
    let (p1, p2) = (push_opt(p1, spec_hue_part(a)), push_opt(p2, spec_hue_part(b)));
    lemma_same_texts_pushed(p1, p2, spec_rating_part(a), spec_rating_part(b));
    let (p1, p2) = (push_opt(p1, spec_rating_part(a)), push_opt(p2, spec_rating_part(b)));
    let labels = "a.color_label"@;
    lemma_same_texts_pushed(p1, p2, spec_in_part(labels, a.color_labels@), spec_in_part(labels, b.color_labels@));
    let (p1, p2) = (push_opt(p1, spec_in_part(labels, a.color_labels@)), push_opt(p2, spec_in_part(labels, b.color_labels@)));
    let sat = spec_effective_scalar_expression(FIELD_SATURATION_LEVEL@, "cf.saturation_label"@);
    lemma_same_texts_pushed(p1, p2, spec_in_part(sat, a.saturation_levels@), spec_in_part(sat, b.saturation_levels@));
    let (p1, p2) = (push_opt(p1, spec_in_part(sat, a.saturation_levels@)), push_opt(p2, spec_in_part(sat, b.saturation_levels@)));
    let bmin1 = bound_part(a.brightness_min, "tf.brightness_mean>=?"@, SlotSpec::BrightnessMin);
    let bmin2 = bound_part(b.brightness_min, "tf.brightness_mean>=?"@, SlotSpec::BrightnessMin);
    lemma_same_texts_pushed(p1, p2, bmin1, bmin2);
    let (p1, p2) = (push_opt(p1, bmin1), push_opt(p2, bmin2));
    let bmax1 = bound_part(a.brightness_max, "tf.brightness_mean<=?"@, SlotSpec::BrightnessMax);
    let bmax2 = bound_part(b.brightness_max, "tf.brightness_mean<=?"@, SlotSpec::BrightnessMax);
    lemma_same_texts_pushed(p1, p2, bmax1, bmax2);
    let (p1, p2) = (push_opt(p1, bmax1), push_opt(p2, bmax2));
    let smin1 = bound_part(a.saturation_min, "cf.saturation_mean>=?"@, SlotSpec::SaturationMin);
    let smin2 = bound_part(b.saturation_min, "cf.saturation_mean>=?"@, SlotSpec::SaturationMin);
    lemma_same_texts_pushed(p1, p2, smin1, smin2);
    let (p1, p2) = (push_opt(p1, smin1), push_opt(p2, smin2));
    let smax1 = bound_part(a.saturation_max, "cf.saturation_mean<=?"@, SlotSpec::SaturationMax);
    let smax2 = bound_part(b.saturation_max, "cf.saturation_mean<=?"@, SlotSpec::SaturationMax);
    lemma_same_texts_pushed(p1, p2, smax1, smax2);
    let (p1, p2) = (push_opt(p1, smax1), push_opt(p2, smax2));
    lemma_same_texts_pushed(p1, p2, spec_from_part(a), spec_from_part(b));
    let (p1, p2) = (push_opt(p1, spec_from_part(a)), push_opt(p2, spec_from_part(b)));
    lemma_same_texts_pushed(p1, p2, spec_to_part(a), spec_to_part(b));
    let (p1, p2) = (push_opt(p1, spec_to_part(a)), push_opt(p2, spec_to_part(b)));
    lemma_same_texts_pushed(p1, p2, spec_status_part(a), spec_status_part(b));
    let (p1, p2) = (push_opt(p1, spec_status_part(a)), push_opt(p2, spec_status_part(b)));
    assert(p1 == filter_parts(a, m));
    assert(p2 == filter_parts(b, m));
}

proof fn lemma_join_starts_with_first(texts: Seq<Seq<char>>, sep: Seq<char>)
    requires
        texts.len() > 0,
    ensures
        join_with(texts, sep).len() >= texts[0].len(),
        join_with(texts, sep).take(texts[0].len() as int) == texts[0],
    decreases texts.len(),
{
    if texts.len() > 1 {
        lemma_join_starts_with_first(texts.drop_last(), sep);
        let j = join_with(texts.drop_last(), sep);
        assert((j + sep + texts.last()).take(texts[0].len() as int) =~= j.take(texts[0].len() as int));
    }
}

/// The scope of a query opens its SQL condition. For a library root, a
/// query that includes descendants reads the library and every source
/// library imported below it (the recursive `library_scope` query); one
/// that does not reads the library alone; the two clauses differ, and each
/// binds the library's id. A collection root reads the collection with
/// its child collections, or the collection alone, likewise; the whole
/// library and the favorites bind nothing.
pub proof fn lemma_scope_follows_descendants(q: AssetFilterShape, m: ModelVersions)
    ensures
        spec_filter_sql(q, m).len() >= spec_scope_part(q).0.len(),
        spec_filter_sql(q, m).take(spec_scope_part(q).0.len() as int) == spec_scope_part(q).0,
        q.root matches QueryRoot::Source(id) ==> {
            &&& spec_scope_part(q).0 == (if q.include_descendants {
                SCOPE_SOURCE_TREE@
            } else {
                SCOPE_SOURCE@
            })
            &&& spec_scope_part(q).1 == seq![SlotSpec::Integer(id)]
        },
        q.root matches QueryRoot::Collection(id) ==> {
            &&& spec_scope_part(q).0 == (if q.include_descendants {
                SCOPE_COLLECTION_TREE@
            } else {
                SCOPE_COLLECTION@
            })
            &&& spec_scope_part(q).1 == seq![SlotSpec::Integer(id)]
        },
        q.root == QueryRoot::All ==> spec_scope_part(q) == (SCOPE_ALL@, Seq::<SlotSpec>::empty()),
        q.root == QueryRoot::Favorites ==> spec_scope_part(q) == (SCOPE_FAVORITES@, Seq::<SlotSpec>::empty()),
        SCOPE_SOURCE_TREE@ != SCOPE_SOURCE@,
        SCOPE_COLLECTION_TREE@ != SCOPE_COLLECTION@,
{
    let texts = part_texts(filter_parts(q, m));
    assert(filter_parts(q, m).len() > 0 && filter_parts(q, m)[0] == spec_scope_part(q)) by {
        lemma_filter_parts_open_with_scope(q, m);
    }
    lemma_join_starts_with_first(texts, " AND "@);
    reveal_strlit("a.library_id=?");
    reveal_strlit("a.library_id IN (
                        WITH RECURSIVE library_scope(library_id) AS (
                            SELECT id FROM libraries WHERE id=?
                            UNION
                            SELECT child.id
                            FROM libraries child
                            JOIN library_scope scope
                              ON child.parent_library_id=scope.library_id
                             AND child.parent_relation='source'
                        )
                        SELECT library_id FROM library_scope
                    )");
    reveal_strlit("EXISTS(
                        SELECT 1 FROM collection_assets membership
                        WHERE membership.collection_id=?
                          AND membership.asset_id=a.id
                    )");
    reveal_strlit("EXISTS(
                        WITH RECURSIVE collection_scope(collection_id) AS (
                            SELECT id FROM collections WHERE id=?
                            UNION
                            SELECT child.id
                            FROM collections child
                            JOIN collection_scope parent
                              ON child.parent_collection_id=parent.collection_id
                        )
                        SELECT 1
                        FROM collection_assets membership
                        JOIN collection_scope scope
                          ON scope.collection_id=membership.collection_id
                        WHERE membership.asset_id=a.id
                    )");
    assert(SCOPE_SOURCE_TREE@.len() != SCOPE_SOURCE@.len());
    assert(SCOPE_COLLECTION_TREE@.len() != SCOPE_COLLECTION@.len());
}

proof fn lemma_push_opt_keeps_first(p: Seq<Part>, o: Option<Part>)
    requires
        p.len() > 0,
    ensures
        push_opt(p, o).len() > 0,
        push_opt(p, o)[0] == p[0],
{
}

proof fn lemma_filter_parts_open_with_scope(q: AssetFilterShape, m: ModelVersions)
    ensures
        filter_parts(q, m).len() > 0,
        filter_parts(q, m)[0] == spec_scope_part(q),
{
    let p = seq![spec_scope_part(q)];
    let o = if q.favorite_only { Some((FAVORITE_ONLY@, Seq::<SlotSpec>::empty())) } else { None };
    lemma_push_opt_keeps_first(p, o);
    let p = push_opt(p, o);
    let o = match q.collection_id {
        Some(id) => Some((COLLECTION_FILTER@, seq![SlotSpec::Integer(id)])),
        None => None,
    };
    lemma_push_opt_keeps_first(p, o);
    let p = push_opt(p, o);
    let o = spec_search_part(q);
    lemma_push_opt_keeps_first(p, o);
    let p = push_opt(p, o);
    let o = spec_primary_part(q, m);
    lemma_push_opt_keeps_first(p, o);
    let p = push_opt(p, o);
    let o = spec_tags_part(q, m);
    lemma_push_opt_keeps_first(p, o);
    let p = push_opt(p, o);
    let o = spec_in_part(spec_effective_scalar_expression(FIELD_TONE@, "tf.tone_label"@), q.tone_labels@);
    lemma_push_opt_keeps_first(p, o);
    let p = push_opt(p, o);
    let o = spec_palette_part(q);
    lemma_push_opt_keeps_first(p, o);
    let p = push_opt(p, o);
    let o = spec_hue_part(q);
    lemma_push_opt_keeps_first(p, o);
    let p = push_opt(p, o);
    let o = spec_rating_part(q);
    lemma_push_opt_keeps_first(p, o);
    let p = push_opt(p, o);
    let o = spec_in_part("a.color_label"@, q.color_labels@);
    lemma_push_opt_keeps_first(p, o);
    let p = push_opt(p, o);
    let o = spec_in_part(spec_effective_scalar_expression(FIELD_SATURATION_LEVEL@, "cf.saturation_label"@), q.saturation_levels@);
    lemma_push_opt_keeps_first(p, o);
    let p = push_opt(p, o);
    let o = bound_part(q.brightness_min, "tf.brightness_mean>=?"@, SlotSpec::BrightnessMin);
    lemma_push_opt_keeps_first(p, o);
    let p = push_opt(p, o);
    let o = bound_part(q.brightness_max, "tf.brightness_mean<=?"@, SlotSpec::BrightnessMax);
    lemma_push_opt_keeps_first(p, o);
    let p = push_opt(p, o);
    let o = bound_part(q.saturation_min, "cf.saturation_mean>=?"@, SlotSpec::SaturationMin);
    lemma_push_opt_keeps_first(p, o);
    let p = push_opt(p, o);
    let o = bound_part(q.saturation_max, "cf.saturation_mean<=?"@, SlotSpec::SaturationMax);
    lemma_push_opt_keeps_first(p, o);
    let p = push_opt(p, o);
    let o = spec_from_part(q);
    lemma_push_opt_keeps_first(p, o);
    let p = push_opt(p, o);
    let o = spec_to_part(q);
    lemma_push_opt_keeps_first(p, o);
    let p = push_opt(p, o);
    let o = spec_status_part(q);
    lemma_push_opt_keeps_first(p, o);
    let p = push_opt(p, o);
    assert(p == filter_parts(q, m));
}

} // verus!
