//! The closed classification registry and the resolution of automatic and
//! manual classification into the effective classification of an asset.
use vstd::prelude::*;

use crate::error::{is_invalid_argument, AppError, AppResult};
use crate::text::{
    chars_of, concat, concat3, str_eq, string_views, to_lowercase, trim_spec, trim_string,
    unicode_lowercase,
};

verus! {

pub const FIELD_PRIMARY_CATEGORY: &'static str = "primary_category";

pub const FIELD_AUXILIARY_TAGS: &'static str = "auxiliary_tags";

pub const FIELD_TONE: &'static str = "tone";

pub const FIELD_DOMINANT_COLOR_CATEGORY: &'static str = "dominant_color_category";

pub const FIELD_SATURATION_LEVEL: &'static str = "saturation_level";

#[derive(Debug, Clone, PartialEq, Eq)]
pub struct ClassificationFieldDescriptor {
    pub id: String,
    pub display_name: String,
    pub kind: String,
    pub filterable: bool,
    pub supports_manual_override: bool,
    pub supports_restore_auto: bool,
}

/// `d` describes the field `id`, shown as `name`, of the given kind, and every
/// field of the registry can be filtered, overridden and restored.
pub open spec fn describes(
    d: ClassificationFieldDescriptor,
    id: Seq<char>,
    name: Seq<char>,
    kind: Seq<char>,
) -> bool {
    &&& d.id@ == id
    &&& d.display_name@ == name
    &&& d.kind@ == kind
    &&& d.filterable
    &&& d.supports_manual_override
    &&& d.supports_restore_auto
}

/// The registry of classification fields, in display order.
pub fn registry_descriptors() -> (r: Vec<ClassificationFieldDescriptor>)
    ensures
        r.len() == 5,
        describes(r[0], FIELD_PRIMARY_CATEGORY@, "主类别"@, "single"@),
        describes(r[1], FIELD_AUXILIARY_TAGS@, "辅助标签"@, "multi"@),
        describes(r[2], FIELD_TONE@, "影调"@, "single"@),
        describes(r[3], FIELD_DOMINANT_COLOR_CATEGORY@, "主色"@, "multi"@),
        describes(r[4], FIELD_SATURATION_LEVEL@, "饱和度级别"@, "single"@),
{
    let mut r = Vec::new();
    r.push(descriptor(FIELD_PRIMARY_CATEGORY, "主类别", "single"));
    r.push(descriptor(FIELD_AUXILIARY_TAGS, "辅助标签", "multi"));
    r.push(descriptor(FIELD_TONE, "影调", "single"));
    r.push(descriptor(FIELD_DOMINANT_COLOR_CATEGORY, "主色", "multi"));
    r.push(descriptor(FIELD_SATURATION_LEVEL, "饱和度级别", "single"));
    r
}

fn descriptor(id: &str, display_name: &str, kind: &str) -> (r: ClassificationFieldDescriptor)
    ensures
        describes(r, id@, display_name@, kind@),
{
    ClassificationFieldDescriptor {
        id: id.to_owned(),
        display_name: display_name.to_owned(),
        kind: kind.to_owned(),
        filterable: true,
        supports_manual_override: true,
        supports_restore_auto: true,
    }
}

/// The field names of the registry.
pub open spec fn spec_is_registry_field(field: Seq<char>) -> bool {
    ||| field == FIELD_PRIMARY_CATEGORY@
    ||| field == FIELD_AUXILIARY_TAGS@
    ||| field == FIELD_TONE@
    ||| field == FIELD_DOMINANT_COLOR_CATEGORY@
    ||| field == FIELD_SATURATION_LEVEL@
}

pub fn is_registry_field(field: &str) -> (r: bool)
    ensures
        r == spec_is_registry_field(field@),
{
    str_eq(field, FIELD_PRIMARY_CATEGORY) || str_eq(field, FIELD_AUXILIARY_TAGS) || str_eq(
        field,
        FIELD_TONE,
    ) || str_eq(field, FIELD_DOMINANT_COLOR_CATEGORY) || str_eq(field, FIELD_SATURATION_LEVEL)
}

/// A manual override value as a client sends it: a string, an array whose
/// elements are strings (`Some`) or something else (`None`), or any other value.
#[derive(Debug, Clone, PartialEq, Eq)]
pub enum OverrideInput {
    Text(String),
    List(Vec<Option<String>>),
    Other,
}

/// A normalized manual override value: one string, or a list of strings.
#[derive(Debug, Clone, PartialEq, Eq)]
pub enum OverrideValue {
    Text(String),
    List(Vec<String>),
}

/// `s` with every element trimmed.
pub open spec fn trimmed_all(s: Seq<Seq<char>>) -> Seq<Seq<char>> {
    s.map_values(|v: Seq<char>| trim_spec(v))
}

/// `s` without repeated values; each value keeps its first position.
pub open spec fn dedup_keep_first(s: Seq<Seq<char>>) -> Seq<Seq<char>>
    decreases s.len(),
{
    if s.len() == 0 {
        s
    } else {
        let d = dedup_keep_first(s.drop_last());
        if d.contains(s.last()) {
            d
        } else {
            d.push(s.last())
        }
    }
}

/// Every value of `s` is non-empty.
pub open spec fn all_non_empty(s: Seq<Seq<char>>) -> bool {
    forall|i: int| 0 <= i < s.len() ==> #[trigger] s[i].len() > 0
}

fn contains_string(values: &Vec<String>, value: &String) -> (r: bool)
    ensures
        r == string_views(values@).contains(value@),
{
    let mut i: usize = 0;
    while i < values.len()
        invariant
            i <= values.len(),
            forall|k: int| 0 <= k < i ==> values@[k]@ != value@,
        decreases values.len() - i,
    {
        if values[i] == *value {
            assert(string_views(values@)[i as int] == value@);
            return true;
        }
        i += 1;
    }
    proof {
        if string_views(values@).contains(value@) {
            let k = choose|k: int|
                0 <= k < string_views(values@).len() && string_views(values@)[k] == value@;
            assert(values@[k]@ == value@);
        }
    }
    false
}

/// Trims every value and drops repeats, keeping first occurrences; an empty
/// value is an error that names `label`.
pub fn normalize_string_list(values: Vec<String>, label: &str) -> (r: AppResult<Vec<String>>)
    ensures
        r is Ok <==> all_non_empty(trimmed_all(string_views(values@))),
        r matches Ok(list) ==> string_views(list@) == dedup_keep_first(
            trimmed_all(string_views(values@)),
        ),
        r matches Err(e) ==> is_invalid_argument(e, label@ + " cannot contain empty values"@),
{
    let ghost trimmed = trimmed_all(string_views(values@));
    let mut result: Vec<String> = Vec::new();
    let mut i: usize = 0;
    while i < values.len()
        invariant
            i <= values.len(),
            trimmed == trimmed_all(string_views(values@)),
            all_non_empty(trimmed.take(i as int)),
            string_views(result@) == dedup_keep_first(trimmed.take(i as int)),
        decreases values.len() - i,
    {
        let value = trim_string(values[i].as_str());
        assert(value@ == trimmed[i as int]);
        if value.as_str().is_empty() {
            proof {
                assert(!all_non_empty(trimmed));
            }
            return Err(AppError::InvalidArgument(concat(label, " cannot contain empty values")));
        }
        assert(trimmed.take(i + 1).drop_last() =~= trimmed.take(i as int));
        if !contains_string(&result, &value) {
            result.push(value);
            assert(string_views(result@) =~= dedup_keep_first(trimmed.take(i + 1)));
        }
        i += 1;
    }
    assert(trimmed.take(values.len() as int) =~= trimmed);
    Ok(result)
}

/// The normalized override of a single-valued field from a client value.
pub open spec fn override_error(field: Seq<char>, input: OverrideInput, e: AppError) -> bool {
    if !spec_is_registry_field(field) || field == FIELD_AUXILIARY_TAGS@ {
        is_invalid_argument(e, "field "@ + field + " is not a single classification override"@)
    } else if field == FIELD_DOMINANT_COLOR_CATEGORY@ {
        match input {
            OverrideInput::Text(v) => is_invalid_argument(
                e,
                "dominant color categories"@ + " cannot contain empty values"@,
            ),
            OverrideInput::List(xs) => if exists|i: int|
                0 <= i < xs.len() && #[trigger] xs[i] is None {
                is_invalid_argument(e, "dominant color categories must be strings"@)
            } else {
                is_invalid_argument(e, "dominant color categories"@ + " cannot contain empty values"@)
            },
            OverrideInput::Other => is_invalid_argument(
                e,
                "dominant color categories must be a string array"@,
            ),
        }
    } else {
        match input {
            OverrideInput::Text(v) => is_invalid_argument(e, field + " override cannot be empty"@),
            _ => is_invalid_argument(e, field + " override must be a string"@),
        }
    }
}

/// The strings of a client list, when every element is a string.
pub open spec fn list_strings(xs: Seq<Option<String>>) -> Seq<Seq<char>> {
    xs.map_values(|x: Option<String>| x->0@)
}

/// The list of color categories that a client value gives, if it gives one.
pub open spec fn color_values(input: OverrideInput) -> Option<Seq<Seq<char>>> {
    match input {
        OverrideInput::Text(v) => Some(seq![v@]),
        OverrideInput::List(xs) => if forall|i: int| 0 <= i < xs.len() ==> #[trigger] xs[i] is Some {
            Some(list_strings(xs@))
        } else {
            None
        },
        OverrideInput::Other => None,
    }
}

/// The inputs on which an override of `field` is accepted.
pub open spec fn override_accepted(field: Seq<char>, input: OverrideInput) -> bool {
    &&& spec_is_registry_field(field)
    &&& field != FIELD_AUXILIARY_TAGS@
    &&& if field == FIELD_DOMINANT_COLOR_CATEGORY@ {
        color_values(input) matches Some(values) && all_non_empty(trimmed_all(values))
    } else {
        input matches OverrideInput::Text(v) && trim_spec(v@).len() > 0
    }
}

/// What an accepted override of `field` becomes.
pub open spec fn override_result(field: Seq<char>, input: OverrideInput, out: OverrideValue) -> bool {
    if field == FIELD_DOMINANT_COLOR_CATEGORY@ {
        out matches OverrideValue::List(list) && string_views(list@) == dedup_keep_first(
            trimmed_all(color_values(input)->0),
        )
    } else {
        out matches OverrideValue::Text(t) && input matches OverrideInput::Text(v) && t@
            == trim_spec(v@)
    }
}

proof fn lemma_single_views(v: String)
    ensures
        string_views(seq![v]) =~= seq![v@],
{
}

fn list_to_strings(xs: Vec<Option<String>>) -> (r: Option<Vec<String>>)
    ensures
        r is Some <==> (forall|i: int| 0 <= i < xs.len() ==> #[trigger] xs@[i] is Some),
        r matches Some(v) ==> string_views(v@) == list_strings(xs@),
{
    let mut out: Vec<String> = Vec::new();
    let mut i: usize = 0;
    while i < xs.len()
        invariant
            i <= xs.len(),
            forall|k: int| 0 <= k < i ==> #[trigger] xs@[k] is Some,
            string_views(out@) == list_strings(xs@.take(i as int)),
        decreases xs.len() - i,
    {
        match &xs[i] {
            Some(s) => {
                let c = s.clone();
                proof {
                    let t = xs@.take(i + 1);
                    assert(t.drop_last() =~= xs@.take(i as int));
                    assert(t[i as int] == xs@[i as int]);
                    assert(xs@[i as int]->0 == c);
                }
                let ghost before = out@;
                assert(string_views(before).len() == before.len());
                assert(list_strings(xs@.take(i as int)).len() == i);
                out.push(c);
                proof {
                    let t = xs@.take(i + 1);
                    assert forall|k: int| 0 <= k < out@.len() implies string_views(out@)[k]
                        == list_strings(t)[k] by {
                        if k < i {
                            assert(out@[k] == before[k]);
                            assert(string_views(before)[k] == list_strings(xs@.take(i as int))[k]);
                            assert(t[k] == xs@.take(i as int)[k]);
                        }
                    }
                }
                assert(string_views(out@) =~= list_strings(xs@.take(i + 1)));
            },
            None => {
                return None;
            },
        }
        i += 1;
    }
    assert(xs@.take(xs.len() as int) =~= xs@);
    Some(out)
}

proof fn lemma_dedup_contains(s: Seq<Seq<char>>)
    ensures
        forall|x: Seq<char>| #[trigger] dedup_keep_first(s).contains(x) <==> s.contains(x),
        forall|i: int, j: int|
            0 <= i < j < dedup_keep_first(s).len() ==> dedup_keep_first(s)[i] != dedup_keep_first(s)[j],
    decreases s.len(),
{
    if s.len() > 0 {
        let t = s.drop_last();
        lemma_dedup_contains(t);
        let d = dedup_keep_first(t);
        let l = s.last();
        assert forall|x: Seq<char>| #[trigger] dedup_keep_first(s).contains(x) <==> s.contains(x) by {
            let r = dedup_keep_first(s);
            if s.contains(x) {
                let k = choose|k: int| 0 <= k < s.len() && s[k] == x;
                if k < s.len() - 1 {
                    assert(t[k] == x);
                    assert(t.contains(x));
                    assert(d.contains(x));
                    let m = choose|m: int| 0 <= m < d.len() && d[m] == x;
                    if !d.contains(l) {
                        assert(d.push(l)[m] == x);
                    }
                    assert(r[m] == x);
                } else {
                    if d.contains(l) {
                        assert(r.contains(x));
                    } else {
                        assert(d.push(l)[d.len() as int] == l);
                        assert(r[d.len() as int] == x);
                    }
                }
                assert(r.contains(x));
            }
            if r.contains(x) {
                let k = choose|k: int| 0 <= k < r.len() && r[k] == x;
                if !d.contains(l) && k == d.len() {
                    assert(s[s.len() - 1] == x);
                } else {
                    if !d.contains(l) {
                        assert(d.push(l)[k] == d[k]);
                    }
                    assert(d[k] == x);
                    assert(d.contains(x));
                    assert(t.contains(x));
                    let m = choose|m: int| 0 <= m < t.len() && t[m] == x;
                    assert(s[m] == x);
                }
                assert(s.contains(x));
            }
        }
        if !d.contains(l) {
            assert forall|i: int, j: int| 0 <= i < j < d.push(l).len() implies d.push(l)[i] != d.push(l)[j] by {
                if j == d.len() {
                    assert(d.push(l)[i] == d[i]);
                    assert(d.contains(d[i]));
                }
            }
        }
    }
}

proof fn lemma_dedup_of_distinct(s: Seq<Seq<char>>)
    requires
        forall|i: int, j: int| 0 <= i < j < s.len() ==> s[i] != s[j],
    ensures
        dedup_keep_first(s) == s,
    decreases s.len(),
{
    if s.len() > 0 {
        let t = s.drop_last();
        lemma_dedup_of_distinct(t);
        if t.contains(s.last()) {
            let k = choose|k: int| 0 <= k < t.len() && t[k] == s.last();
            assert(s[k] == s[s.len() - 1]);
        }
        assert(t.push(s.last()) =~= s);
    }
}

/// How a normalized override is given back: the same text, or a list of
/// the same strings, every one present.
pub open spec fn given_back(out: OverrideValue, again: OverrideInput) -> bool {
    match out {
        OverrideValue::Text(t) => again matches OverrideInput::Text(v) && v@ == t@,
        OverrideValue::List(list) => again matches OverrideInput::List(xs) && (forall|i: int|
            0 <= i < xs.len() ==> #[trigger] xs[i] is Some) && list_strings(xs@) == string_views(list@),
    }
}

/// Two override values with the same contents.
pub open spec fn same_override(a: OverrideValue, b: OverrideValue) -> bool {
    match (a, b) {
        (OverrideValue::Text(x), OverrideValue::Text(y)) => x@ == y@,
        (OverrideValue::List(x), OverrideValue::List(y)) => string_views(x@) == string_views(y@),
        _ => false,
    }
}

/// Normalizing an override twice changes nothing: a normalized value,
/// given back, is accepted and normalizes to the same value.
pub proof fn lemma_override_normalization_is_idempotent(
    field: Seq<char>,
    input: OverrideInput,
    out: OverrideValue,
    again: OverrideInput,
    out2: OverrideValue,
)
    requires
        override_accepted(field, input),
        override_result(field, input, out),
        given_back(out, again),
    ensures
        override_accepted(field, again),
        override_result(field, again, out2) ==> same_override(out, out2),
{
    if field == FIELD_DOMINANT_COLOR_CATEGORY@ {
        let values = color_values(input)->0;
        let trimmed = trimmed_all(values);
        let d = dedup_keep_first(trimmed);
        lemma_dedup_contains(trimmed);
        let list = out->List_0;
        let xs = again->List_0;
        assert(color_values(again) == Some(d));
        assert forall|i: int| 0 <= i < d.len() implies trim_spec(#[trigger] d[i]) == d[i] && d[i].len() > 0 by {
            assert(d.contains(d[i]));
            assert(trimmed.contains(d[i]));
            let k = choose|k: int| 0 <= k < trimmed.len() && trimmed[k] == d[i];
            crate::text::lemma_trim_idempotent(values[k]);
        }
        assert(trimmed_all(d) =~= d);
        lemma_dedup_of_distinct(d);
        assert(all_non_empty(trimmed_all(d)));
    } else {
        let v = input->Text_0;
        crate::text::lemma_trim_idempotent(v@);
    }
}

pub fn normalize_override_value(field: &str, value: OverrideInput) -> (r: AppResult<OverrideValue>)
    ensures
        r is Ok <==> override_accepted(field@, value),
        r matches Ok(out) ==> override_result(field@, value, out),
        r matches Err(e) ==> override_error(field@, value, e),
{
    if !is_registry_field(field) || str_eq(field, FIELD_AUXILIARY_TAGS) {
        return Err(
            AppError::InvalidArgument(
                concat3("field ", field, " is not a single classification override"),
            ),
        );
    }
    if str_eq(field, FIELD_DOMINANT_COLOR_CATEGORY) {
        let ghost input = value;
        let values = match value {
            OverrideInput::Text(v) => {
                let mut one = Vec::new();
                one.push(v);
                proof {
                    lemma_single_views(one@[0]);
                    assert(one@ =~= seq![one@[0]]);
                }
                one
            },
            OverrideInput::List(xs) => match list_to_strings(xs) {
                Some(v) => v,
                None => {
                    return Err(
                        AppError::InvalidArgument(
                            "dominant color categories must be strings".to_owned(),
                        ),
                    );
                },
            },
            OverrideInput::Other => {
                return Err(
                    AppError::InvalidArgument(
                        "dominant color categories must be a string array".to_owned(),
                    ),
                );
            },
        };
        assert(color_values(input) == Some(string_views(values@)));
        return match normalize_string_list(values, "dominant color categories") {
            Ok(list) => Ok(OverrideValue::List(list)),
            Err(e) => Err(e),
        };
    }
    match value {
        OverrideInput::Text(v) => {
            let t = trim_string(v.as_str());
            if t.as_str().is_empty() {
                Err(AppError::InvalidArgument(concat(field, " override cannot be empty")))
            } else {
                Ok(OverrideValue::Text(t))
            }
        },
        _ => Err(AppError::InvalidArgument(concat(field, " override must be a string"))),
    }
}

pub fn normalize_tag_id(tag_id: &str) -> (r: AppResult<String>)
    ensures
        r is Ok <==> trim_spec(tag_id@).len() > 0,
        r matches Ok(t) ==> t@ == trim_spec(tag_id@),
        r matches Err(e) ==> is_invalid_argument(e, "tag id cannot be empty"@),
{
    let t = trim_string(tag_id);
    if t.as_str().is_empty() {
        Err(AppError::InvalidArgument("tag id cannot be empty".to_owned()))
    } else {
        Ok(t)
    }
}


#[derive(Debug, Clone, Copy, PartialEq, Eq, Structural)]
pub enum ClassificationSource {
    Unset,
    Auto,
    Manual,
    Mixed,
}

#[derive(Debug, Clone, PartialEq)]
pub struct ClassificationFieldState<T> {
    pub auto: Option<T>,
    pub manual: Option<T>,
    pub effective: Option<T>,
    pub source: ClassificationSource,
}

#[derive(Debug, Clone, PartialEq, Eq)]
pub struct AuxiliaryTagState {
    pub auto: Vec<String>,
    pub manual_additions: Vec<String>,
    pub manual_removals: Vec<String>,
    pub effective: Vec<String>,
    pub source: ClassificationSource,
}

#[derive(Debug, Clone, PartialEq)]
pub struct EffectiveClassification {
    pub revision: i64,
    pub primary_category: ClassificationFieldState<String>,
    pub auxiliary_tags: AuxiliaryTagState,
    pub tone: ClassificationFieldState<String>,
    pub dominant_color_categories: ClassificationFieldState<Vec<String>>,
    pub saturation_level: ClassificationFieldState<String>,
}

/// A field with no automatic and no manual value.
pub open spec fn field_is_empty<T>(state: ClassificationFieldState<T>) -> bool {
    &&& state.auto is None
    &&& state.manual is None
    &&& state.effective is None
    &&& state.source == ClassificationSource::Unset
}

/// A classification at `revision` with no value in any field: no automatic,
/// manual or effective value, no tag in any tag list, and no source.
pub open spec fn is_empty_classification(r: EffectiveClassification, revision: i64) -> bool {
    &&& r.revision == revision
    &&& field_is_empty(r.primary_category)
    &&& field_is_empty(r.tone)
    &&& field_is_empty(r.dominant_color_categories)
    &&& field_is_empty(r.saturation_level)
    &&& r.auxiliary_tags.auto@.len() == 0
    &&& r.auxiliary_tags.manual_additions@.len() == 0
    &&& r.auxiliary_tags.manual_removals@.len() == 0
    &&& r.auxiliary_tags.effective@.len() == 0
    &&& r.auxiliary_tags.source == ClassificationSource::Unset
}

impl EffectiveClassification {
    /// A classification at `revision` with no value in any field.
    pub fn empty(revision: i64) -> (r: Self)
        ensures
            is_empty_classification(r, revision),
    {
        Self {
            revision,
            primary_category: ClassificationFieldState {
                auto: None,
                manual: None,
                effective: None,
                source: ClassificationSource::Unset,
            },
            auxiliary_tags: AuxiliaryTagState {
                auto: Vec::new(),
                manual_additions: Vec::new(),
                manual_removals: Vec::new(),
                effective: Vec::new(),
                source: ClassificationSource::Unset,
            },
            tone: ClassificationFieldState {
                auto: None,
                manual: None,
                effective: None,
                source: ClassificationSource::Unset,
            },
            dominant_color_categories: ClassificationFieldState {
                auto: None,
                manual: None,
                effective: None,
                source: ClassificationSource::Unset,
            },
            saturation_level: ClassificationFieldState {
                auto: None,
                manual: None,
                effective: None,
                source: ClassificationSource::Unset,
            },
        }
    }
}

impl Default for EffectiveClassification {
    fn default() -> (r: Self)
        ensures
            is_empty_classification(r, 0),
    {
        Self::empty(0)
    }
}

#[derive(Debug, Clone, Default, PartialEq)]
pub struct AutoClassification {
    pub primary_category: Option<String>,
    pub auxiliary_tags: Vec<String>,
    pub tone: Option<String>,
    pub dominant_color_categories: Vec<String>,
    pub saturation_level: Option<String>,
}

#[derive(Debug, Clone, Default, PartialEq)]
pub struct ManualClassification {
    pub primary_category: Option<String>,
    pub auxiliary_tags: Vec<String>,
    pub dominant_color_categories: Option<Vec<String>>,
    pub tone: Option<String>,
    pub saturation_level: Option<String>,
    pub auxiliary_tag_additions: Vec<String>,
    pub auxiliary_tag_removals: Vec<String>,
}

/// A single-valued field resolved from its automatic and manual values: the
/// manual value wins when there is one.
pub open spec fn resolved_single<T>(
    state: ClassificationFieldState<T>,
    auto: Option<T>,
    manual: Option<T>,
) -> bool {
    &&& state.auto == auto
    &&& state.manual == manual
    &&& state.effective == (if manual is Some {
        manual
    } else {
        auto
    })
    &&& state.source == (if manual is Some {
        ClassificationSource::Manual
    } else if auto is Some {
        ClassificationSource::Auto
    } else {
        ClassificationSource::Unset
    })
}

fn resolve_single_text(auto: Option<String>, manual: Option<String>) -> (r:
    ClassificationFieldState<String>)
    ensures
        resolved_single(r, auto, manual),
{
    let effective = match &manual {
        Some(value) => Some(value.clone()),
        None => match &auto {
            Some(value) => Some(value.clone()),
            None => None,
        },
    };
    let source = if manual.is_some() {
        ClassificationSource::Manual
    } else if auto.is_some() {
        ClassificationSource::Auto
    } else {
        ClassificationSource::Unset
    };
    ClassificationFieldState { auto, manual, effective, source }
}

fn clone_strings(values: &Vec<String>) -> (r: Vec<String>)
    ensures
        r@ == values@,
{
    let mut r: Vec<String> = Vec::new();
    let mut i: usize = 0;
    while i < values.len()
        invariant
            i <= values.len(),
            r@ == values@.take(i as int),
        decreases values.len() - i,
    {
        r.push(values[i].clone());
        i += 1;
        assert(r@ =~= values@.take(i as int));
    }
    assert(values@.take(values.len() as int) =~= values@);
    r
}

fn resolve_single_list(auto: Option<Vec<String>>, manual: Option<Vec<String>>) -> (r:
    ClassificationFieldState<Vec<String>>)
    ensures
        r.auto == auto,
        r.manual == manual,
        r.effective is Some <==> (manual is Some || auto is Some),
        manual matches Some(m) ==> r.effective->0@ == m@,
        (manual is None && auto is Some) ==> r.effective->0@ == auto->0@,
        r.source == (if manual is Some {
            ClassificationSource::Manual
        } else if auto is Some {
            ClassificationSource::Auto
        } else {
            ClassificationSource::Unset
        }),
{
    let effective = match &manual {
        Some(value) => Some(clone_strings(value)),
        None => match &auto {
            Some(value) => Some(clone_strings(value)),
            None => None,
        },
    };
    let source = if manual.is_some() {
        ClassificationSource::Manual
    } else if auto.is_some() {
        ClassificationSource::Auto
    } else {
        ClassificationSource::Unset
    };
    ClassificationFieldState { auto, manual, effective, source }
}

// ---------------------------------------------------------------------------
// Ordering of tags by their lowercase form.
// ---------------------------------------------------------------------------

/// Lexicographic order of character sequences from position `i` on, by code
/// point: the order in which `String` compares.
pub open spec fn lex_le_from(a: Seq<char>, b: Seq<char>, i: int) -> bool
    decreases a.len() - i,
{
    if i >= a.len() {
        true
    } else if i >= b.len() {
        false
    } else if a[i] < b[i] {
        true
    } else if a[i] == b[i] {
        lex_le_from(a, b, i + 1)
    } else {
        false
    }
}

pub open spec fn lex_le(a: Seq<char>, b: Seq<char>) -> bool {
    lex_le_from(a, b, 0)
}

/// Tags compare by their lowercase form.
pub open spec fn key_le(a: Seq<char>, b: Seq<char>) -> bool {
    lex_le(unicode_lowercase(a), unicode_lowercase(b))
}

pub(crate) proof fn lemma_lex_total(a: Seq<char>, b: Seq<char>, i: int)
    requires
        0 <= i,
    ensures
        lex_le_from(a, b, i) || lex_le_from(b, a, i),
    decreases a.len() - i,
{
    if i < a.len() && i < b.len() && a[i] == b[i] {
        lemma_lex_total(a, b, i + 1);
    }
}

pub(crate) proof fn lemma_lex_transitive(a: Seq<char>, b: Seq<char>, c: Seq<char>, i: int)
    requires
        0 <= i,
        lex_le_from(a, b, i),
        lex_le_from(b, c, i),
    ensures
        lex_le_from(a, c, i),
    decreases a.len() - i,
{
    if i < a.len() && i < b.len() && i < c.len() && a[i] == b[i] && b[i] == c[i] {
        lemma_lex_transitive(a, b, c, i + 1);
    }
}

pub(crate) proof fn lemma_lex_antisymmetric(a: Seq<char>, b: Seq<char>, i: int)
    requires
        0 <= i <= a.len(),
        i <= b.len(),
        a.subrange(0, i) == b.subrange(0, i),
        lex_le_from(a, b, i),
        lex_le_from(b, a, i),
    ensures
        a == b,
    decreases a.len() - i,
{
    if i < a.len() {
        assert(a.subrange(0, i + 1) =~= a.subrange(0, i).push(a[i]));
        assert(b.subrange(0, i + 1) =~= b.subrange(0, i).push(b[i]));
        lemma_lex_antisymmetric(a, b, i + 1);
    } else {
        assert(a =~= a.subrange(0, i));
        assert(b =~= b.subrange(0, i));
    }
}

pub(crate) proof fn lemma_lex_reflexive(a: Seq<char>, i: int)
    requires
        0 <= i,
    ensures
        lex_le_from(a, a, i),
    decreases a.len() - i,
{
    if i < a.len() {
        lemma_lex_reflexive(a, i + 1);
    }
}

/// Two tags with the same lowercase form.
pub open spec fn same_key(a: Seq<char>, b: Seq<char>) -> bool {
    unicode_lowercase(a) == unicode_lowercase(b)
}

proof fn lemma_key_le_facts(a: Seq<char>, b: Seq<char>, c: Seq<char>)
    ensures
        key_le(a, a),
        key_le(a, b) || key_le(b, a),
        key_le(a, b) && key_le(b, c) ==> key_le(a, c),
        key_le(a, b) && key_le(b, a) ==> same_key(a, b),
        same_key(a, b) ==> key_le(a, b),
{
    let (la, lb, lc) = (unicode_lowercase(a), unicode_lowercase(b), unicode_lowercase(c));
    lemma_lex_reflexive(la, 0);
    lemma_lex_total(la, lb, 0);
    if key_le(a, b) && key_le(b, c) {
        lemma_lex_transitive(la, lb, lc, 0);
    }
    if key_le(a, b) && key_le(b, a) {
        assert(la.subrange(0, 0) =~= lb.subrange(0, 0));
        lemma_lex_antisymmetric(la, lb, 0);
    }
}

/// The tags with the same lowercase form as `y`.
pub open spec fn key_class(y: Seq<char>) -> spec_fn(Seq<char>) -> bool {
    |z: Seq<char>| same_key(z, y)
}

/// `x` inserted into `s` after the last element whose key is not greater
/// than the key of `x`.
pub open spec fn insert_by_key(s: Seq<Seq<char>>, x: Seq<char>) -> Seq<Seq<char>>
    decreases s.len(),
{
    if s.len() == 0 {
        seq![x]
    } else if key_le(s.last(), x) {
        s.push(x)
    } else {
        insert_by_key(s.drop_last(), x).push(s.last())
    }
}

/// Tags ordered by their lowercase form; tags with the same lowercase form
/// keep their relative order.
pub open spec fn sort_by_lowercase(s: Seq<Seq<char>>) -> Seq<Seq<char>>
    decreases s.len(),
{
    if s.len() == 0 {
        s
    } else {
        insert_by_key(sort_by_lowercase(s.drop_last()), s.last())
    }
}

/// The position at which `insert_by_key` puts `x`.
pub open spec fn insert_pos(s: Seq<Seq<char>>, x: Seq<char>) -> int
    decreases s.len(),
{
    if s.len() == 0 {
        0
    } else if key_le(s.last(), x) {
        s.len() as int
    } else {
        insert_pos(s.drop_last(), x)
    }
}

proof fn lemma_insert_pos(s: Seq<Seq<char>>, x: Seq<char>)
    ensures
        0 <= insert_pos(s, x) <= s.len(),
        insert_pos(s, x) == 0 || key_le(s[insert_pos(s, x) - 1], x),
        forall|k: int| insert_pos(s, x) <= k < s.len() ==> !key_le(#[trigger] s[k], x),
        insert_by_key(s, x) == s.insert(insert_pos(s, x), x),
    decreases s.len(),
{
    if s.len() == 0 {
        assert(s.insert(0, x) =~= seq![x]);
    } else if key_le(s.last(), x) {
        assert(s.insert(s.len() as int, x) =~= s.push(x));
    } else {
        let t = s.drop_last();
        lemma_insert_pos(t, x);
        let p = insert_pos(t, x);
        assert forall|k: int| p <= k < s.len() implies !key_le(#[trigger] s[k], x) by {
            if k < s.len() - 1 {
                assert(s[k] == t[k]);
            }
        }
        assert(t.insert(p, x).push(s.last()) =~= s.insert(p, x));
    }
}

/// The insertion point of `x` in `s` is characterized by the keys around it.
proof fn lemma_insert_at(s: Seq<Seq<char>>, x: Seq<char>, p: int)
    requires
        0 <= p <= s.len(),
        p == 0 || key_le(s[p - 1], x),
        forall|k: int| p <= k < s.len() ==> !key_le(#[trigger] s[k], x),
    ensures
        insert_by_key(s, x) == s.insert(p, x),
    decreases s.len(),
{
    if s.len() == 0 {
        assert(s.insert(0, x) =~= seq![x]);
    } else if p == s.len() {
        assert(s.insert(p, x) =~= s.push(x));
    } else {
        let t = s.drop_last();
        assert(!key_le(s[s.len() - 1], x));
        assert forall|k: int| p <= k < t.len() implies !key_le(#[trigger] t[k], x) by {
            assert(t[k] == s[k]);
        }
        if p > 0 {
            assert(t[p - 1] == s[p - 1]);
        }
        lemma_insert_at(t, x, p);
        assert(t.insert(p, x).push(s.last()) =~= s.insert(p, x));
    }
}

/// Sorted by key.
pub open spec fn key_sorted(s: Seq<Seq<char>>) -> bool {
    forall|i: int, j: int| 0 <= i < j < s.len() ==> key_le(#[trigger] s[i], #[trigger] s[j])
}

proof fn lemma_insert_keeps_sorted(s: Seq<Seq<char>>, x: Seq<char>)
    requires
        key_sorted(s),
    ensures
        key_sorted(insert_by_key(s, x)),
{
    lemma_insert_pos(s, x);
    let p = insert_pos(s, x);
    let u = s.insert(p, x);
    s.insert_ensures(p, x);
    assert forall|i: int, j: int| 0 <= i < j < u.len() implies key_le(#[trigger] u[i], #[trigger] u[j]) by {
        if j < p {
            assert(u[i] == s[i] && u[j] == s[j]);
        } else if j == p {
            assert(u[i] == s[i]);
            if i < p - 1 {
                assert(key_le(s[i], s[p - 1]));
            }
            lemma_key_le_facts(s[i], s[p - 1], x);
        } else if i < p {
            assert(u[i] == s[i] && u[j] == s[j - 1]);
            lemma_key_le_facts(s[j - 1], x, x);
            if i < p - 1 {
                assert(key_le(s[i], s[p - 1]));
            }
            lemma_key_le_facts(s[i], s[p - 1], x);
            lemma_key_le_facts(s[i], x, s[j - 1]);
        } else if i == p {
            assert(u[j] == s[j - 1]);
            lemma_key_le_facts(s[j - 1], x, x);
        } else {
            assert(u[i] == s[i - 1] && u[j] == s[j - 1]);
        }
    }
}

proof fn lemma_insert_multiset(s: Seq<Seq<char>>, x: Seq<char>)
    ensures
        insert_by_key(s, x).to_multiset() =~= s.to_multiset().insert(x),
{
    lemma_insert_pos(s, x);
    let p = insert_pos(s, x);
    let u = s.insert(p, x);
    s.insert_ensures(p, x);
    assert(u.remove(p) =~= s);
    u.to_multiset_ensures();
    assert(u.contains(x)) by {
        assert(u[p] == x);
    }
    assert(u.to_multiset().remove(x) =~= s.to_multiset());
    assert(u.to_multiset().count(x) > 0);
}

proof fn lemma_insert_filter(s: Seq<Seq<char>>, x: Seq<char>, y: Seq<char>)
    ensures
        insert_by_key(s, x).filter(key_class(y)) == if same_key(x, y) {
            s.filter(key_class(y)).push(x)
        } else {
            s.filter(key_class(y))
        },
{
    lemma_insert_pos(s, x);
    let p = insert_pos(s, x);
    let u = s.insert(p, x);
    let f = key_class(y);
    let front = s.subrange(0, p);
    let back = s.subrange(p, s.len() as int);
    assert(u =~= front.push(x) + back);
    assert(s =~= front + back);
    Seq::filter_distributes_over_add(front.push(x), back, f);
    Seq::filter_distributes_over_add(front, back, f);
    front.lemma_filter_push(x, f);
    if same_key(x, y) {
        assert forall|k: int| 0 <= k < back.len() implies !f(#[trigger] back[k]) by {
            assert(back[k] == s[p + k]);
            if same_key(back[k], y) {
                assert(same_key(back[k], x));
                lemma_key_le_facts(back[k], x, y);
            }
        }
        back.lemma_all_neg_filter_empty(f);
        assert(back.filter(f) =~= Seq::<Seq<char>>::empty());
        assert(front.filter(f) + back.filter(f) =~= front.filter(f));
        assert(front.filter(f).push(x) + back.filter(f) =~= front.filter(f).push(x));
    }
}

/// The ordering that tag resolution applies is a stable sort by the
/// lowercase form: the result is ordered by lowercase form, holds the same
/// tags as many times as the input, and tags with the same lowercase form keep
/// their input order.
pub proof fn lemma_sort_by_lowercase_is_stable_sort(s: Seq<Seq<char>>)
    ensures
        key_sorted(sort_by_lowercase(s)),
        sort_by_lowercase(s).to_multiset() =~= s.to_multiset(),
        forall|y: Seq<char>| #[trigger]
            sort_by_lowercase(s).filter(key_class(y)) == s.filter(key_class(y)),
    decreases s.len(),
{
    if s.len() == 0 {
        assert(s.to_multiset() =~= vstd::multiset::Multiset::empty()) by {
            s.to_multiset_ensures();
        }
    } else {
        let t = s.drop_last();
        let x = s.last();
        lemma_sort_by_lowercase_is_stable_sort(t);
        lemma_insert_keeps_sorted(sort_by_lowercase(t), x);
        lemma_insert_multiset(sort_by_lowercase(t), x);
        assert(s =~= t.push(x));
        t.to_multiset_ensures();
        assert forall|y: Seq<char>| #[trigger]
            sort_by_lowercase(s).filter(key_class(y)) == s.filter(key_class(y)) by {
            let f = key_class(y);
            t.lemma_filter_push(x, f);
            lemma_insert_filter(sort_by_lowercase(t), x, y);
            assert(sort_by_lowercase(t).filter(f) == t.filter(f));
        }
    }
}

pub(crate) fn lex_le_chars(a: &Vec<char>, b: &Vec<char>) -> (r: bool)
    ensures
        r == lex_le(a@, b@),
{
    let mut i: usize = 0;
    while i < a.len()
        invariant
            i <= a.len(),
            i <= b.len(),
            lex_le(a@, b@) == lex_le_from(a@, b@, i as int),
        decreases a.len() - i,
    {
        if i >= b.len() {
            return false;
        }
        if a[i] < b[i] {
            return true;
        }
        if a[i] != b[i] {
            return false;
        }
        i += 1;
    }
    true
}

/// The tags ordered by lowercase form, stably.
fn sort_tags_by_lowercase(tags: Vec<String>) -> (r: Vec<String>)
    ensures
        string_views(r@) == sort_by_lowercase(string_views(tags@)),
{
    let ghost input = string_views(tags@);
    let mut out: Vec<String> = Vec::new();
    let mut keys: Vec<Vec<char>> = Vec::new();
    let mut i: usize = 0;
    while i < tags.len()
        invariant
            i <= tags.len(),
            input == string_views(tags@),
            out@.len() == keys@.len(),
            forall|k: int| 0 <= k < keys@.len() ==> #[trigger] keys@[k]@ == unicode_lowercase(out@[k]@),
            string_views(out@) == sort_by_lowercase(input.take(i as int)),
        decreases tags.len() - i,
    {
        let x = tags[i].clone();
        let kx = chars_of(to_lowercase(x.as_str()).as_str());
        let mut p: usize = out.len();
        while p > 0 && !lex_le_chars(&keys[p - 1], &kx)
            invariant
                p <= out@.len(),
                out@.len() == keys@.len(),
                kx@ == unicode_lowercase(x@),
                forall|k: int| 0 <= k < keys@.len() ==> #[trigger] keys@[k]@ == unicode_lowercase(out@[k]@),
                forall|k: int| p <= k < out@.len() ==> !key_le(#[trigger] string_views(out@)[k], x@),
            decreases p,
        {
            p -= 1;
        }
        proof {
            let sv = string_views(out@);
            assert(input.take(i + 1).drop_last() =~= input.take(i as int));
            assert(input.take(i + 1).last() == x@);
            if p > 0 {
                assert(sv[p - 1] == out@[p - 1]@);
            }
            lemma_insert_at(sv, x@, p as int);
        }
        let ghost before = out@;
        let ghost keys_before = keys@;
        out.insert(p, x);
        keys.insert(p, kx);
        proof {
            before.insert_ensures(p as int, x);
            keys_before.insert_ensures(p as int, kx);
            assert forall|k: int| 0 <= k < keys@.len() implies #[trigger] keys@[k]@
                == unicode_lowercase(out@[k]@) by {
                if k > p {
                    assert(keys@[k] == keys_before[k - 1]);
                    assert(out@[k] == before[k - 1]);
                } else if k < p {
                    assert(keys@[k] == keys_before[k]);
                    assert(out@[k] == before[k]);
                }
            }
        }
        assert(string_views(out@) =~= string_views(before).insert(p as int, x@));
        i += 1;
    }
    assert(input.take(tags.len() as int) =~= input);
    out
}


/// The automatic tags without any that are manually removed.
pub open spec fn without_removed(auto: Seq<Seq<char>>, removals: Seq<Seq<char>>) -> Seq<Seq<char>> {
    auto.filter(|t: Seq<char>| !removals.contains(t))
}

/// `base` followed by the additions it does not hold yet, each once, in order.
pub open spec fn add_missing(base: Seq<Seq<char>>, additions: Seq<Seq<char>>) -> Seq<Seq<char>>
    decreases additions.len(),
{
    if additions.len() == 0 {
        base
    } else {
        let b = add_missing(base, additions.drop_last());
        if b.contains(additions.last()) {
            b
        } else {
            b.push(additions.last())
        }
    }
}

/// The effective auxiliary tags: the automatic tags minus the removed ones,
/// plus the added ones, ordered by lowercase form.
pub open spec fn effective_tags(
    auto: Seq<Seq<char>>,
    additions: Seq<Seq<char>>,
    removals: Seq<Seq<char>>,
) -> Seq<Seq<char>> {
    sort_by_lowercase(add_missing(without_removed(auto, removals), additions))
}

pub open spec fn tag_source(auto_empty: bool, manual_empty: bool) -> ClassificationSource {
    if auto_empty && manual_empty {
        ClassificationSource::Unset
    } else if manual_empty {
        ClassificationSource::Auto
    } else if auto_empty {
        ClassificationSource::Manual
    } else {
        ClassificationSource::Mixed
    }
}

/// The auxiliary tag state resolved from automatic tags and manual overrides.
pub open spec fn resolved_tags(
    state: AuxiliaryTagState,
    auto: Vec<String>,
    additions: Vec<String>,
    removals: Vec<String>,
) -> bool {
    &&& state.auto == auto
    &&& state.manual_additions == additions
    &&& state.manual_removals == removals
    &&& string_views(state.effective@) == effective_tags(
        string_views(auto@),
        string_views(additions@),
        string_views(removals@),
    )
    &&& state.source == tag_source(
        auto@.len() == 0,
        additions@.len() == 0 && removals@.len() == 0,
    )
}

fn resolve_tags(auto: Vec<String>, manual_additions: Vec<String>, manual_removals: Vec<String>) -> (r:
    AuxiliaryTagState)
    ensures
        resolved_tags(r, auto, manual_additions, manual_removals),
{
    let ghost auto_v = string_views(auto@);
    let ghost rem_v = string_views(manual_removals@);
    let ghost add_v = string_views(manual_additions@);
    let ghost keep = |t: Seq<char>| !rem_v.contains(t);
    let mut effective: Vec<String> = Vec::new();
    let mut i: usize = 0;
    while i < auto.len()
        invariant
            i <= auto.len(),
            auto_v == string_views(auto@),
            rem_v == string_views(manual_removals@),
            keep == (|t: Seq<char>| !rem_v.contains(t)),
            string_views(effective@) == auto_v.take(i as int).filter(keep),
        decreases auto.len() - i,
    {
        let removed = contains_string(&manual_removals, &auto[i]);
        proof {
            assert(auto_v.take(i + 1) =~= auto_v.take(i as int).push(auto_v[i as int]));
            auto_v.take(i as int).lemma_filter_push(auto_v[i as int], keep);
        }
        if !removed {
            effective.push(auto[i].clone());
            assert(string_views(effective@) =~= auto_v.take(i + 1).filter(keep));
        }
        i += 1;
    }
    assert(auto_v.take(auto.len() as int) =~= auto_v);
    let ghost base = string_views(effective@);
    let mut j: usize = 0;
    while j < manual_additions.len()
        invariant
            j <= manual_additions.len(),
            add_v == string_views(manual_additions@),
            string_views(effective@) == add_missing(base, add_v.take(j as int)),
        decreases manual_additions.len() - j,
    {
        let present = contains_string(&effective, &manual_additions[j]);
        assert(add_v.take(j + 1).drop_last() =~= add_v.take(j as int));
        if !present {
            effective.push(manual_additions[j].clone());
            assert(string_views(effective@) =~= add_missing(base, add_v.take(j + 1)));
        }
        j += 1;
    }
    assert(add_v.take(manual_additions.len() as int) =~= add_v);
    let effective = sort_tags_by_lowercase(effective);
    let auto_empty = auto.len() == 0;
    let manual_empty = manual_additions.len() == 0 && manual_removals.len() == 0;
    let source = if auto_empty && manual_empty {
        ClassificationSource::Unset
    } else if manual_empty {
        ClassificationSource::Auto
    } else if auto_empty {
        ClassificationSource::Manual
    } else {
        ClassificationSource::Mixed
    };
    AuxiliaryTagState {
        auto,
        manual_additions,
        manual_removals,
        effective,
        source,
    }
}

/// The automatic dominant colors as an optional value: none when there are none.
pub open spec fn auto_colors(auto: Vec<String>) -> Option<Vec<String>> {
    if auto@.len() == 0 {
        None
    } else {
        Some(auto)
    }
}

/// What resolving a classification gives: the revision; for each single
/// field the manual value over the automatic one; the manual colour list
/// over the automatic colours; and the automatic tags with the manual
/// additions and removals applied.
pub open spec fn resolved_classification(
    r: EffectiveClassification,
    revision: i64,
    auto: AutoClassification,
    manual: ManualClassification,
) -> bool {
    &&& r.revision == revision
    &&& resolved_single(r.primary_category, auto.primary_category, manual.primary_category)
    &&& resolved_single(r.tone, auto.tone, manual.tone)
    &&& resolved_single(r.saturation_level, auto.saturation_level, manual.saturation_level)
    &&& r.dominant_color_categories.auto == auto_colors(auto.dominant_color_categories)
    &&& r.dominant_color_categories.manual == manual.dominant_color_categories
    &&& (r.dominant_color_categories.effective is Some <==> (manual.dominant_color_categories is Some
        || auto.dominant_color_categories@.len() > 0))
    &&& (manual.dominant_color_categories matches Some(m) ==> r.dominant_color_categories.effective->0@
        == m@)
    &&& (manual.dominant_color_categories is None ==> (r.dominant_color_categories.effective is Some
        ==> r.dominant_color_categories.effective->0@ == auto.dominant_color_categories@))
    &&& r.dominant_color_categories.source == (if manual.dominant_color_categories is Some {
        ClassificationSource::Manual
    } else if auto.dominant_color_categories@.len() > 0 {
        ClassificationSource::Auto
    } else {
        ClassificationSource::Unset
    })
    &&& resolved_tags(
        r.auxiliary_tags,
        auto.auxiliary_tags,
        manual.auxiliary_tag_additions,
        manual.auxiliary_tag_removals,
    )
}

/// The manual tag list itself plays no part in resolving a classification:
/// manual tags act only through their additions and removals, so what is
/// resolved for one manual classification is resolved for any other that
/// differs from it only in that list.
pub proof fn lemma_manual_tag_list_is_ignored(
    r: EffectiveClassification,
    revision: i64,
    auto: AutoClassification,
    manual: ManualClassification,
    other: ManualClassification,
)
    requires
        resolved_classification(r, revision, auto, manual),
        other.primary_category == manual.primary_category,
        other.dominant_color_categories == manual.dominant_color_categories,
        other.tone == manual.tone,
        other.saturation_level == manual.saturation_level,
        other.auxiliary_tag_additions == manual.auxiliary_tag_additions,
        other.auxiliary_tag_removals == manual.auxiliary_tag_removals,
    ensures
        resolved_classification(r, revision, auto, other),
{
}

/// Resolving classifications that hold nothing, automatic or manual, gives
/// the empty classification at that revision.
pub proof fn lemma_nothing_resolves_to_empty(
    r: EffectiveClassification,
    revision: i64,
    auto: AutoClassification,
    manual: ManualClassification,
)
    requires
        resolved_classification(r, revision, auto, manual),
        auto.primary_category is None,
        auto.auxiliary_tags@.len() == 0,
        auto.tone is None,
        auto.dominant_color_categories@.len() == 0,
        auto.saturation_level is None,
        manual.primary_category is None,
        manual.dominant_color_categories is None,
        manual.tone is None,
        manual.saturation_level is None,
        manual.auxiliary_tag_additions@.len() == 0,
        manual.auxiliary_tag_removals@.len() == 0,
    ensures
        is_empty_classification(r, revision),
{
    let e = Seq::<Seq<char>>::empty();
    assert(string_views(auto.auxiliary_tags@) =~= e);
    assert(string_views(manual.auxiliary_tag_additions@) =~= e);
    assert(string_views(manual.auxiliary_tag_removals@) =~= e);
    assert(effective_tags(e, e, e).len() == 0) by {
        e.lemma_filter_len(|t: Seq<char>| !e.contains(t));
        assert(without_removed(e, e).len() == 0);
        assert(without_removed(e, e) =~= e);
        assert(add_missing(e, e) =~= e);
    }
}

/// Resolves an asset's effective classification: in every single-valued
/// field the manual value wins over the automatic one, and the auxiliary tags
/// are the automatic tags with the manual additions and removals applied.
pub fn resolve_classification(
    revision: i64,
    auto: AutoClassification,
    manual: ManualClassification,
) -> (r: EffectiveClassification)
    ensures
        resolved_classification(r, revision, auto, manual),
{
    let ManualClassification {
        primary_category,
        auxiliary_tag_additions,
        auxiliary_tag_removals,
        dominant_color_categories,
        tone,
        saturation_level,
        ..
    } = manual;
    let AutoClassification {
        primary_category: auto_primary,
        auxiliary_tags: auto_tags,
        tone: auto_tone,
        dominant_color_categories: auto_dominant,
        saturation_level: auto_saturation,
    } = auto;
    let auto_dominant = if auto_dominant.len() == 0 {
        None
    } else {
        Some(auto_dominant)
    };
    EffectiveClassification {
        revision,
        primary_category: resolve_single_text(auto_primary, primary_category),
        auxiliary_tags: resolve_tags(auto_tags, auxiliary_tag_additions, auxiliary_tag_removals),
        tone: resolve_single_text(auto_tone, tone),
        dominant_color_categories: resolve_single_list(auto_dominant, dominant_color_categories),
        saturation_level: resolve_single_text(auto_saturation, saturation_level),
    }
}


proof fn lemma_add_missing_contents(base: Seq<Seq<char>>, additions: Seq<Seq<char>>, t: Seq<char>)
    ensures
        add_missing(base, additions).contains(t) <==> (base.contains(t) || additions.contains(t)),
    decreases additions.len(),
{
    if additions.len() > 0 {
        let rest = additions.drop_last();
        lemma_add_missing_contents(base, rest, t);
        assert(additions =~= rest.push(additions.last()));
        if rest.contains(t) {
            let k = choose|k: int| 0 <= k < rest.len() && rest[k] == t;
            assert(additions[k] == t);
        }
        if additions.contains(t) && !rest.contains(t) {
            let k = choose|k: int| 0 <= k < additions.len() && additions[k] == t;
            if k < rest.len() {
                assert(rest[k] == t);
            }
            assert(t == additions.last());
        }
        let b = add_missing(base, rest);
        if !b.contains(additions.last()) {
            assert(b.push(additions.last())[b.len() as int] == additions.last());
            if b.push(additions.last()).contains(t) && t != additions.last() {
                let k = choose|k: int| 0 <= k < b.len() + 1 && b.push(additions.last())[k] == t;
                assert(b[k] == t);
            }
            if b.contains(t) {
                let k = choose|k: int| 0 <= k < b.len() && b[k] == t;
                assert(b.push(additions.last())[k] == t);
            }
        }
    }
}

/// Manual tag overrides are applied deterministically: every added tag is
/// effective, every removed tag that is not also added is not, every other
/// automatic tag stays, no other tag appears, and the effective tags are
/// ordered by their lowercase form.
pub proof fn lemma_tag_overrides(
    auto: Seq<Seq<char>>,
    additions: Seq<Seq<char>>,
    removals: Seq<Seq<char>>,
)
    ensures
        forall|t: Seq<char>| #[trigger]
            effective_tags(auto, additions, removals).contains(t) <==> (additions.contains(t) || (
            auto.contains(t) && !removals.contains(t))),
        key_sorted(effective_tags(auto, additions, removals)),
{
    let keep = |t: Seq<char>| !removals.contains(t);
    let base = without_removed(auto, removals);
    let merged = add_missing(base, additions);
    lemma_sort_by_lowercase_is_stable_sort(merged);
    assert forall|t: Seq<char>| #[trigger]
        effective_tags(auto, additions, removals).contains(t) <==> (additions.contains(t) || (
        auto.contains(t) && !removals.contains(t))) by {
        let sorted = sort_by_lowercase(merged);
        sorted.to_multiset_ensures();
        merged.to_multiset_ensures();
        assert(sorted.to_multiset() =~= merged.to_multiset());
        assert(sorted.to_multiset().count(t) == merged.to_multiset().count(t));
        assert(sorted.contains(t) <==> merged.contains(t));
        lemma_add_missing_contents(base, additions, t);
        if base.contains(t) {
            auto.lemma_filter_contains_rev(keep, t);
            let k = choose|k: int| 0 <= k < base.len() && base[k] == t;
            auto.lemma_filter_pred(keep, k);
            assert(keep(t));
        }
        if auto.contains(t) && !removals.contains(t) {
            let k = choose|k: int| 0 <= k < auto.len() && auto[k] == t;
            auto.lemma_filter_contains(keep, k);
        }
    }
}

} // verus!
