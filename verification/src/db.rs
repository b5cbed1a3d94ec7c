//! The library database: where it lives, the records it hands out, and the
//! pieces of SQL that queries are built from.
use vstd::prelude::*;

use crate::organization::path_segments;
use crate::render::{replace_all, replace_text};
use crate::text::{concat, concat3, push_char};

verus! {

/// The library's SQLite database, by the path of its file.
#[derive(Debug, Clone)]
pub struct Repository {
    database_path: String,
}

impl Repository {
    /// The path of the database file.
    pub closed spec fn path(&self) -> Seq<char> {
        self.database_path@
    }

    pub fn new(database_path: &str) -> (r: Self)
        ensures
            r.path() == database_path@,
    {
        Repository { database_path: database_path.to_owned() }
    }

    pub fn database_path(&self) -> (r: &str)
        ensures
            r@ == self.path(),
    {
        self.database_path.as_str()
    }
}

/// An asset waiting for semantic analysis, with the model it is analysed by.
#[derive(Debug, Clone)]
pub struct SemanticAssetCandidate {
    pub id: i64,
    pub absolute_path: String,
    pub analysis_path: String,
    pub fingerprint: String,
    pub model_name: String,
    pub model_version: String,
    pub analysis_version: String,
    pub taxonomy_version: String,
}

/// A source folder that a library owns, with its identity key.
#[derive(Debug, Clone, PartialEq, Eq)]
pub struct LibrarySourceRoot {
    pub library_id: i64,
    pub source_path: String,
    pub identity_key: String,
}

/// An asset seen again by a scan generation.
pub struct SeenAssetWrite {
    pub asset_id: i64,
    pub library_id: i64,
    pub relative_path: String,
    pub generation: i64,
}

/// The outcome of removing a library: whether it was removed, and the
/// cache entries (asset id, cache key, thumbnail path) left to delete.
#[derive(Debug, Clone, Default)]
pub struct LibraryRemovalResult {
    pub removed: bool,
    pub removed_cache_entries: Vec<(i64, String, Option<String>)>,
}

/// A text as an SQL string literal: quoted, with quotes doubled.
pub open spec fn spec_sql_literal(value: Seq<char>) -> Seq<char> {
    seq!['\''] + replace_all(value, seq!['\''], seq!['\'', '\'']) + seq!['\'']
}

pub fn sql_literal(value: &str) -> (r: String)
    ensures
        r@ == spec_sql_literal(value@),
{
    proof {
        reveal_strlit("'");
        reveal_strlit("''");
        assert("'"@ =~= seq!['\'']);
        assert("''"@ =~= seq!['\'', '\'']);
    }
    let doubled = replace_text(value, "'", "''");
    let mut out = String::new();
    push_char(&mut out, '\'');
    let out = concat(out.as_str(), doubled.as_str());
    let mut out = out;
    push_char(&mut out, '\'');
    assert(out@ =~= seq!['\''] + doubled@ + seq!['\'']);
    out
}

/// The SQL value of a classification field: the manual override where one
/// exists, else the automatic expression.
pub open spec fn spec_effective_scalar_expression(field: Seq<char>, auto_expression: Seq<char>) -> Seq<char> {
    "COALESCE((SELECT json_extract(mco.value_json, '$')\n                   FROM manual_classification_overrides mco\n                   WHERE mco.asset_id=a.id AND mco.field="@
        + spec_sql_literal(field) + "), "@ + auto_expression + ")"@
}

pub fn effective_scalar_expression(field: &str, auto_expression: &str) -> (r: String)
    ensures
        r@ == spec_effective_scalar_expression(field@, auto_expression@),
{
    let head = concat(
        "COALESCE((SELECT json_extract(mco.value_json, '$')\n                   FROM manual_classification_overrides mco\n                   WHERE mco.asset_id=a.id AND mco.field=",
        sql_literal(field).as_str(),
    );
    let head = concat(head.as_str(), "), ");
    concat3(head.as_str(), auto_expression, ")")
}

/// The SQL value of a column of the active semantic model, or a fallback
/// literal without one.
pub open spec fn spec_active_semantic_model_sql(column: Seq<char>, fallback: Seq<char>) -> Seq<char> {
    "COALESCE((SELECT "@ + column
        + " FROM semantic_models WHERE is_active=1 ORDER BY id DESC LIMIT 1), "@ + spec_sql_literal(
        fallback,
    ) + ")"@
}

pub fn active_semantic_model_sql(column: &str, fallback: &str) -> (r: String)
    ensures
        r@ == spec_active_semantic_model_sql(column@, fallback@),
{
    let head = concat3(
        "COALESCE((SELECT ",
        column,
        " FROM semantic_models WHERE is_active=1 ORDER BY id DESC LIMIT 1), ",
    );
    concat3(head.as_str(), sql_literal(fallback).as_str(), ")")
}

/// `count` SQL placeholders separated by commas.
pub open spec fn spec_placeholders(count: nat) -> Seq<char>
    decreases count,
{
    if count == 0 {
        Seq::empty()
    } else if count == 1 {
        seq!['?']
    } else {
        spec_placeholders((count - 1) as nat) + seq![',', '?']
    }
}

pub fn placeholders(count: usize) -> (r: String)
    ensures
        r@ == spec_placeholders(count as nat),
{
    let mut out = String::new();
    let mut i: usize = 0;
    while i < count
        invariant
            i <= count,
            out@ == spec_placeholders(i as nat),
        decreases count - i,
    {
        if i > 0 {
            push_char(&mut out, ',');
        }
        push_char(&mut out, '?');
        i += 1;
    }
    out
}

/// A text for an SQL `LIKE` pattern with `\` as the escape: backslashes,
/// percent signs and underscores escaped.
pub open spec fn spec_escape_like(value: Seq<char>) -> Seq<char> {
    replace_all(
        replace_all(replace_all(value, seq!['\\'], seq!['\\', '\\']), seq!['%'], seq!['\\', '%']),
        seq!['_'],
        seq!['\\', '_'],
    )
}

pub fn escape_like(value: &str) -> (r: String)
    ensures
        r@ == spec_escape_like(value@),
{
    proof {
        reveal_strlit("\\");
        reveal_strlit("\\\\");
        reveal_strlit("%");
        reveal_strlit("\\%");
        reveal_strlit("_");
        reveal_strlit("\\_");
        assert("\\"@ =~= seq!['\\']);
        assert("\\\\"@ =~= seq!['\\', '\\']);
        assert("%"@ =~= seq!['%']);
        assert("\\%"@ =~= seq!['\\', '%']);
        assert("_"@ =~= seq!['_']);
        assert("\\_"@ =~= seq!['\\', '_']);
    }
    let step = replace_text(value, "\\", "\\\\");
    let step = replace_text(step.as_str(), "%", "\\%");
    replace_text(step.as_str(), "_", "\\_")
}

/// A count as an `i64`, saturated at its maximum.
pub fn as_i64(value: u64) -> (r: i64)
    ensures
        r == (if value > i64::MAX as u64 {
            i64::MAX as int
        } else {
            value as int
        }),
{
    if value > 0x7FFF_FFFF_FFFF_FFFFu64 {
        0x7FFF_FFFF_FFFF_FFFFi64
    } else {
        value as i64
    }
}

/// The number of non-empty `/`-separated components of a relative path.
pub fn path_depth(value: &str) -> (r: usize)
    ensures
        r == path_segments(value@).len(),
{
    crate::organization::split_segments(value).len()
}

pub open spec fn default_library_name() -> Seq<char> {
    "图库"@
}

/// The name of a library: the last component of its source path, else of
/// the fallback path, else a default name where both are empty.
pub fn library_name(source_path: &str, fallback: &str) -> (r: String)
    ensures
        r@.len() > 0,
{
    let name = match crate::plan::path_file_name(source_path) {
        Some(name) => Some(name),
        None => crate::plan::path_file_name(fallback),
    };
    match name {
        Some(name) => if name.as_str().is_empty() {
            proof {
                reveal_strlit("图库");
            }
            "图库".to_owned()
        } else {
            name
        },
        None => {
            proof {
                reveal_strlit("图库");
            }
            "图库".to_owned()
        },
    }
}

} // verus!
