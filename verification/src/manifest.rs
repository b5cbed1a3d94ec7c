//! Exporting a plan as a manifest.
//!
//! A manifest is written to a new file only, never inside the source root
//! nor over a source file. The checks before writing and the CSV text are
//! here; creating the file and writing JSON is left to the caller.
use vstd::prelude::*;

use crate::error::{is_invalid_argument, is_unsafe_path, AppError, AppResult};
use crate::models::{OrganizationIssue, OrganizationItemStatus, OrganizationPlan, OrganizationPlanItem};
use crate::organization::{
    csv_field, normalize_for_compare, normalized_for_compare, path_exists, spec_csv_field,
};
use crate::plan::{ascii_lowercase, path_parent};
use crate::text::{chars_of, concat, decimal, i64_to_string, signed_decimal, str_eq, u64_to_string};

verus! {

/// The formats a manifest can be written in.
#[derive(Debug, Clone, Copy, PartialEq, Eq, Structural)]
pub enum ManifestFormat {
    Json,
    Csv,
}

pub open spec fn bad_format_message() -> Seq<char> {
    "导出格式必须是 json 或 csv。"@
}

pub open spec fn existing_manifest_message(path: Seq<char>) -> Seq<char> {
    "导出文件已存在，为避免覆盖请另选路径: "@ + path
}

pub open spec fn missing_directory_message() -> Seq<char> {
    "导出目录不存在；dry-run 不会创建目录。"@
}

/// The format a name asks for, ignoring ASCII case.
pub open spec fn spec_manifest_format(name: Seq<char>) -> Option<ManifestFormat> {
    if ascii_lowercase(name) == "json"@ {
        Some(ManifestFormat::Json)
    } else if ascii_lowercase(name) == "csv"@ {
        Some(ManifestFormat::Csv)
    } else {
        None
    }
}

/// A manifest at `output` would land on the source root, inside it, or on
/// one of the plan's source files (paths compared normalized).
pub open spec fn unsafe_manifest_path(plan: OrganizationPlan, output: Seq<char>) -> bool {
    let out = normalized_for_compare(output);
    let source = normalized_for_compare(plan.summary.source_root@);
    ||| out == source
    ||| (source + seq!['/']).len() <= out.len() && out.take((source + seq!['/']).len() as int) == source
        + seq!['/']
    ||| exists|i: int|
        0 <= i < plan.items@.len() && normalized_for_compare(#[trigger] plan.items@[i].source_path@)
            == out
}

pub(crate) fn lower_ascii_text(s: &str) -> (r: Vec<char>)
    ensures
        r@ == ascii_lowercase(s@),
{
    let cs = chars_of(s);
    let mut out: Vec<char> = Vec::new();
    let mut i: usize = 0;
    while i < cs.len()
        invariant
            i <= cs@.len(),
            out@ == ascii_lowercase(cs@.take(i as int)),
        decreases cs@.len() - i,
    {
        let c = cs[i];
        let lower = if 'A' <= c && c <= 'Z' {
            let b = c as u8;
            assert(b as u32 == c as u32);
            (b + 32) as char
        } else {
            c
        };
        out.push(lower);
        i += 1;
        assert(out@ =~= ascii_lowercase(cs@.take(i as int)));
    }
    assert(cs@.take(cs@.len() as int) =~= cs@);
    out
}

/// The format a name asks for, ignoring ASCII case.
pub fn manifest_format(name: &str) -> (r: Option<ManifestFormat>)
    ensures
        r == spec_manifest_format(name@),
{
    let lower = crate::text::string_of(&lower_ascii_text(name));
    if str_eq(lower.as_str(), "json") {
        Some(ManifestFormat::Json)
    } else if str_eq(lower.as_str(), "csv") {
        Some(ManifestFormat::Csv)
    } else {
        None
    }
}

fn starts_with_chars(s: &Vec<char>, prefix: &Vec<char>) -> (r: bool)
    ensures
        r == (prefix@.len() <= s@.len() && s@.take(prefix@.len() as int) == prefix@),
{
    if prefix.len() > s.len() {
        return false;
    }
    let mut k: usize = 0;
    while k < prefix.len()
        invariant
            k <= prefix@.len(),
            prefix@.len() <= s@.len(),
            forall|j: int| 0 <= j < k ==> s@[j] == prefix@[j],
        decreases prefix@.len() - k,
    {
        if s[k] != prefix[k] {
            assert(s@.take(prefix@.len() as int)[k as int] != prefix@[k as int]);
            return false;
        }
        k += 1;
    }
    assert(s@.take(prefix@.len() as int) =~= prefix@);
    true
}

/// Whether a manifest at `output` would land on the source root, inside it,
/// or on a source file of the plan.
pub fn is_unsafe_manifest_path(plan: &OrganizationPlan, output: &str) -> (r: bool)
    ensures
        r == unsafe_manifest_path(*plan, output@),
{
    let out = normalize_for_compare(output);
    let source = normalize_for_compare(plan.summary.source_root.as_str());
    if out == source {
        return true;
    }
    let prefix = chars_of(concat(source.as_str(), "/").as_str());
    proof {
        reveal_strlit("/");
        assert(prefix@ =~= source@ + seq!['/']);
    }
    if starts_with_chars(&chars_of(out.as_str()), &prefix) {
        return true;
    }
    let mut i: usize = 0;
    while i < plan.items.len()
        invariant
            i <= plan.items@.len(),
            out@ == normalized_for_compare(output@),
            forall|j: int| 0 <= j < i ==> normalized_for_compare(#[trigger] plan.items@[j].source_path@) != out@,
        decreases plan.items@.len() - i,
    {
        let item_path = normalize_for_compare(plan.items[i].source_path.as_str());
        if item_path == out {
            return true;
        }
        i += 1;
    }
    false
}

/// Calls `Path::is_dir`. What is on disk can change at any time, so nothing
/// is stated of the result.
#[verifier::external_body]
fn path_is_dir(path: &str) -> bool {
    std::path::Path::new(path).is_dir()
}

/// What checking a manifest target gives, from what the disk said: whether
/// something exists at `output`, the parent directory of `output` as the
/// platform splits it, and whether that parent is a directory. The format
/// is checked first, then the path's safety, then that nothing exists at
/// it, then that its directory (where it names one) exists.
pub open spec fn manifest_target_result(
    r: AppResult<ManifestFormat>,
    plan: OrganizationPlan,
    output: Seq<char>,
    format: Seq<char>,
    exists: bool,
    parent: Option<Seq<char>>,
    parent_is_dir: bool,
) -> bool {
    if spec_manifest_format(format) is None {
        r matches Err(e) && is_invalid_argument(e, bad_format_message())
    } else if unsafe_manifest_path(plan, output) {
        r matches Err(e) && is_unsafe_path(e, output)
    } else if exists {
        r matches Err(e) && is_invalid_argument(e, existing_manifest_message(output))
    } else if parent matches Some(p) && p.len() > 0 && !parent_is_dir {
        r matches Err(e) && is_invalid_argument(e, missing_directory_message())
    } else {
        r == Ok::<ManifestFormat, AppError>(spec_manifest_format(format).unwrap())
    }
}

/// A manifest is never written over anything: wherever the disk reports
/// something at the output, the check refuses.
pub proof fn lemma_existing_manifest_is_refused(
    r: AppResult<ManifestFormat>,
    plan: OrganizationPlan,
    output: Seq<char>,
    format: Seq<char>,
    parent: Option<Seq<char>>,
    parent_is_dir: bool,
)
    requires
        manifest_target_result(r, plan, output, format, true, parent, parent_is_dir),
    ensures
        r is Err,
{
}

/// Decides whether a manifest of `plan` may be written at `output` in the
/// format named `format`, given what the disk said of `output` (whether
/// something exists there), of its parent as `Path::parent` gives it, and
/// of whether that parent is a directory.
pub fn manifest_target_outcome(
    plan: &OrganizationPlan,
    output: &str,
    format: &str,
    exists: bool,
    parent: &Option<String>,
    parent_is_dir: bool,
) -> (r: AppResult<ManifestFormat>)
    ensures
        manifest_target_result(r, *plan, output@, format@, exists, crate::scanner::opt_view(*parent), parent_is_dir),
{
    let chosen = match manifest_format(format) {
        Some(f) => f,
        None => {
            return Err(AppError::InvalidArgument("导出格式必须是 json 或 csv。".to_owned()));
        },
    };
    if is_unsafe_manifest_path(plan, output) {
        return Err(AppError::UnsafePath(output.to_owned()));
    }
    if exists {
        return Err(AppError::InvalidArgument(concat("导出文件已存在，为避免覆盖请另选路径: ", output)));
    }
    if let Some(p) = parent {
        if !p.as_str().is_empty() && !parent_is_dir {
            return Err(AppError::InvalidArgument("导出目录不存在；dry-run 不会创建目录。".to_owned()));
        }
    }
    Ok(chosen)
}

/// Checks that a manifest of `plan` may be written at `output` in the
/// format named `format`, and gives the format. The format must be JSON or
/// CSV (in any ASCII case); the path must not be the source root, inside
/// it, or a source file of the plan; nothing may exist at it yet; and its
/// directory must exist. The disk is asked only once the format and the
/// path's safety pass; what it answers decides the rest as
/// `manifest_target_outcome` does.
pub fn check_manifest_target(plan: &OrganizationPlan, output: &str, format: &str) -> (r: AppResult<ManifestFormat>)
    ensures
        exists|exists: bool, parent: Option<Seq<char>>, parent_is_dir: bool|
            manifest_target_result(r, *plan, output@, format@, exists, parent, parent_is_dir),
        spec_manifest_format(format@) is None ==> (r matches Err(e) && is_invalid_argument(e, bad_format_message())),
        spec_manifest_format(format@) is Some && unsafe_manifest_path(*plan, output@) ==> (r matches Err(e)
            && is_unsafe_path(e, output@)),
        r matches Ok(f) ==> spec_manifest_format(format@) == Some(f) && !unsafe_manifest_path(*plan, output@),
{
    let none: Option<String> = None;
    if manifest_format(format).is_none() || is_unsafe_manifest_path(plan, output) {
        return manifest_target_outcome(plan, output, format, false, &none, false);
    }
    let exists = path_exists(output);
    if exists {
        return manifest_target_outcome(plan, output, format, true, &none, false);
    }
    let parent = path_parent(output);
    let parent_is_dir = match &parent {
        Some(p) => if p.as_str().is_empty() {
            false
        } else {
            path_is_dir(p.as_str())
        },
        None => false,
    };
    manifest_target_outcome(plan, output, format, false, &parent, parent_is_dir)
}

// ---------------------------------------------------------------------------
// CSV manifests
// ---------------------------------------------------------------------------

/// A CSV cell that is always quoted, with quotes doubled.
pub fn csv_cell(value: &str) -> (r: String)
    ensures
        r@ == seq!['"'] + crate::organization::double_quotes(value@) + seq!['"'],
{
    let cs = chars_of(value);
    let mut out: Vec<char> = Vec::new();
    out.push('"');
    let mut i: usize = 0;
    while i < cs.len()
        invariant
            i <= cs@.len(),
            out@ == seq!['"'] + crate::organization::double_quotes(cs@.take(i as int)),
        decreases cs@.len() - i,
    {
        assert(cs@.take(i + 1).drop_last() =~= cs@.take(i as int));
        if cs[i] == '"' {
            out.push('"');
            out.push('"');
        } else {
            out.push(cs[i]);
        }
        i += 1;
        assert(out@ =~= seq!['"'] + crate::organization::double_quotes(cs@.take(i as int)));
    }
    assert(cs@.take(cs@.len() as int) =~= cs@);
    out.push('"');
    crate::text::string_of(&out)
}

/// The name of an item status, as the manifest writes it.
pub open spec fn status_name(status: OrganizationItemStatus) -> Seq<char> {
    match status {
        OrganizationItemStatus::Ready => "Ready"@,
        OrganizationItemStatus::Warning => "Warning"@,
        OrganizationItemStatus::Error => "Error"@,
        OrganizationItemStatus::SkippedConflict => "SkippedConflict"@,
    }
}

fn status_text(status: OrganizationItemStatus) -> (r: &'static str)
    ensures
        r@ == status_name(status),
{
    match status {
        OrganizationItemStatus::Ready => "Ready",
        OrganizationItemStatus::Warning => "Warning",
        OrganizationItemStatus::Error => "Error",
        OrganizationItemStatus::SkippedConflict => "SkippedConflict",
    }
}

/// The issues of an item as one text: `code: detail`, separated by ` | `.
pub open spec fn issues_text(issues: Seq<OrganizationIssue>) -> Seq<char>
    decreases issues.len(),
{
    if issues.len() == 0 {
        Seq::empty()
    } else if issues.len() == 1 {
        issues[0].code@ + ": "@ + issues[0].detail@
    } else {
        issues_text(issues.drop_last()) + " | "@ + issues.last().code@ + ": "@ + issues.last().detail@
    }
}

pub open spec fn csv_header() -> Seq<char> {
    "ordinal,asset_id,source_path,target_path,status,file_size,issues\n"@
}

/// The CSV row of an item, with its line break.
pub open spec fn csv_row(item: OrganizationPlanItem) -> Seq<char> {
    decimal(item.ordinal as nat) + ","@ + signed_decimal(item.asset_id as int) + ","@ + spec_csv_field(
        item.source_path@,
    ) + ","@ + spec_csv_field(item.target_path@) + ","@ + spec_csv_field(status_name(item.status))
        + ","@ + decimal(item.file_size as nat) + ","@ + spec_csv_field(issues_text(item.issues@))
        + "\n"@
}

/// The rows of the items, in order.
pub open spec fn csv_rows(items: Seq<OrganizationPlanItem>) -> Seq<char>
    decreases items.len(),
{
    if items.len() == 0 {
        Seq::empty()
    } else {
        csv_rows(items.drop_last()) + csv_row(items.last())
    }
}

fn issues_joined(issues: &Vec<OrganizationIssue>) -> (r: String)
    ensures
        r@ == issues_text(issues@),
{
    let mut out = String::new();
    let mut i: usize = 0;
    while i < issues.len()
        invariant
            i <= issues@.len(),
            out@ == issues_text(issues@.take(i as int)),
        decreases issues@.len() - i,
    {
        assert(issues@.take(i + 1).drop_last() =~= issues@.take(i as int));
        if i > 0 {
            out = concat(out.as_str(), " | ");
        }
        out = concat(out.as_str(), issues[i].code.as_str());
        out = concat(out.as_str(), ": ");
        out = concat(out.as_str(), issues[i].detail.as_str());
        i += 1;
    }
    assert(issues@.take(issues@.len() as int) =~= issues@);
    out
}

fn csv_row_of(item: &OrganizationPlanItem) -> (r: String)
    ensures
        r@ == csv_row(*item),
{
    let row = u64_to_string(item.ordinal as u64);
    let row = concat(row.as_str(), ",");
    let row = concat(row.as_str(), i64_to_string(item.asset_id).as_str());
    let row = concat(row.as_str(), ",");
    let row = concat(row.as_str(), csv_field(item.source_path.as_str()).as_str());
    let row = concat(row.as_str(), ",");
    let row = concat(row.as_str(), csv_field(item.target_path.as_str()).as_str());
    let row = concat(row.as_str(), ",");
    let row = concat(row.as_str(), csv_field(status_text(item.status)).as_str());
    let row = concat(row.as_str(), ",");
    let row = concat(row.as_str(), u64_to_string(item.file_size).as_str());
    let row = concat(row.as_str(), ",");
    let row = concat(row.as_str(), csv_field(issues_joined(&item.issues).as_str()).as_str());
    concat(row.as_str(), "\n")
}

/// The CSV manifest of a plan: a header line and one line per item.
pub fn manifest_csv(plan: &OrganizationPlan) -> (r: String)
    ensures
        r@ == csv_header() + csv_rows(plan.items@),
{
    let mut out = "ordinal,asset_id,source_path,target_path,status,file_size,issues\n".to_owned();
    let ghost header = out@;
    let mut i: usize = 0;
    while i < plan.items.len()
        invariant
            i <= plan.items@.len(),
            header == csv_header(),
            out@ == header + csv_rows(plan.items@.take(i as int)),
        decreases plan.items@.len() - i,
    {
        assert(plan.items@.take(i + 1).drop_last() =~= plan.items@.take(i as int));
        out = concat(out.as_str(), csv_row_of(&plan.items[i]).as_str());
        i += 1;
    }
    assert(plan.items@.take(plan.items@.len() as int) =~= plan.items@);
    out
}

/// Cells joined with commas.
pub open spec fn csv_join(cells: Seq<Seq<char>>) -> Seq<char>
    decreases cells.len(),
{
    if cells.len() == 0 {
        Seq::empty()
    } else if cells.len() == 1 {
        cells[0]
    } else {
        csv_join(cells.drop_last()) + ","@ + cells.last()
    }
}

proof fn lemma_csv_join_seven(c: Seq<Seq<char>>)
    requires
        c.len() == 7,
    ensures
        csv_join(c) == c[0] + ","@ + c[1] + ","@ + c[2] + ","@ + c[3] + ","@ + c[4] + ","@ + c[5] + ","@ + c[6],
{
    let c6 = c.drop_last();
    let c5 = c6.drop_last();
    let c4 = c5.drop_last();
    let c3 = c4.drop_last();
    let c2 = c3.drop_last();
    let c1 = c2.drop_last();
    assert(csv_join(c1) == c[0]);
    assert(csv_join(c2) == c[0] + ","@ + c[1]);
    assert(csv_join(c3) == c[0] + ","@ + c[1] + ","@ + c[2]);
    assert(csv_join(c4) == c[0] + ","@ + c[1] + ","@ + c[2] + ","@ + c[3]);
    assert(csv_join(c5) == c[0] + ","@ + c[1] + ","@ + c[2] + ","@ + c[3] + ","@ + c[4]);
    assert(csv_join(c6) == c[0] + ","@ + c[1] + ","@ + c[2] + ","@ + c[3] + ","@ + c[4] + ","@ + c[5]);
}

/// A manifest row holds an item's cells in the order the header names its
/// columns: ordinal, asset id, source path, target path, status, file size
/// and issues, separated by commas, each text cell written as a CSV field.
pub proof fn lemma_csv_rows_follow_header(item: OrganizationPlanItem)
    ensures
        csv_header() == csv_join(
            seq![
                "ordinal"@,
                "asset_id"@,
                "source_path"@,
                "target_path"@,
                "status"@,
                "file_size"@,
                "issues"@,
            ],
        ) + "\n"@,
        csv_row(item) == csv_join(
            seq![
                decimal(item.ordinal as nat),
                signed_decimal(item.asset_id as int),
                spec_csv_field(item.source_path@),
                spec_csv_field(item.target_path@),
                spec_csv_field(status_name(item.status)),
                decimal(item.file_size as nat),
                spec_csv_field(issues_text(item.issues@)),
            ],
        ) + "\n"@,
{
    let names = seq![
        "ordinal"@,
        "asset_id"@,
        "source_path"@,
        "target_path"@,
        "status"@,
        "file_size"@,
        "issues"@,
    ];
    let cells = seq![
        decimal(item.ordinal as nat),
        signed_decimal(item.asset_id as int),
        spec_csv_field(item.source_path@),
        spec_csv_field(item.target_path@),
        spec_csv_field(status_name(item.status)),
        decimal(item.file_size as nat),
        spec_csv_field(issues_text(item.issues@)),
    ];
    lemma_csv_join_seven(names);
    lemma_csv_join_seven(cells);
    reveal_strlit("ordinal,asset_id,source_path,target_path,status,file_size,issues\n");
    reveal_strlit("ordinal");
    reveal_strlit("asset_id");
    reveal_strlit("source_path");
    reveal_strlit("target_path");
    reveal_strlit("status");
    reveal_strlit("file_size");
    reveal_strlit("issues");
    reveal_strlit(",");
    reveal_strlit("\n");
    assert(csv_header() =~= csv_join(names) + "\n"@);
}

} // verus!
