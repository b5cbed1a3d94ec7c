//! Building a read-only organization plan.
//!
//! Assets are ordered by their normalized relative path, rendered into
//! target paths under the rules, checked, and freed of conflicts; the plan
//! then counts its issues and bytes and lays its targets out as a tree.
//! Nothing is moved or written: the plan is a preview.
use vstd::prelude::*;

use crate::classification::{
    lemma_lex_antisymmetric, lemma_lex_reflexive, lemma_lex_total, lemma_lex_transitive,
    lex_le, lex_le_chars,
};
use crate::conflicts::{
    apply_conflicts, lemma_kept_targets_are_distinct, resolution, resolved_in_order, set_aside, target_key,
    last_index, DraftItem,
};
use crate::error::{is_invalid_argument, is_unsafe_path, AppError, AppResult};
use crate::models::{
    OrganizationConflictStrategy, OrganizationIssue, OrganizationIssueSeverity,
    OrganizationItemStatus, OrganizationLevel,
    OrganizationPlan, OrganizationPlanItem, OrganizationPlanRequest, OrganizationPlanSummary,
    OrganizationRules, OrganizationTreeNode, PlanAsset,
};
use crate::organization::{
    check_relative_target, contains_char, insert_tree_item, issue, issue_views,
    normalize_for_compare, normalized_for_compare, opt_string_view, parse_template,
    parse_template_spec, push_issue, relative_target_issues, rule_issues_spec, segment_issues,
    segments_issues,
    spec_status_for_issues, status_for_issues, target_outside_source, target_path_of, is_target_path,
    token_views, tree_counts_nested, validate_rules, validate_target_boundary, IssueView,
    TemplateToken, TokenView,
};
use crate::render::{
    asset_fingerprint, blake3_hex, capture_resolution, hash_hex, levels_folders, levels_issues,
    pair_views, render_context, render_levels, render_template, spec_asset_fingerprint,
    spec_context_issues, spec_context_values, spec_render_template, starts_at,
};
use crate::text::{chars_of, concat, i64_to_string, push_char, signed_decimal, str_eq};

verus! {

// ---------------------------------------------------------------------------
// The order of assets
// ---------------------------------------------------------------------------

/// The form in which an asset's relative path is ordered.
pub open spec fn asset_key(a: PlanAsset) -> Seq<char> {
    normalized_for_compare(a.relative_path@)
}

/// Keys in code-point order, then identifiers in ascending order.
pub open spec fn pair_le(ka: Seq<char>, ida: i64, kb: Seq<char>, idb: i64) -> bool {
    if ka == kb {
        ida <= idb
    } else {
        lex_le(ka, kb)
    }
}

/// Assets in the plan's order: by normalized relative path, then by id.
pub open spec fn asset_le(a: PlanAsset, b: PlanAsset) -> bool {
    pair_le(asset_key(a), a.id, asset_key(b), b.id)
}

pub open spec fn sorted_by_path(s: Seq<PlanAsset>) -> bool {
    forall|i: int, j: int| 0 <= i < j < s.len() ==> asset_le(#[trigger] s[i], #[trigger] s[j])
}

proof fn lemma_pair_le(ka: Seq<char>, ida: i64, kb: Seq<char>, idb: i64, kc: Seq<char>, idc: i64)
    ensures
        pair_le(ka, ida, kb, idb) || pair_le(kb, idb, ka, ida),
        pair_le(ka, ida, kb, idb) && pair_le(kb, idb, kc, idc) ==> pair_le(ka, ida, kc, idc),
{
    lemma_lex_total(ka, kb, 0);
    if pair_le(ka, ida, kb, idb) && pair_le(kb, idb, kc, idc) {
        if ka != kb && kb != kc {
            lemma_lex_transitive(ka, kb, kc, 0);
            if ka == kc {
                assert(ka.subrange(0, 0) =~= kb.subrange(0, 0));
                lemma_lex_antisymmetric(ka, kb, 0);
            }
        }
    }
}

fn key_pair_le(ka: &Vec<char>, ida: i64, kb: &Vec<char>, idb: i64) -> (r: bool)
    ensures
        r == pair_le(ka@, ida, kb@, idb),
{
    let ab = lex_le_chars(ka, kb);
    let ba = lex_le_chars(kb, ka);
    proof {
        if ab && ba {
            assert(ka@.subrange(0, 0) =~= kb@.subrange(0, 0));
            lemma_lex_antisymmetric(ka@, kb@, 0);
        }
        if ka@ == kb@ {
            lemma_lex_reflexive(ka@, 0);
        }
    }
    if ab && ba {
        ida <= idb
    } else {
        ab
    }
}

/// The size an asset counts with: its recorded size, or zero where that is
/// negative.
pub open spec fn counted_size(a: PlanAsset) -> nat {
    if a.file_size < 0 {
        0
    } else {
        a.file_size as nat
    }
}

/// The bytes of all assets.
pub open spec fn total_size(s: Seq<PlanAsset>) -> nat
    decreases s.len(),
{
    if s.len() == 0 {
        0
    } else {
        total_size(s.drop_last()) + counted_size(s.last())
    }
}

proof fn lemma_total_size_insert(s: Seq<PlanAsset>, p: int, x: PlanAsset)
    requires
        0 <= p <= s.len(),
    ensures
        total_size(s.insert(p, x)) == total_size(s) + counted_size(x),
    decreases s.len(),
{
    if p == s.len() {
        assert(s.insert(p, x).drop_last() =~= s);
    } else {
        lemma_total_size_insert(s.drop_last(), p, x);
        assert(s.insert(p, x).drop_last() =~= s.drop_last().insert(p, x));
        assert(s.insert(p, x).last() == s.last());
    }
}

/// The assets in the plan's order: the same assets, sorted by normalized
/// relative path and then by id.
pub fn sort_assets(assets: Vec<PlanAsset>) -> (r: Vec<PlanAsset>)
    ensures
        r@.to_multiset() == assets@.to_multiset(),
        sorted_by_path(r@),
        r@.len() == assets@.len(),
        total_size(r@) == total_size(assets@),
{
    broadcast use vstd::multiset::group_multiset_axioms;

    let ghost total = assets@.to_multiset();
    let ghost input = assets@;
    let mut rest = assets;
    let mut out: Vec<PlanAsset> = Vec::new();
    let mut keys: Vec<Vec<char>> = Vec::new();
    proof {
        assert(out@.to_multiset() =~= vstd::multiset::Multiset::empty()) by {
            vstd::seq_lib::to_multiset_len(out@);
        }
    }
    while rest.len() > 0
        invariant
            rest@.to_multiset().add(out@.to_multiset()) == total,
            rest@.len() + out@.len() == input.len(),
            total_size(rest@) + total_size(out@) == total_size(input),
            sorted_by_path(out@),
            keys@.len() == out@.len(),
            forall|k: int| 0 <= k < keys@.len() ==> (#[trigger] keys@[k])@ == asset_key(out@[k]),
        decreases rest@.len(),
    {
        let ghost rest_before = rest@;
        let x = rest.pop().unwrap();
        proof {
            assert(rest_before =~= rest@.push(x));
            vstd::seq_lib::to_multiset_build(rest@, x);
        }
        let kx = chars_of(normalize_for_compare(x.relative_path.as_str()).as_str());
        let mut p: usize = 0;
        while p < out.len() && !key_pair_le(&kx, x.id, &keys[p], out[p].id)
            invariant
                p <= out@.len(),
                keys@.len() == out@.len(),
                kx@ == asset_key(x),
                forall|k: int| 0 <= k < keys@.len() ==> (#[trigger] keys@[k])@ == asset_key(out@[k]),
                forall|k: int| 0 <= k < p ==> !asset_le(x, #[trigger] out@[k]),
            decreases out@.len() - p,
        {
            p += 1;
        }
        let ghost before = out@;
        let ghost keys_before = keys@;
        proof {
            assert forall|i: int, j: int| 0 <= i < j < before.len() + 1 implies asset_le(
                #[trigger] before.insert(p as int, x)[i],
                #[trigger] before.insert(p as int, x)[j],
            ) by {
                let s = before.insert(p as int, x);
                if j == p {
                    assert(s[i] == before[i]);
                    lemma_pair_le(asset_key(x), x.id, asset_key(before[i]), before[i].id, asset_key(x), x.id);
                } else if i == p {
                    assert(s[j] == before[j - 1]);
                    assert(asset_le(x, before[p as int]));
                    if j - 1 > p {
                        assert(asset_le(before[p as int], before[j - 1]));
                    }
                    lemma_pair_le(
                        asset_key(x),
                        x.id,
                        asset_key(before[p as int]),
                        before[p as int].id,
                        asset_key(before[j - 1]),
                        before[j - 1].id,
                    );
                } else if i < p && j < p {
                    assert(s[i] == before[i] && s[j] == before[j]);
                } else if i < p && j > p {
                    assert(s[i] == before[i] && s[j] == before[j - 1]);
                } else {
                    assert(s[i] == before[i - 1] && s[j] == before[j - 1]);
                }
            }
            vstd::seq_lib::to_multiset_insert(before, p as int, x);
            lemma_total_size_insert(before, p as int, x);
        }
        out.insert(p, x);
        keys.insert(p, kx);
        proof {
            assert(out@ == before.insert(p as int, x));
            assert forall|k: int| 0 <= k < keys@.len() implies (#[trigger] keys@[k])@ == asset_key(out@[k]) by {
                if k > p {
                    assert(keys@[k] == keys_before[k - 1]);
                    assert(out@[k] == before[k - 1]);
                } else if k < p {
                    assert(keys@[k] == keys_before[k]);
                    assert(out@[k] == before[k]);
                }
            }
        }
    }
    proof {
        assert(rest@.to_multiset() =~= vstd::multiset::Multiset::empty()) by {
            vstd::seq_lib::to_multiset_len(rest@);
        }
        assert(out@.to_multiset() =~= total);
    }
    out
}

// ---------------------------------------------------------------------------
// Drafting one item
// ---------------------------------------------------------------------------

/// What is on disk at an asset's source path: whether it is a file, and,
/// where they could be read, its size and its modification time in
/// seconds since the UNIX epoch.
#[derive(Debug, Clone, Copy, PartialEq, Eq, Structural)]
pub struct SourceState {
    pub is_file: bool,
    pub size_on_disk: Option<u64>,
    pub modified_on_disk: Option<i64>,
}

/// A relative path of plain components joined by `/`, read alike on every
/// platform: not empty; no `\` and no `:` (no other separator, no drive or
/// network prefix); no `/` at either end and no two in a row (no root, no
/// empty component); and no component `.` (every component that starts
/// with a dot has more after it).
pub open spec fn plain_slash_path(p: Seq<char>) -> bool {
    &&& p.len() > 0
    &&& !p.contains('\\')
    &&& !p.contains(':')
    &&& forall|i: int| 0 <= i < p.len() && #[trigger] p[i] == '/' ==> 0 < i < p.len() - 1 && p[i + 1] != '/'
    &&& forall|i: int|
        0 <= i < p.len() && #[trigger] p[i] == '.' && (i == 0 || p[i - 1] == '/') ==> i + 1 < p.len()
            && p[i + 1] != '/'
}

/// The path without its last `/`-separated component: what precedes the
/// last `/`, or nothing where there is none.
pub open spec fn slash_parent(p: Seq<char>) -> Seq<char> {
    match last_index(p, '/') {
        Some(k) => p.take(k),
        None => Seq::empty(),
    }
}

/// Calls `Path::parent` and converts the parent to a string. As its
/// documentation says, the parent is the path without its final component
/// (`foo` has the parent ``, `foo/bar` has `foo`): for a path of plain
/// components joined by `/`, it is what precedes the last `/`. How other
/// paths split into components depends on the platform and is not stated.
#[verifier::external_body]
pub(crate) fn path_parent(path: &str) -> (r: Option<String>)
    ensures
        plain_slash_path(path@) ==> crate::scanner::opt_view(r) == Some(slash_parent(path@)),
{
    match std::path::Path::new(path).parent() {
        Some(parent) => Some(parent.to_string_lossy().into_owned()),
        None => None,
    }
}

/// Calls `Path::is_file`. What is on disk can change at any time, so
/// nothing is stated of the result.
#[verifier::external_body]
fn path_is_file(path: &str) -> bool {
    std::path::Path::new(path).is_file()
}

/// Calls `Path::metadata` and reads the file's length and its modification
/// time in whole seconds since the UNIX epoch (where the platform gives
/// one). Nothing is stated of the result, which depends on the disk.
#[verifier::external_body]
fn metadata_on_disk(path: &str) -> Option<(u64, Option<i64>)> {
    match std::path::Path::new(path).metadata() {
        Ok(metadata) => Some((
            metadata.len(),
            match metadata.modified() {
                Ok(time) => match time.duration_since(std::time::UNIX_EPOCH) {
                    Ok(duration) => Some(duration.as_secs() as i64),
                    Err(_) => None,
                },
                Err(_) => None,
            },
        )),
        Err(_) => None,
    }
}

/// `s` with ASCII capitals in lowercase.
pub open spec fn ascii_lowercase(s: Seq<char>) -> Seq<char> {
    s.map_values(|c: char| if 'A' <= c && c <= 'Z' { ((c as u32) + 32) as char } else { c })
}

fn to_ascii_lower(c: char) -> (r: char)
    ensures
        r == (if 'A' <= c && c <= 'Z' { ((c as u32) + 32) as char } else { c }),
{
    if 'A' <= c && c <= 'Z' {
        let b = c as u8;
        assert(b as u32 == c as u32);
        (b + 32) as char
    } else {
        c
    }
}

/// A file name with the asset's extension: as it is when it already ends
/// with `.` and the extension (ignoring ASCII case in the name), otherwise
/// with them appended.
pub open spec fn with_extension(name: Seq<char>, ext: Seq<char>) -> Seq<char> {
    let suffix = seq!['.'] + ext;
    let lower = ascii_lowercase(name);
    if suffix.len() <= lower.len() && lower.skip(lower.len() - suffix.len()) == suffix {
        name
    } else {
        name + suffix
    }
}

fn same_chars(a: &Vec<char>, b: &Vec<char>) -> (r: bool)
    ensures
        r == (a@ == b@),
{
    if a.len() != b.len() {
        return false;
    }
    let mut k: usize = 0;
    while k < a.len()
        invariant
            k <= a@.len(),
            a@.len() == b@.len(),
            forall|j: int| 0 <= j < k ==> a@[j] == b@[j],
        decreases a@.len() - k,
    {
        if a[k] != b[k] {
            return false;
        }
        k += 1;
    }
    assert(a@ =~= b@);
    true
}

fn add_extension(name: String, ext: &str) -> (r: String)
    ensures
        r@ == with_extension(name@, ext@),
{
    let cs = chars_of(name.as_str());
    let es = chars_of(ext);
    let mut suffix: Vec<char> = Vec::new();
    suffix.push('.');
    let mut k: usize = 0;
    while k < es.len()
        invariant
            k <= es@.len(),
            suffix@ == seq!['.'] + es@.take(k as int),
        decreases es@.len() - k,
    {
        suffix.push(es[k]);
        k += 1;
        assert(suffix@ =~= seq!['.'] + es@.take(k as int));
    }
    assert(es@.take(es@.len() as int) =~= es@);
    let ghost lower = ascii_lowercase(cs@);
    let mut matches = false;
    if suffix.len() <= cs.len() {
        let start = cs.len() - suffix.len();
        let mut tail: Vec<char> = Vec::new();
        let mut j: usize = start;
        while j < cs.len()
            invariant
                start <= j <= cs@.len(),
                lower == ascii_lowercase(cs@),
                tail@ == lower.subrange(start as int, j as int),
            decreases cs@.len() - j,
        {
            tail.push(to_ascii_lower(cs[j]));
            j += 1;
            assert(tail@ =~= lower.subrange(start as int, j as int));
        }
        assert(lower.subrange(start as int, cs@.len() as int) =~= lower.skip(start as int));
        matches = same_chars(&tail, &suffix);
    }
    if matches {
        name
    } else {
        let mut out = name;
        let mut k: usize = 0;
        let ghost head = out@;
        while k < suffix.len()
            invariant
                k <= suffix@.len(),
                out@ == head + suffix@.take(k as int),
            decreases suffix@.len() - k,
        {
            push_char(&mut out, suffix[k]);
            k += 1;
            assert(out@ =~= head + suffix@.take(k as int));
        }
        assert(suffix@.take(suffix@.len() as int) =~= suffix@);
        out
    }
}

/// The parts joined by slashes.
pub open spec fn join_slash(parts: Seq<Seq<char>>) -> Seq<char>
    decreases parts.len(),
{
    if parts.len() == 0 {
        Seq::empty()
    } else if parts.len() == 1 {
        parts[0]
    } else {
        join_slash(parts.drop_last()) + seq!['/'] + parts.last()
    }
}

fn join_folders(folders: &Vec<String>, file_name: &str) -> (r: String)
    ensures
        r@ == join_slash(folders@.map_values(|s: String| s@).push(file_name@)),
{
    let ghost parts = folders@.map_values(|s: String| s@).push(file_name@);
    let mut out = String::new();
    let mut i: usize = 0;
    while i < folders.len()
        invariant
            i <= folders@.len(),
            parts == folders@.map_values(|s: String| s@).push(file_name@),
            i > 0 ==> out@ == join_slash(parts.take(i as int)),
            i == 0 ==> out@ == Seq::<char>::empty(),
        decreases folders@.len() - i,
    {
        assert(parts.take(i + 1).drop_last() =~= parts.take(i as int));
        assert(parts.take(i + 1).last() == folders@[i as int]@);
        if i > 0 {
            push_char(&mut out, '/');
        }
        out = concat(out.as_str(), folders[i].as_str());
        i += 1;
    }
    assert(parts.take(folders@.len() as int + 1) =~= parts);
    assert(parts.take(folders@.len() as int + 1).drop_last() =~= parts.take(folders@.len() as int));
    if folders.len() > 0 {
        push_char(&mut out, '/');
    }
    concat(out.as_str(), file_name)
}

pub open spec fn escape_name_detail() -> Seq<char> {
    "文件名模板不能注入目录分隔符。"@
}

pub open spec fn source_missing_detail() -> Seq<char> {
    "源文件当前不可读取，预览不会替代缺失文件。"@
}

pub open spec fn source_changed_detail() -> Seq<char> {
    "源文件大小或修改时间已变化；生成计划前请重新扫描。"@
}

/// The name a template renders for an asset, or the asset's own file name
/// where it renders none.
pub open spec fn rendered_name(asset: PlanAsset, rules: OrganizationRules, tokens: Seq<TokenView>, ordinal: u32) -> Seq<char> {
    let fb = rules.missing_fallback;
    match spec_render_template(
        tokens,
        spec_context_values(asset, fb, ordinal),
        capture_resolution(opt_string_view(asset.capture_time), asset.modified_at, fb).0,
        ordinal,
    ) {
        Ok(name) => name,
        Err(_) => asset.file_name@,
    }
}

/// The target an asset renders to, relative to the target root: its level
/// folders and its file name, joined by slashes.
pub open spec fn draft_target(
    asset: PlanAsset,
    rules: OrganizationRules,
    tokens: Seq<TokenView>,
    ordinal: u32,
    parent: Option<Seq<char>>,
) -> Seq<char> {
    let fb = rules.missing_fallback;
    join_slash(
        levels_folders(
            rules.levels@,
            rules.levels@.len() as int,
            spec_context_values(asset, fb, ordinal),
            capture_resolution(opt_string_view(asset.capture_time), asset.modified_at, fb).0,
            parent,
            asset.modified_at,
        ).push(with_extension(rendered_name(asset, rules, tokens, ordinal), asset.extension@)),
    )
}

/// The error a rendered name with a path separator raises.
pub open spec fn escape_issues(source: Seq<char>, name: Seq<char>) -> Seq<IssueView> {
    if name.contains('/') || name.contains('\\') {
        seq![
            (
                "target_escape"@,
                OrganizationIssueSeverity::Error,
                Some(source),
                Some(name),
                escape_name_detail(),
            ),
        ]
    } else {
        Seq::empty()
    }
}

/// The file size recorded as an `i64`, with sizes beyond it saturated.
pub open spec fn clamped_size(len: u64) -> i64 {
    if len > i64::MAX as u64 {
        i64::MAX
    } else {
        len as i64
    }
}

/// What the disk says of the source: an error when the asset is not
/// present or not a file, a warning when its size or modification time
/// differ from what the scan recorded.
pub open spec fn source_issues(asset: PlanAsset, source: SourceState) -> Seq<IssueView> {
    let path = asset.absolute_path@;
    if asset.file_status@ != "present"@ || !source.is_file {
        seq![
            (
                "source_missing"@,
                OrganizationIssueSeverity::Error,
                Some(path),
                None,
                source_missing_detail(),
            ),
        ]
    } else {
        match source.size_on_disk {
            Some(len) => if clamped_size(len) != asset.file_size || (
            source.modified_on_disk matches Some(m) && m != asset.modified_at) {
                seq![
                    (
                        "source_changed"@,
                        OrganizationIssueSeverity::Warning,
                        Some(path),
                        None,
                        source_changed_detail(),
                    ),
                ]
            } else {
                Seq::empty()
            },
            None => Seq::empty(),
        }
    }
}

/// `d` is the draft of `asset` numbered `ordinal`, given the parent of its
/// relative path, the full path of its target and what is on disk.
pub open spec fn draft_matches(
    d: DraftItem,
    asset: PlanAsset,
    rules: OrganizationRules,
    tokens: Seq<TokenView>,
    ordinal: u32,
    parent: Option<Seq<char>>,
    full: Seq<char>,
    source: SourceState,
) -> bool {
    let fb = rules.missing_fallback;
    let values = spec_context_values(asset, fb, ordinal);
    let capture = capture_resolution(opt_string_view(asset.capture_time), asset.modified_at, fb).0;
    let path = asset.absolute_path@;
    let relative = draft_target(asset, rules, tokens, ordinal, parent);
    let checks = relative_target_issues(relative, full, path);
    &&& d.item.ordinal == ordinal
    &&& d.item.asset_id == asset.id
    &&& d.item.source_path@ == path
    &&& d.item.source_relative_path@ == asset.relative_path@
    &&& d.item.source_fingerprint@ == spec_asset_fingerprint(asset)
    &&& d.item.target_relative_path@ == relative
    &&& d.item.target_path@ == Seq::<char>::empty()
    &&& d.item.file_size == (if asset.file_size < 0 { 0 } else { asset.file_size as u64 })
    &&& pair_views(d.item.variables@) == values
    &&& issue_views(d.item.issues@) == spec_context_issues(asset, fb) + levels_issues(
        rules.levels@,
        rules.levels@.len() as int,
        values,
        capture,
        parent,
        asset.modified_at,
        path,
    ) + escape_issues(path, rendered_name(asset, rules, tokens, ordinal)) + checks + source_issues(asset, source)
    &&& d.item.status == spec_status_for_issues(d.item.issues@)
    &&& d.valid_target == (checks.len() == 0)
}

/// Drafts the plan item of an asset numbered `ordinal` under the target
/// root, from what the platform and the disk said: the parent of its
/// relative path and the state of its source. The full path of the target
/// is joined as the platform joins paths.
pub fn draft_from(
    asset: &PlanAsset,
    rules: &OrganizationRules,
    tokens: &Vec<TemplateToken>,
    ordinal: u32,
    target_root: &str,
    parent: &Option<String>,
    source: SourceState,
) -> (r: DraftItem)
    ensures
        exists|full: Seq<char>|
            #[trigger] draft_matches(r, *asset, *rules, token_views(tokens@), ordinal, opt_string_view(*parent), full, source),
{
    let (context, mut issues) = render_context(asset, rules, ordinal);
    let levels = render_levels(asset, rules, &context, parent, &mut issues);
    let rendered = match render_template(tokens, &context, ordinal) {
        Ok(name) => name,
        Err(_) => asset.file_name.clone(),
    };
    let ghost name = rendered@;
    let ghost mid = issue_views(issues@);
    let ghost fb = rules.missing_fallback;
    let ghost values = spec_context_values(*asset, fb, ordinal);
    let ghost capture = capture_resolution(opt_string_view(asset.capture_time), asset.modified_at, fb).0;
    assert(name == rendered_name(*asset, *rules, token_views(tokens@), ordinal));
    assert(mid == spec_context_issues(*asset, fb) + levels_issues(
        rules.levels@,
        rules.levels@.len() as int,
        values,
        capture,
        opt_string_view(*parent),
        asset.modified_at,
        asset.absolute_path@,
    ));
    let rendered_chars = chars_of(rendered.as_str());
    if contains_char(&rendered_chars, '/') || contains_char(&rendered_chars, '\\') {
        push_issue(
            &mut issues,
            issue(
                "target_escape",
                OrganizationIssueSeverity::Error,
                Some(asset.absolute_path.clone()),
                Some(rendered.clone()),
                "文件名模板不能注入目录分隔符。",
            ),
        );
    } else {
        assert(issue_views(issues@) =~= mid + Seq::<IssueView>::empty());
    }
    let file_name = add_extension(rendered, asset.extension.as_str());
    let relative = join_folders(&levels, file_name.as_str());
    let full_path = target_path_of(target_root, relative.as_str());
    let valid = check_relative_target(relative.as_str(), full_path.as_str(), asset.absolute_path.as_str(), &mut issues);
    let ghost checked = issue_views(issues@);
    assert(checked == mid + escape_issues(asset.absolute_path@, name) + relative_target_issues(relative@, full_path@, asset.absolute_path@));
    assert(relative@ == draft_target(*asset, *rules, token_views(tokens@), ordinal, opt_string_view(*parent)));
    let path = asset.absolute_path.as_str();
    if !str_eq(asset.file_status.as_str(), "present") || !source.is_file {
        push_issue(
            &mut issues,
            issue(
                "source_missing",
                OrganizationIssueSeverity::Error,
                Some(asset.absolute_path.clone()),
                None,
                "源文件当前不可读取，预览不会替代缺失文件。",
            ),
        );
    } else {
        let changed = match source.size_on_disk {
            Some(len) => {
                let recorded: i64 = if len > 0x7FFF_FFFF_FFFF_FFFFu64 {
                    0x7FFF_FFFF_FFFF_FFFFi64
                } else {
                    len as i64
                };
                recorded != asset.file_size || match source.modified_on_disk {
                    Some(m) => m != asset.modified_at,
                    None => false,
                }
            },
            None => false,
        };
        if changed {
            push_issue(
                &mut issues,
                issue(
                    "source_changed",
                    OrganizationIssueSeverity::Warning,
                    Some(asset.absolute_path.clone()),
                    None,
                    "源文件大小或修改时间已变化；生成计划前请重新扫描。",
                ),
            );
        } else {
            assert(issue_views(issues@) =~= checked + Seq::<IssueView>::empty());
        }
    }
    assert(issue_views(issues@) == checked + source_issues(*asset, source));
    let status = status_for_issues(&issues);
    let file_size: u64 = if asset.file_size < 0 {
        0
    } else {
        asset.file_size as u64
    };
    let draft = DraftItem {
        item: OrganizationPlanItem {
            ordinal,
            asset_id: asset.id,
            source_path: asset.absolute_path.clone(),
            source_relative_path: asset.relative_path.clone(),
            source_fingerprint: asset_fingerprint(asset),
            target_relative_path: relative,
            target_path: String::new(),
            file_size,
            status,
            variables: context.values,
            issues,
        },
        valid_target: valid,
    };
    assert(draft_matches(draft, *asset, *rules, token_views(tokens@), ordinal, opt_string_view(*parent), full_path@, source));
    draft
}

/// Drafting is deterministic: two drafts of the same asset, under the same
/// rules and template, with the same ordinal, parent path, full target path
/// and state of the source, have the same target, variables, issues, status
/// and validity.
pub proof fn lemma_drafts_are_deterministic(
    a: DraftItem,
    b: DraftItem,
    asset: PlanAsset,
    rules: OrganizationRules,
    tokens: Seq<TokenView>,
    ordinal: u32,
    parent: Option<Seq<char>>,
    full: Seq<char>,
    source: SourceState,
)
    requires
        draft_matches(a, asset, rules, tokens, ordinal, parent, full, source),
        draft_matches(b, asset, rules, tokens, ordinal, parent, full, source),
    ensures
        a.item.target_relative_path@ == b.item.target_relative_path@,
        pair_views(a.item.variables@) == pair_views(b.item.variables@),
        issue_views(a.item.issues@) == issue_views(b.item.issues@),
        a.item.status == b.item.status,
        a.valid_target == b.valid_target,
{
    let (ia, ib) = (a.item.issues@, b.item.issues@);
    assert(ia.len() == issue_views(ia).len());
    assert(ib.len() == issue_views(ib).len());
    if exists|i: int| 0 <= i < ia.len() && (#[trigger] ia[i]).severity == OrganizationIssueSeverity::Error {
        let i = choose|i: int| 0 <= i < ia.len() && (#[trigger] ia[i]).severity == OrganizationIssueSeverity::Error;
        assert(issue_views(ia)[i] == issue_views(ib)[i]);
        assert(ib[i].severity == OrganizationIssueSeverity::Error);
    }
    if exists|i: int| 0 <= i < ib.len() && (#[trigger] ib[i]).severity == OrganizationIssueSeverity::Error {
        let i = choose|i: int| 0 <= i < ib.len() && (#[trigger] ib[i]).severity == OrganizationIssueSeverity::Error;
        assert(issue_views(ia)[i] == issue_views(ib)[i]);
        assert(ia[i].severity == OrganizationIssueSeverity::Error);
    }
}

/// `d` is the draft of `asset` numbered `ordinal`, for the parent that
/// `Path::parent` gives its relative path, some full target path and some
/// state of the source on disk.
pub open spec fn drafted(
    d: DraftItem,
    asset: PlanAsset,
    rules: OrganizationRules,
    tokens: Seq<TokenView>,
    ordinal: u32,
) -> bool {
    &&& d.item.ordinal == ordinal
    &&& d.item.asset_id == asset.id
    &&& d.item.source_path@ == asset.absolute_path@
    &&& d.item.source_relative_path@ == asset.relative_path@
    &&& d.item.file_size == counted_size(asset)
    &&& exists|parent: Option<Seq<char>>, full: Seq<char>, source: SourceState|
        #[trigger] draft_matches(d, asset, rules, tokens, ordinal, parent, full, source)
            && parent_of_relative(asset.relative_path@, parent)
}

/// `parent` is what `Path::parent` gives for the relative path `relative`:
/// for a path of plain `/`-separated components, what precedes its last
/// `/`.
pub open spec fn parent_of_relative(relative: Seq<char>, parent: Option<Seq<char>>) -> bool {
    plain_slash_path(relative) ==> parent == Some(slash_parent(relative))
}

/// Drafts the plan item of an asset numbered `ordinal` under the target
/// root, reading the parent of its relative path from the platform and the
/// state of its source from the disk.
pub fn draft_item(
    asset: &PlanAsset,
    rules: &OrganizationRules,
    tokens: &Vec<TemplateToken>,
    ordinal: u32,
    target_root: &str,
) -> (r: DraftItem)
    ensures
        drafted(r, *asset, *rules, token_views(tokens@), ordinal),
{
    let parent = path_parent(asset.relative_path.as_str());
    let path = asset.absolute_path.as_str();
    let present = str_eq(asset.file_status.as_str(), "present");
    let is_file = if present {
        path_is_file(path)
    } else {
        false
    };
    let source = if is_file {
        match metadata_on_disk(path) {
            Some((len, modified)) => SourceState { is_file, size_on_disk: Some(len), modified_on_disk: modified },
            None => SourceState { is_file, size_on_disk: None, modified_on_disk: None },
        }
    } else {
        SourceState { is_file, size_on_disk: None, modified_on_disk: None }
    };
    let r = draft_from(asset, rules, tokens, ordinal, target_root, &parent, source);
    proof {
        let full = choose|full: Seq<char>|
            draft_matches(r, *asset, *rules, token_views(tokens@), ordinal, opt_string_view(parent), full, source);
        assert(draft_matches(r, *asset, *rules, token_views(tokens@), ordinal, opt_string_view(parent), full, source));
        assert(parent_of_relative(asset.relative_path@, opt_string_view(parent)));
    }
    r
}

// ---------------------------------------------------------------------------
// The plan
// ---------------------------------------------------------------------------

/// The text the source snapshot digests: each asset's id and fingerprint,
/// as `id:fingerprint;`, in order.
pub open spec fn snapshot_text(assets: Seq<PlanAsset>) -> Seq<char>
    decreases assets.len(),
{
    if assets.len() == 0 {
        Seq::empty()
    } else {
        snapshot_text(assets.drop_last()) + signed_decimal(assets.last().id as int) + seq![':']
            + spec_asset_fingerprint(assets.last()) + seq![';']
    }
}

/// A digest of the assets a plan was built from, in order.
pub fn source_snapshot(assets: &Vec<PlanAsset>) -> (r: String)
    ensures
        r@ == blake3_hex(snapshot_text(assets@)),
{
    let mut text = String::new();
    let mut i: usize = 0;
    while i < assets.len()
        invariant
            i <= assets@.len(),
            text@ == snapshot_text(assets@.take(i as int)),
        decreases assets@.len() - i,
    {
        assert(assets@.take(i + 1).drop_last() =~= assets@.take(i as int));
        let id = i64_to_string(assets[i].id);
        text = concat(text.as_str(), id.as_str());
        push_char(&mut text, ':');
        let fingerprint = asset_fingerprint(&assets[i]);
        text = concat(text.as_str(), fingerprint.as_str());
        push_char(&mut text, ';');
        i += 1;
    }
    assert(assets@.take(assets@.len() as int) =~= assets@);
    hash_hex(text.as_str())
}

/// The issue codes of a target that cannot be written as it is.
pub open spec fn path_error_code(code: Seq<char>) -> bool {
    code == "invalid_segment"@ || code == "reserved_name"@ || code == "path_too_long"@ || code
        == "target_escape"@
}

pub open spec fn has_path_error(issues: Seq<OrganizationIssue>) -> bool {
    exists|k: int| 0 <= k < issues.len() && path_error_code(#[trigger] issues[k].code@)
}

fn any_path_error(issues: &Vec<OrganizationIssue>) -> (r: bool)
    ensures
        r == has_path_error(issues@),
{
    let mut k: usize = 0;
    while k < issues.len()
        invariant
            k <= issues@.len(),
            forall|j: int| 0 <= j < k ==> !path_error_code(#[trigger] issues@[j].code@),
        decreases issues@.len() - k,
    {
        let code = issues[k].code.as_str();
        if str_eq(code, "invalid_segment") || str_eq(code, "reserved_name") || str_eq(code, "path_too_long")
            || str_eq(code, "target_escape") {
            assert(path_error_code(issues@[k as int].code@));
            return true;
        }
        k += 1;
    }
    false
}

/// The plan item `n` finished from the resolved draft `d`: its target path
/// is joined under the target root, and a target that cannot be written is
/// an error.
pub open spec fn finalized(n: OrganizationPlanItem, d: OrganizationPlanItem) -> bool {
    &&& n.ordinal == d.ordinal
    &&& n.asset_id == d.asset_id
    &&& n.source_path == d.source_path
    &&& n.source_relative_path == d.source_relative_path
    &&& n.source_fingerprint == d.source_fingerprint
    &&& n.target_relative_path == d.target_relative_path
    &&& n.file_size == d.file_size
    &&& n.variables == d.variables
    &&& n.issues == d.issues
    &&& n.status == (if has_path_error(d.issues@) {
        OrganizationItemStatus::Error
    } else {
        d.status
    })
}

/// The number of issues that `f` selects.
pub open spec fn count_where(s: Seq<OrganizationIssue>, f: spec_fn(OrganizationIssue) -> bool) -> nat
    decreases s.len(),
{
    if s.len() == 0 {
        0
    } else {
        count_where(s.drop_last(), f) + if f(s.last()) {
            1nat
        } else {
            0nat
        }
    }
}

/// The number of issues of all items that `f` selects.
pub open spec fn items_count_where(items: Seq<OrganizationPlanItem>, f: spec_fn(OrganizationIssue) -> bool) -> nat
    decreases items.len(),
{
    if items.len() == 0 {
        0
    } else {
        items_count_where(items.drop_last(), f) + count_where(items.last().issues@, f)
    }
}

/// `n` as a `u64`, saturated at its maximum.
pub open spec fn saturated(n: nat) -> u64 {
    if n > u64::MAX {
        u64::MAX
    } else {
        n as u64
    }
}

/// `t` occurs in `s`.
pub open spec fn contains_text(s: Seq<char>, t: Seq<char>) -> bool {
    exists|k: int| 0 <= k && k + t.len() <= s.len() && #[trigger] s.subrange(k, k + t.len()) == t
}

/// The kinds of issues a plan counts.
#[derive(Debug, Clone, Copy, PartialEq, Eq, Structural)]
pub enum IssueCount {
    Errors,
    Warnings,
    Conflicts,
}

pub open spec fn counted_issue(which: IssueCount) -> spec_fn(OrganizationIssue) -> bool {
    |i: OrganizationIssue|
        match which {
            IssueCount::Errors => i.severity == OrganizationIssueSeverity::Error,
            IssueCount::Warnings => i.severity == OrganizationIssueSeverity::Warning,
            IssueCount::Conflicts => contains_text(i.code@, "conflict"@) || i.code@ == "existing_target"@,
        }
}

fn contains_str(s: &str, t: &str) -> (r: bool)
    ensures
        r == contains_text(s@, t@),
{
    let cs = chars_of(s);
    let ts = chars_of(t);
    if ts.len() > cs.len() {
        return false;
    }
    let last = cs.len() - ts.len();
    let mut k: usize = 0;
    loop
        invariant
            ts@.len() <= cs@.len(),
            last == cs@.len() - ts@.len(),
            k <= last,
            cs@ == s@,
            ts@ == t@,
            forall|j: int| 0 <= j < k ==> #[trigger] cs@.subrange(j, j + ts@.len()) != ts@,
        decreases last - k,
    {
        assert(cs@.skip(k as int).take(ts@.len() as int) =~= cs@.subrange(k as int, k + ts@.len()));
        if starts_at(&cs, k, &ts) {
            return true;
        }
        if k == last {
            return false;
        }
        k += 1;
    }
}

fn issue_counts(issue: &OrganizationIssue, which: IssueCount) -> (r: bool)
    ensures
        r == (counted_issue(which))(*issue),
{
    match which {
        IssueCount::Errors => issue.severity == OrganizationIssueSeverity::Error,
        IssueCount::Warnings => issue.severity == OrganizationIssueSeverity::Warning,
        IssueCount::Conflicts => contains_str(issue.code.as_str(), "conflict") || str_eq(
            issue.code.as_str(),
            "existing_target",
        ),
    }
}

/// The number of issues of the items of the given kind, saturated.
pub fn count_issues(items: &Vec<OrganizationPlanItem>, which: IssueCount) -> (r: u64)
    ensures
        r == saturated(items_count_where(items@, counted_issue(which))),
{
    let ghost f = counted_issue(which);
    let mut total: u64 = 0;
    let mut i: usize = 0;
    while i < items.len()
        invariant
            i <= items@.len(),
            f == counted_issue(which),
            total == saturated(items_count_where(items@.take(i as int), f)),
        decreases items@.len() - i,
    {
        assert(items@.take(i + 1).drop_last() =~= items@.take(i as int));
        let ghost base = items_count_where(items@.take(i as int), f);
        let issues = &items[i].issues;
        let mut k: usize = 0;
        while k < issues.len()
            invariant
                k <= issues@.len(),
                f == counted_issue(which),
                total == saturated(base + count_where(issues@.take(k as int), f)),
            decreases issues@.len() - k,
        {
            assert(issues@.take(k + 1).drop_last() =~= issues@.take(k as int));
            if issue_counts(&issues[k], which) {
                if total < u64::MAX {
                    total = total + 1;
                }
            }
            k += 1;
        }
        assert(issues@.take(issues@.len() as int) =~= issues@);
        i += 1;
    }
    assert(items@.take(items@.len() as int) =~= items@);
    total
}

/// The status of a plan: errors first, then warnings, else ready.
pub open spec fn plan_status(errors: u64, warnings: u64) -> Seq<char> {
    if errors > 0 {
        "has_errors"@
    } else if warnings > 0 {
        "has_warnings"@
    } else {
        "ready"@
    }
}

/// Two rule sets alike in every field.
pub open spec fn same_rules(a: OrganizationRules, b: OrganizationRules) -> bool {
    &&& a.version@ == b.version@
    &&& a.levels@ == b.levels@
    &&& a.template@ == b.template@
    &&& a.sequence_start == b.sequence_start
    &&& a.sequence_width == b.sequence_width
    &&& a.missing_fallback == b.missing_fallback
    &&& a.conflict_strategy == b.conflict_strategy
}

/// A copy of a rule set.
pub fn copy_rules(rules: &OrganizationRules) -> (r: OrganizationRules)
    ensures
        same_rules(r, *rules),
{
    let mut levels: Vec<OrganizationLevel> = Vec::new();
    let mut i: usize = 0;
    while i < rules.levels.len()
        invariant
            i <= rules.levels@.len(),
            levels@ == rules.levels@.take(i as int),
        decreases rules.levels@.len() - i,
    {
        levels.push(rules.levels[i]);
        i += 1;
        assert(levels@ =~= rules.levels@.take(i as int));
    }
    assert(rules.levels@.take(rules.levels@.len() as int) =~= rules.levels@);
    OrganizationRules {
        version: rules.version.clone(),
        levels,
        template: rules.template.clone(),
        sequence_start: rules.sequence_start,
        sequence_width: rules.sequence_width,
        missing_fallback: rules.missing_fallback,
        conflict_strategy: rules.conflict_strategy,
    }
}

/// Calls `Path::file_name` and converts the name to a string where it is
/// valid Unicode. As its documentation says, the name is the final
/// component of the path, there is none where the path ends in `..`, and
/// repeated and trailing separators and `.` components are normalized
/// away: for a `/`-separated path it is the last component left. How other
/// paths split into components depends on the platform and is not stated.
#[verifier::external_body]
pub(crate) fn path_file_name(path: &str) -> (r: Option<String>)
    ensures
        crate::scanner::slash_separated(path@) ==> crate::scanner::opt_view(r)
            == crate::scanner::slash_file_name(path@),
{
    match std::path::Path::new(path).file_name() {
        Some(name) => match name.to_str() {
            Some(text) => Some(text.to_owned()),
            None => None,
        },
        None => None,
    }
}

/// A lowercase hexadecimal digit.
pub open spec fn is_lower_hex(c: char) -> bool {
    ('0' <= c && c <= '9') || ('a' <= c && c <= 'f')
}

/// A UUID in hyphenated form: 36 characters, hyphens at positions 8, 13, 18
/// and 23, lowercase hexadecimal digits everywhere else.
pub open spec fn hyphenated_uuid(s: Seq<char>) -> bool {
    &&& s.len() == 36
    &&& forall|i: int|
        0 <= i < 36 ==> if i == 8 || i == 13 || i == 18 || i == 23 {
            #[trigger] s[i] == '-'
        } else {
            is_lower_hex(s[i])
        }
}

/// Calls `uuid::Uuid::new_v4` and writes the identifier as text. The value
/// is random; its text, as `Display` writes it through the hyphenated
/// lowercase form, is 36 characters: groups of 8, 4, 4, 4 and 12 lowercase
/// hexadecimal digits separated by hyphens.
#[verifier::external_body]
fn new_plan_id() -> (r: String)
    ensures
        hyphenated_uuid(r@),
{
    uuid::Uuid::new_v4().to_string()
}

/// Calls `chrono::Utc::now` and writes the instant in RFC 3339. It is the
/// current time, so nothing is stated of it.
#[verifier::external_body]
fn now_rfc3339() -> String {
    chrono::Utc::now().to_rfc3339()
}

/// The tokens of the rules' naming template (none where it does not parse).
pub open spec fn template_tokens(rules: OrganizationRules) -> Seq<TokenView> {
    match parse_template_spec(rules.template@) {
        Ok(tokens) => tokens,
        Err(_) => Seq::empty(),
    }
}

proof fn lemma_total_size_prefix(s: Seq<PlanAsset>, k: int)
    requires
        0 <= k <= s.len(),
    ensures
        total_size(s.take(k)) <= total_size(s),
    decreases s.len() - k,
{
    if k < s.len() {
        lemma_total_size_prefix(s, k + 1);
        assert(s.take(k + 1).drop_last() =~= s.take(k));
    } else {
        assert(s.take(k) =~= s);
    }
}

/// The items of a plan came from the assets this way: the assets were
/// sorted into the plan's order (`sorted`, which the snapshot digests),
/// drafted one by one with ordinals from 1 (`drafts`), freed of conflicts
/// (`resolved`), and finished.
pub open spec fn plan_items_from(
    items: Seq<OrganizationPlanItem>,
    snapshot: Seq<char>,
    rules: OrganizationRules,
    assets: Seq<PlanAsset>,
    sorted: Seq<PlanAsset>,
    drafts: Seq<DraftItem>,
    resolved: Seq<DraftItem>,
) -> bool {
    &&& sorted.to_multiset() == assets.to_multiset()
    &&& sorted_by_path(sorted)
    &&& snapshot == blake3_hex(snapshot_text(sorted))
    &&& sorted.len() == drafts.len()
    &&& drafts.len() == resolved.len()
    &&& resolved.len() == items.len()
    &&& forall|i: int|
        0 <= i < sorted.len() ==> drafted(
            #[trigger] drafts[i],
            sorted[i],
            rules,
            template_tokens(rules),
            (i + 1) as u32,
        )
    &&& forall|i: int|
        0 <= i < sorted.len() ==> resolution(
            drafts,
            resolved,
            i,
            rules.conflict_strategy,
            rules.sequence_start,
            rules.sequence_width,
        )
    &&& exists|nexts: Seq<nat>|
        #[trigger] resolved_in_order(
            drafts,
            resolved,
            nexts,
            rules.conflict_strategy,
            rules.sequence_start,
            rules.sequence_width,
        )
    &&& forall|i: int| 0 <= i < sorted.len() ==> finalized(#[trigger] items[i], resolved[i].item)
}

/// The summary and tree of a plan of `n` items and `total` bytes built for
/// a request.
pub open spec fn plan_summary_ok(
    plan: OrganizationPlan,
    request: OrganizationPlanRequest,
    source_root: Seq<char>,
    n: nat,
    total: nat,
) -> bool {
    let s = plan.summary;
    &&& s.library_id == request.library_id
    &&& s.source_root@ == source_root
    &&& s.target_root@ == request.target_root@
    &&& s.scope == request.scope
    &&& s.item_count == n
    &&& plan.items@.len() == n
    &&& s.error_count == saturated(items_count_where(plan.items@, counted_issue(IssueCount::Errors)))
    &&& s.warning_count == saturated(items_count_where(plan.items@, counted_issue(IssueCount::Warnings)))
    &&& s.conflict_count == saturated(items_count_where(plan.items@, counted_issue(IssueCount::Conflicts)))
    &&& s.estimated_bytes == total
    &&& s.target_available_bytes is None
    &&& s.status@ == plan_status(s.error_count, s.warning_count)
    &&& same_rules(s.rules, request.rules)
    &&& plan.tree.file_count == n
    &&& plan.tree.byte_count == total
    &&& plan.tree.relative_path@ == Seq::<char>::empty()
    &&& tree_counts_nested(plan.tree)
}

/// Builds a read-only organization plan of `assets` from the source root
/// into the request's target root. Rules with any issue are refused with
/// the first one's detail; a target root that is empty, the source root or
/// inside it is refused as unsafe. Otherwise the assets are ordered by
/// normalized relative path and id, rendered under the rules, checked and
/// freed of conflicts, counted, and laid out as a tree.
pub fn build_plan(
    request: &OrganizationPlanRequest,
    source_root: &str,
    assets: Vec<PlanAsset>,
) -> (r: AppResult<OrganizationPlan>)
    requires
        assets@.len() <= u32::MAX,
        total_size(assets@) <= u64::MAX,
    ensures
        rule_issues_spec(request.rules).len() > 0 ==> (r matches Err(e) && is_invalid_argument(
            e,
            rule_issues_spec(request.rules)[0].1,
        )),
        rule_issues_spec(request.rules).len() == 0 && !target_outside_source(
            source_root@,
            request.target_root@,
        ) ==> (r matches Err(e) && is_unsafe_path(e, request.target_root@)),
        rule_issues_spec(request.rules).len() == 0 && target_outside_source(
            source_root@,
            request.target_root@,
        ) ==> r is Ok,
        r matches Ok(plan) ==> {
            &&& plan_summary_ok(plan, *request, source_root@, assets@.len(), total_size(assets@))
            &&& hyphenated_uuid(plan.summary.plan_id@)
            &&& forall|i: int|
                0 <= i < plan.items@.len() ==> is_target_path(
                    (#[trigger] plan.items@[i]).target_path@,
                    request.target_root@,
                    plan.items@[i].target_relative_path@,
                )
            &&& crate::scanner::slash_separated(request.target_root@) ==> plan.tree.name@ == match crate::scanner::slash_file_name(
                request.target_root@,
            ) {
                Some(name) => name,
                None => request.target_root@,
            }
            &&& exists|sorted: Seq<PlanAsset>, drafts: Seq<DraftItem>, resolved: Seq<DraftItem>|
                #[trigger] plan_items_from(
                    plan.items@,
                    plan.summary.source_snapshot@,
                    request.rules,
                    assets@,
                    sorted,
                    drafts,
                    resolved,
                )
            &&& request.rules.conflict_strategy != OrganizationConflictStrategy::ShortHash
                ==> forall|i: int, j: int|
                0 <= i < j < plan.items@.len() && writable(plan.items@[i]) && writable(plan.items@[j])
                    ==> normalized_for_compare(#[trigger] plan.items@[i].target_relative_path@)
                    != normalized_for_compare(#[trigger] plan.items@[j].target_relative_path@)
        },
{
    let ghost input = assets@;
    let rule_issues = validate_rules(&request.rules);
    if rule_issues.len() > 0 {
        return Err(AppError::InvalidArgument(rule_issues[0].detail.clone()));
    }
    let target_root = request.target_root.as_str();
    match validate_target_boundary(source_root, target_root) {
        Ok(()) => {},
        Err(e) => {
            return Err(e);
        },
    }
    let tokens = match parse_template(request.rules.template.as_str()) {
        Ok(tokens) => tokens,
        Err(message) => {
            assert(crate::organization::template_issues(request.rules.template@).len() > 0);
            return Err(AppError::InvalidArgument(message));
        },
    };
    assert(token_views(tokens@) == template_tokens(request.rules));
    let sorted = sort_assets(assets);
    let snapshot = source_snapshot(&sorted);
    let mut drafts: Vec<DraftItem> = Vec::new();
    let mut i: usize = 0;
    while i < sorted.len()
        invariant
            i <= sorted@.len(),
            sorted@.len() <= u32::MAX,
            drafts@.len() == i,
            token_views(tokens@) == template_tokens(request.rules),
            forall|k: int|
                0 <= k < i ==> drafted(
                    #[trigger] drafts@[k],
                    sorted@[k],
                    request.rules,
                    template_tokens(request.rules),
                    (k + 1) as u32,
                ),
        decreases sorted@.len() - i,
    {
        let d = draft_item(&sorted[i], &request.rules, &tokens, (i + 1) as u32, target_root);
        drafts.push(d);
        i += 1;
    }
    let ghost drafted_seq = drafts@;
    apply_conflicts(
        &mut drafts,
        target_root,
        &request.rules.conflict_strategy,
        request.rules.sequence_start,
        request.rules.sequence_width,
    );
    let ghost resolved = drafts@;
    let mut k: usize = 0;
    while k < drafts.len()
        invariant
            drafts@.len() == resolved.len(),
            k <= drafts@.len(),
            forall|j: int| 0 <= j < k ==> finalized(#[trigger] drafts@[j].item, resolved[j].item),
            forall|j: int| k <= j < drafts@.len() ==> #[trigger] drafts@[j] == resolved[j],
            target_root@ == request.target_root@,
            forall|j: int|
                0 <= j < k ==> is_target_path(
                    (#[trigger] drafts@[j]).item.target_path@,
                    target_root@,
                    drafts@[j].item.target_relative_path@,
                ),
        decreases drafts@.len() - k,
    {
        let target_path = target_path_of(target_root, drafts[k].item.target_relative_path.as_str());
        drafts[k].item.target_path = target_path;
        if any_path_error(&drafts[k].item.issues) {
            drafts[k].item.status = OrganizationItemStatus::Error;
        }
        k += 1;
    }
    let ghost finals = drafts@;
    let ghost n = finals.len();
    assert(forall|j: int|
        0 <= j < n ==> is_target_path(
            (#[trigger] finals[j]).item.target_path@,
            request.target_root@,
            finals[j].item.target_relative_path@,
        ));
    let mut reversed: Vec<OrganizationPlanItem> = Vec::new();
    while drafts.len() > 0
        invariant
            n == finals.len(),
            drafts@.len() <= n,
            drafts@ == finals.take(drafts@.len() as int),
            reversed@.len() + drafts@.len() == n,
            forall|j: int| 0 <= j < reversed@.len() ==> #[trigger] reversed@[j] == finals[n - 1 - j].item,
        decreases drafts@.len(),
    {
        let ghost before = drafts@;
        let d = drafts.pop().unwrap();
        assert(d == finals[before.len() - 1]);
        assert(drafts@ =~= finals.take(drafts@.len() as int));
        reversed.push(d.item);
    }
    let mut items: Vec<OrganizationPlanItem> = Vec::new();
    while reversed.len() > 0
        invariant
            n == finals.len(),
            items@.len() + reversed@.len() == n,
            forall|j: int| 0 <= j < reversed@.len() ==> #[trigger] reversed@[j] == finals[n - 1 - j].item,
            forall|j: int| 0 <= j < items@.len() ==> #[trigger] items@[j] == finals[j].item,
        decreases reversed@.len(),
    {
        let item = reversed.pop().unwrap();
        items.push(item);
    }
    proof {
        assert forall|q: int| 0 <= q < items@.len() implies (#[trigger] items@[q]).file_size == counted_size(
            sorted@[q],
        ) by {
            assert(drafted(drafted_seq[q], sorted@[q], request.rules, template_tokens(request.rules), (q + 1) as u32));
            assert(resolution(
                drafted_seq,
                resolved,
                q,
                request.rules.conflict_strategy,
                request.rules.sequence_start,
                request.rules.sequence_width,
            ));
            assert(finalized(finals[q].item, resolved[q].item));
        }
    }
    let root_name = match path_file_name(target_root) {
        Some(name) => name,
        None => target_root.to_owned(),
    };
    let ghost root_name_view = root_name@;
    assert(crate::scanner::slash_separated(request.target_root@) ==> root_name_view == match crate::scanner::slash_file_name(
        request.target_root@,
    ) {
        Some(name) => name,
        None => request.target_root@,
    });
    let mut tree = OrganizationTreeNode {
        name: root_name,
        relative_path: String::new(),
        file_count: 0,
        byte_count: 0,
        children: Vec::new(),
    };
    let mut bytes: u64 = 0;
    let mut j: usize = 0;
    assert(sorted@.take(0) =~= Seq::<PlanAsset>::empty());
    while j < items.len()
        invariant
            j <= items@.len(),
            items@.len() == sorted@.len(),
            sorted@.len() <= u32::MAX,
            forall|q: int| 0 <= q < items@.len() ==> (#[trigger] items@[q]).file_size == counted_size(sorted@[q]),
            total_size(sorted@) <= u64::MAX,
            bytes == total_size(sorted@.take(j as int)),
            tree.file_count == j,
            tree.byte_count == bytes,
            tree.relative_path@ == Seq::<char>::empty(),
            tree.name@ == root_name_view,
            tree_counts_nested(tree),
        decreases items@.len() - j,
    {
        proof {
            lemma_total_size_prefix(sorted@, j + 1);
            assert(sorted@.take(j + 1).drop_last() =~= sorted@.take(j as int));
            assert(items@[j as int].file_size == counted_size(sorted@[j as int]));
        }
        insert_tree_item(&mut tree, items[j].target_relative_path.as_str(), items[j].file_size);
        bytes = bytes + items[j].file_size;
        j += 1;
    }
    assert(sorted@.take(sorted@.len() as int) =~= sorted@);
    let conflict_count = count_issues(&items, IssueCount::Conflicts);
    let error_count = count_issues(&items, IssueCount::Errors);
    let warning_count = count_issues(&items, IssueCount::Warnings);
    let status = if error_count > 0 {
        "has_errors"
    } else if warning_count > 0 {
        "has_warnings"
    } else {
        "ready"
    };
    let summary = OrganizationPlanSummary {
        plan_id: new_plan_id(),
        library_id: request.library_id,
        source_root: source_root.to_owned(),
        target_root: request.target_root.clone(),
        scope: request.scope,
        item_count: items.len() as u64,
        conflict_count,
        error_count,
        warning_count,
        estimated_bytes: bytes,
        target_available_bytes: None,
        generated_at: now_rfc3339(),
        status: status.to_owned(),
        source_snapshot: snapshot,
        rules: copy_rules(&request.rules),
    };
    let plan = OrganizationPlan { summary, items, tree };
    proof {
        assert(plan_items_from(
            plan.items@,
            plan.summary.source_snapshot@,
            request.rules,
            input,
            sorted@,
            drafted_seq,
            resolved,
        ));
        if request.rules.conflict_strategy != OrganizationConflictStrategy::ShortHash {
            lemma_plan_targets_are_distinct(
                plan.items@,
                plan.summary.source_snapshot@,
                request.rules,
                input,
                sorted@,
                drafted_seq,
                resolved,
            );
        }
        assert forall|i: int| 0 <= i < plan.items@.len() implies is_target_path(
            (#[trigger] plan.items@[i]).target_path@,
            request.target_root@,
            plan.items@[i].target_relative_path@,
        ) by {
            assert(plan.items@[i] == finals[i].item);
        }
    }
    Ok(plan)
}

// ---------------------------------------------------------------------------
// Targets of a plan never collide
// ---------------------------------------------------------------------------

/// The codes of the issues a check of a target path raises.
pub open spec fn target_problem_code(code: Seq<char>) -> bool {
    path_error_code(code) || code == "segment_too_long"@
}

pub open spec fn all_problem_codes(issues: Seq<IssueView>) -> bool {
    forall|k: int| 0 <= k < issues.len() ==> target_problem_code(#[trigger] issues[k].0)
}

proof fn lemma_segment_problem_codes(seg: Seq<char>, relative: Seq<char>, source: Seq<char>)
    ensures
        all_problem_codes(segment_issues(seg, relative, source)),
{
}

proof fn lemma_segments_problem_codes(rest: Seq<char>, relative: Seq<char>, source: Seq<char>)
    ensures
        all_problem_codes(segments_issues(rest, relative, source)),
    decreases rest.len(),
{
    lemma_segment_problem_codes(rest, relative, source);
    match crate::text::first_index(rest, '/') {
        None => {},
        Some(k) => if 0 <= k < rest.len() {
            lemma_segment_problem_codes(rest.take(k), relative, source);
            lemma_segments_problem_codes(rest.skip(k + 1), relative, source);
        },
    }
}

proof fn lemma_check_problem_codes(relative: Seq<char>, full: Seq<char>, source: Seq<char>)
    ensures
        all_problem_codes(relative_target_issues(relative, full, source)),
{
    lemma_segments_problem_codes(relative, relative, source);
}

/// An item that can be written: not set aside, and without a problem on
/// its target path.
pub open spec fn writable(item: OrganizationPlanItem) -> bool {
    &&& item.status != OrganizationItemStatus::SkippedConflict
    &&& forall|k: int|
        0 <= k < item.issues@.len() ==> !target_problem_code(#[trigger] item.issues@[k].code@)
}

proof fn lemma_writable_item(
    items: Seq<OrganizationPlanItem>,
    snapshot: Seq<char>,
    rules: OrganizationRules,
    assets: Seq<PlanAsset>,
    sorted: Seq<PlanAsset>,
    drafts: Seq<DraftItem>,
    resolved: Seq<DraftItem>,
    i: int,
)
    requires
        plan_items_from(items, snapshot, rules, assets, sorted, drafts, resolved),
        0 <= i < items.len(),
        writable(items[i]),
    ensures
        !set_aside(drafts[i], resolved[i]),
        resolved[i].valid_target,
        items[i].target_relative_path == resolved[i].item.target_relative_path,
{
    let item = items[i];
    let d = drafts[i];
    let n = resolved[i];
    assert(finalized(item, n.item));
    assert(!has_path_error(n.item.issues@)) by {
        if has_path_error(n.item.issues@) {
            let k = choose|k: int| 0 <= k < n.item.issues@.len() && path_error_code(#[trigger] n.item.issues@[k].code@);
            assert(!target_problem_code(item.issues@[k].code@));
        }
    }
    assert(resolution(drafts, resolved, i, rules.conflict_strategy, rules.sequence_start, rules.sequence_width));
    if n.item.issues@.len() == d.item.issues@.len() {
        assert(drafted(d, sorted[i], rules, template_tokens(rules), (i + 1) as u32));
        let (p, f, src): (Option<Seq<char>>, Seq<char>, SourceState) = choose|
            p: Option<Seq<char>>,
            f: Seq<char>,
            src: SourceState,
        | #[trigger] draft_matches(d, sorted[i], rules, template_tokens(rules), (i + 1) as u32, p, f, src);
        let asset = sorted[i];
        let fb = rules.missing_fallback;
        let values = spec_context_values(asset, fb, (i + 1) as u32);
        let capture = capture_resolution(opt_string_view(asset.capture_time), asset.modified_at, fb).0;
        let path = asset.absolute_path@;
        let relative = draft_target(asset, rules, template_tokens(rules), (i + 1) as u32, p);
        let checks = relative_target_issues(relative, f, path);
        let head = spec_context_issues(asset, fb) + levels_issues(
            rules.levels@,
            rules.levels@.len() as int,
            values,
            capture,
            p,
            asset.modified_at,
            path,
        ) + escape_issues(path, rendered_name(asset, rules, template_tokens(rules), (i + 1) as u32));
        let views = issue_views(d.item.issues@);
        assert(views == head + checks + source_issues(asset, src));
        if checks.len() > 0 {
            lemma_check_problem_codes(relative, f, path);
            assert(target_problem_code(checks[0].0));
            assert(views[head.len() as int] == checks[0]);
            assert(views[head.len() as int].0 == d.item.issues@[head.len() as int].code@);
            assert(!target_problem_code(item.issues@[head.len() as int].code@));
        }
    }
}

/// With the skip or the sequence strategy, no two items of a plan that can
/// be written (neither set aside nor with a problem on their target path)
/// share a target, once targets are normalized.
pub proof fn lemma_plan_targets_are_distinct(
    items: Seq<OrganizationPlanItem>,
    snapshot: Seq<char>,
    rules: OrganizationRules,
    assets: Seq<PlanAsset>,
    sorted: Seq<PlanAsset>,
    drafts: Seq<DraftItem>,
    resolved: Seq<DraftItem>,
)
    requires
        plan_items_from(items, snapshot, rules, assets, sorted, drafts, resolved),
        rules.conflict_strategy != OrganizationConflictStrategy::ShortHash,
    ensures
        forall|i: int, j: int|
            0 <= i < j < items.len() && writable(items[i]) && writable(items[j])
                ==> normalized_for_compare(#[trigger] items[i].target_relative_path@)
                != normalized_for_compare(#[trigger] items[j].target_relative_path@),
{
    lemma_kept_targets_are_distinct(
        drafts,
        resolved,
        rules.conflict_strategy,
        rules.sequence_start,
        rules.sequence_width,
    );
    assert forall|i: int, j: int|
        0 <= i < j < items.len() && writable(items[i]) && writable(items[j]) implies normalized_for_compare(
        #[trigger] items[i].target_relative_path@,
    ) != normalized_for_compare(#[trigger] items[j].target_relative_path@) by {
        lemma_writable_item(items, snapshot, rules, assets, sorted, drafts, resolved, i);
        lemma_writable_item(items, snapshot, rules, assets, sorted, drafts, resolved, j);
        assert(target_key(resolved[i]) != target_key(resolved[j]));
    }
}

} // verus!
