//! Read-only organization planning.
//!
//! Nothing here moves, renames or writes a file. Rules are validated, naming
//! templates are parsed and rendered, target paths are checked against the
//! Windows naming rules and the source boundary, and conflicting targets are
//! resolved in memory.
use unicode_normalization_alignments::UnicodeNormalization;
use vstd::prelude::*;

use crate::error::{is_unsafe_path, AppError, AppResult};
use crate::models::{
    spec_level_name, OrganizationIssue, OrganizationIssueSeverity, OrganizationItemStatus,
    OrganizationLevel, OrganizationLevelKind, OrganizationMissingFallback, OrganizationRules,
};
use crate::text::{
    chars_of, concat, concat3, decimal, decimal_chars, find_char_from, first_index,
    lemma_first_index_from, str_eq,
    string_of, subvec, trim_spec, trim_vec,
};

verus! {

// ---------------------------------------------------------------------------
// Issues
// ---------------------------------------------------------------------------

/// An issue with the given code, severity, paths and detail.
pub fn issue(
    code: &str,
    severity: OrganizationIssueSeverity,
    source_path: Option<String>,
    target_path: Option<String>,
    detail: &str,
) -> (r: OrganizationIssue)
    ensures
        r.code@ == code@,
        r.severity == severity,
        r.source_path == source_path,
        r.target_path == target_path,
        r.detail@ == detail@,
{
    OrganizationIssue {
        code: code.to_owned(),
        severity,
        source_path,
        target_path,
        detail: detail.to_owned(),
    }
}

/// An issue whose detail is built at run time.
pub fn issue_owned_detail(
    code: &str,
    severity: OrganizationIssueSeverity,
    source_path: Option<String>,
    target_path: Option<String>,
    detail: String,
) -> (r: OrganizationIssue)
    ensures
        r.code@ == code@,
        r.severity == severity,
        r.source_path == source_path,
        r.target_path == target_path,
        r.detail@ == detail@,
{
    OrganizationIssue { code: code.to_owned(), severity, source_path, target_path, detail }
}

/// `i` is an error about the rules themselves, with the given code and detail.
pub open spec fn is_rule_issue(i: OrganizationIssue, v: (Seq<char>, Seq<char>)) -> bool {
    &&& i.code@ == v.0
    &&& i.detail@ == v.1
    &&& i.severity == OrganizationIssueSeverity::Error
    &&& i.source_path is None
    &&& i.target_path is None
}

/// `issues` are the rule errors listed in `views`, in order.
pub open spec fn are_rule_issues(issues: Seq<OrganizationIssue>, views: Seq<(Seq<char>, Seq<char>)>) -> bool {
    &&& issues.len() == views.len()
    &&& forall|k: int| 0 <= k < issues.len() ==> is_rule_issue(#[trigger] issues[k], views[k])
}

pub fn rule_issue(code: &str, detail: &str) -> (r: OrganizationIssue)
    ensures
        is_rule_issue(r, (code@, detail@)),
{
    issue(code, OrganizationIssueSeverity::Error, None, None, detail)
}

fn rule_issue_owned(code: &str, detail: String) -> (r: OrganizationIssue)
    ensures
        is_rule_issue(r, (code@, detail@)),
{
    OrganizationIssue {
        code: code.to_owned(),
        severity: OrganizationIssueSeverity::Error,
        source_path: None,
        target_path: None,
        detail,
    }
}

// ---------------------------------------------------------------------------
// Naming templates
// ---------------------------------------------------------------------------

/// A piece of a naming template: literal text, or a `{name:format}` variable.
#[derive(Debug, Clone, PartialEq, Eq)]
pub enum TemplateToken {
    Literal(String),
    Variable { name: String, format: Option<String> },
}

/// The meaning of a template token.
pub enum TokenView {
    Literal(Seq<char>),
    Variable(Seq<char>, Option<Seq<char>>),
}

pub open spec fn token_view(t: TemplateToken) -> TokenView {
    match t {
        TemplateToken::Literal(s) => TokenView::Literal(s@),
        TemplateToken::Variable { name, format } => TokenView::Variable(
            name@,
            match format {
                Some(f) => Some(f@),
                None => None,
            },
        ),
    }
}

pub open spec fn token_views(ts: Seq<TemplateToken>) -> Seq<TokenView> {
    ts.map_values(|t: TemplateToken| token_view(t))
}

pub open spec fn missing_brace_message() -> Seq<char> {
    "命名模板缺少右花括号。"@
}

pub open spec fn empty_variable_message() -> Seq<char> {
    "命名模板包含空变量。"@
}

pub open spec fn empty_name_message() -> Seq<char> {
    "命名模板变量名不能为空。"@
}

/// The name part of a variable: the text before the first `:`, trimmed.
pub open spec fn variable_name(inner: Seq<char>) -> Seq<char> {
    match first_index(inner, ':') {
        Some(k) => trim_spec(inner.take(k)),
        None => trim_spec(inner),
    }
}

/// The format part of a variable: the text after the first `:`, trimmed,
/// when it is not empty.
pub open spec fn variable_format(inner: Seq<char>) -> Option<Seq<char>> {
    match first_index(inner, ':') {
        Some(k) => if trim_spec(inner.skip(k + 1)).len() > 0 {
            Some(trim_spec(inner.skip(k + 1)))
        } else {
            None
        },
        None => None,
    }
}

/// The tokens of a naming template, or the message of its first error.
pub open spec fn parse_template_spec(t: Seq<char>) -> Result<Seq<TokenView>, Seq<char>>
    decreases t.len(),
{
    match first_index(t, '{') {
        None => if t.len() > 0 {
            Ok(seq![TokenView::Literal(t)])
        } else {
            Ok(Seq::empty())
        },
        Some(start) => {
            let lit = if start > 0 {
                seq![TokenView::Literal(t.take(start))]
            } else {
                Seq::empty()
            };
            let rest = t.skip(start + 1);
            match first_index(rest, '}') {
                None => Err(missing_brace_message()),
                Some(end) => {
                    let inner = rest.take(end);
                    if trim_spec(inner).len() == 0 {
                        Err(empty_variable_message())
                    } else if variable_name(inner).len() == 0 {
                        Err(empty_name_message())
                    } else {
                        proof {
                            lemma_first_index_from(t, '{', 0);
                            lemma_first_index_from(rest, '}', 0);
                        }
                        let var = TokenView::Variable(variable_name(inner), variable_format(inner));
                        if 0 <= start && 0 <= end && start + 1 + end + 1 <= t.len() {
                            match parse_template_spec(rest.skip(end + 1)) {
                                Ok(more) => Ok(lit + seq![var] + more),
                                Err(e) => Err(e),
                            }
                        } else {
                            Err(missing_brace_message())
                        }
                    }
                },
            }
        },
    }
}

/// `prefix` followed by the tokens of a successful parse.
pub open spec fn prepend_tokens(
    prefix: Seq<TokenView>,
    r: Result<Seq<TokenView>, Seq<char>>,
) -> Result<Seq<TokenView>, Seq<char>> {
    match r {
        Ok(more) => Ok(prefix + more),
        Err(e) => Err(e),
    }
}

pub open spec fn parse_result_view(r: Result<Vec<TemplateToken>, String>) -> Result<
    Seq<TokenView>,
    Seq<char>,
> {
    match r {
        Ok(ts) => Ok(token_views(ts@)),
        Err(e) => Err(e@),
    }
}

proof fn lemma_skip_skip(s: Seq<char>, a: int, b: int)
    requires
        0 <= a,
        0 <= b,
        a + b <= s.len(),
    ensures
        s.skip(a).skip(b) == s.skip(a + b),
{
    assert(s.skip(a).skip(b) =~= s.skip(a + b));
}

proof fn lemma_prepend_empty(r: Result<Seq<TokenView>, Seq<char>>)
    ensures
        prepend_tokens(Seq::empty(), r) == r,
{
    if let Ok(m) = r {
        assert(Seq::<TokenView>::empty() + m =~= m);
    }
}

proof fn lemma_prepend_prepend(
    a: Seq<TokenView>,
    b: Seq<TokenView>,
    r: Result<Seq<TokenView>, Seq<char>>,
)
    ensures
        prepend_tokens(a, prepend_tokens(b, r)) == prepend_tokens(a + b, r),
{
    if let Ok(m) = r {
        assert(a + (b + m) =~= (a + b) + m);
    }
}

/// Splits a naming template into literal text and `{name:format}` variables.
pub fn parse_template(template: &str) -> (r: Result<Vec<TemplateToken>, String>)
    ensures
        parse_result_view(r) == parse_template_spec(template@),
{
    let cs = chars_of(template);
    let ghost t = cs@;
    let mut tokens: Vec<TemplateToken> = Vec::new();
    let mut cursor: usize = 0;
    proof {
        assert(t.skip(0) =~= t);
        lemma_prepend_empty(parse_template_spec(t));
        assert(token_views(tokens@) =~= Seq::<TokenView>::empty());
    }
    loop
        invariant
            t == cs@,
            t == template@,
            cursor <= cs@.len(),
            parse_template_spec(t) == prepend_tokens(
                token_views(tokens@),
                parse_template_spec(t.skip(cursor as int)),
            ),
        ensures
            cursor <= cs@.len(),
            parse_template_spec(t) == prepend_tokens(
                token_views(tokens@),
                parse_template_spec(t.skip(cursor as int)),
            ),
            cursor < cs@.len() ==> first_index(t.skip(cursor as int), '{') is None,
        decreases cs@.len() - cursor,
    {
        if cursor >= cs.len() {
            break;
        }
        let ghost here = t.skip(cursor as int);
        let start = match find_char_from(&cs, cursor, '{') {
            Some(start) => start,
            None => {
                break;
            },
        };
        proof {
            lemma_first_index_from(here, '{', 0);
            assert(here.take(start - cursor) =~= t.subrange(cursor as int, start as int));
            lemma_skip_skip(t, cursor as int, start - cursor + 1);
        }
        let ghost rest = t.skip(start + 1);
        let end = match find_char_from(&cs, start + 1, '}') {
            Some(end) => end,
            None => {
                return Err("命名模板缺少右花括号。".to_owned());
            },
        };
        let inner = subvec(&cs, start + 1, end);
        proof {
            lemma_first_index_from(rest, '}', 0);
            assert(inner@ =~= rest.take(end - start - 1));
        }
        if trim_vec(&inner).len() == 0 {
            return Err("命名模板包含空变量。".to_owned());
        }
        let (name_chars, format) = match find_char_from(&inner, 0, ':') {
            Some(colon) => {
                let before = subvec(&inner, 0, colon);
                let after = subvec(&inner, colon + 1, inner.len());
                let after_trimmed = trim_vec(&after);
                proof {
                    assert(inner@.skip(0) =~= inner@);
                    assert(before@ =~= inner@.take(colon as int));
                    assert(after@ =~= inner@.skip(colon + 1));
                }
                let format = if after_trimmed.len() > 0 {
                    Some(string_of(&after_trimmed))
                } else {
                    None
                };
                (trim_vec(&before), format)
            },
            None => {
                proof {
                    assert(inner@.skip(0) =~= inner@);
                }
                (trim_vec(&inner), None)
            },
        };
        if name_chars.len() == 0 {
            return Err("命名模板变量名不能为空。".to_owned());
        }
        let ghost before_tokens = token_views(tokens@);
        if start > cursor {
            let lit = subvec(&cs, cursor, start);
            tokens.push(TemplateToken::Literal(string_of(&lit)));
        }
        tokens.push(TemplateToken::Variable { name: string_of(&name_chars), format });
        proof {
            lemma_skip_skip(t, start + 1, end - start);
            let lit_v = if start > cursor {
                seq![TokenView::Literal(here.take(start - cursor))]
            } else {
                Seq::<TokenView>::empty()
            };
            let var_v = TokenView::Variable(variable_name(inner@), variable_format(inner@));
            assert(token_views(tokens@) =~= before_tokens + (lit_v + seq![var_v]));
            assert(rest.skip(end - start) == t.skip(end + 1));
            assert(here.skip(start - cursor + 1) == rest);
            assert(parse_template_spec(here) == prepend_tokens(
                lit_v + seq![var_v],
                parse_template_spec(t.skip(end + 1)),
            ));
            lemma_prepend_prepend(before_tokens, lit_v + seq![var_v], parse_template_spec(t.skip(end + 1)));
        }
        cursor = end + 1;
    }
    let ghost before_tokens = token_views(tokens@);
    if cursor < cs.len() {
        let lit = subvec(&cs, cursor, cs.len());
        proof {
            assert(lit@ =~= t.skip(cursor as int));
        }
        tokens.push(TemplateToken::Literal(string_of(&lit)));
        proof {
            assert(token_views(tokens@) =~= before_tokens + seq![TokenView::Literal(lit@)]);
        }
    } else {
        proof {
            assert(t.skip(cursor as int).len() == 0);
            assert(token_views(tokens@) =~= before_tokens + Seq::<TokenView>::empty());
        }
    }
    Ok(tokens)
}


// ---------------------------------------------------------------------------
// Rule validation
// ---------------------------------------------------------------------------

/// The template variables that rules may use.
pub const ALLOWED_TEMPLATE_VARIABLES: [&'static str; 18] = [
    "capture_time",
    "capture_date",
    "captured_date",
    "captured_time",
    "camera",
    "camera_make",
    "camera_model",
    "lens",
    "original_name",
    "original_stem",
    "extension",
    "semantic",
    "primary_label",
    "tone",
    "dominant_color",
    "saturation",
    "sequence",
    "short_hash",
];

pub open spec fn is_allowed_variable(name: Seq<char>) -> bool {
    crate::text::str_views(ALLOWED_TEMPLATE_VARIABLES@).contains(name)
}

fn allowed_variable(name: &str) -> (r: bool)
    ensures
        r == is_allowed_variable(name@),
{
    let allowed = ALLOWED_TEMPLATE_VARIABLES;
    let mut i: usize = 0;
    while i < 18
        invariant
            i <= 18,
            allowed@ == ALLOWED_TEMPLATE_VARIABLES@,
            forall|k: int| 0 <= k < i ==> allowed@[k]@ != name@,
        decreases 18 - i,
    {
        if str_eq(allowed[i], name) {
            assert(crate::text::str_views(allowed@)[i as int] == name@);
            return true;
        }
        i += 1;
    }
    proof {
        let v = crate::text::str_views(allowed@);
        if v.contains(name@) {
            let k = choose|k: int| 0 <= k < v.len() && v[k] == name@;
            assert(allowed@[k]@ == name@);
        }
    }
    false
}

pub open spec fn duplicate_level_issue(kind: OrganizationLevelKind) -> (Seq<char>, Seq<char>) {
    ("duplicate_level"@, "目录维度 "@ + spec_level_name(kind) + " 重复。"@)
}

pub open spec fn invalid_fallback_issue(kind: OrganizationLevelKind) -> (Seq<char>, Seq<char>) {
    (
        "invalid_level_fallback"@,
        "目录维度 "@ + spec_level_name(kind)
            + " 不能使用文件修改时间回退；该回退仅适用于拍摄年份、月份或日期。"@,
    )
}

/// The kinds of the first `n` levels.
pub open spec fn level_kinds(levels: Seq<OrganizationLevel>) -> Seq<OrganizationLevelKind> {
    levels.map_values(|l: OrganizationLevel| l.kind)
}

/// The issues of the `i`-th level: a repeated kind, and a modification-time
/// fallback on a level that is not a date.
pub open spec fn one_level_issues(levels: Seq<OrganizationLevel>, i: int) -> Seq<(Seq<char>, Seq<char>)> {
    (if level_kinds(levels.take(i)).contains(levels[i].kind) {
        seq![duplicate_level_issue(levels[i].kind)]
    } else {
        Seq::empty()
    }) + (if levels[i].fallback == OrganizationMissingFallback::ModificationTime
        && !levels[i].kind.is_date() {
        seq![invalid_fallback_issue(levels[i].kind)]
    } else {
        Seq::empty()
    })
}

/// The issues of the first `n` levels.
pub open spec fn level_issues(levels: Seq<OrganizationLevel>, n: int) -> Seq<(Seq<char>, Seq<char>)>
    decreases n,
{
    if n <= 0 {
        Seq::empty()
    } else {
        level_issues(levels, n - 1) + one_level_issues(levels, n - 1)
    }
}

pub open spec fn unknown_variable_issue(name: Seq<char>) -> (Seq<char>, Seq<char>) {
    ("unknown_template_variable"@, "未知命名变量 {"@ + name + "}。"@)
}

/// The issues of the variables of a parsed template that are not allowed.
pub open spec fn variable_issues(tokens: Seq<TokenView>) -> Seq<(Seq<char>, Seq<char>)>
    decreases tokens.len(),
{
    if tokens.len() == 0 {
        Seq::empty()
    } else {
        variable_issues(tokens.drop_last()) + match tokens.last() {
            TokenView::Variable(name, _) => if is_allowed_variable(name) {
                Seq::empty()
            } else {
                seq![unknown_variable_issue(name)]
            },
            TokenView::Literal(_) => Seq::empty(),
        }
    }
}

/// The issues of the naming template.
pub open spec fn template_issues(template: Seq<char>) -> Seq<(Seq<char>, Seq<char>)> {
    match parse_template_spec(template) {
        Ok(tokens) => variable_issues(tokens),
        Err(message) => seq![("invalid_template"@, message)],
    }
}

/// Every problem of a set of organization rules, in the order in which
/// they are reported.
pub open spec fn rule_issues_spec(rules: OrganizationRules) -> Seq<(Seq<char>, Seq<char>)> {
    (if rules.sequence_width == 0 || rules.sequence_width > 12 {
        seq![("sequence_width"@, "序号宽度必须在 1 到 12 之间。"@)]
    } else {
        Seq::empty()
    }) + (if rules.sequence_start == 0 {
        seq![("sequence_start"@, "序号起点必须大于 0。"@)]
    } else {
        Seq::empty()
    }) + (if rules.levels@.len() > 8 {
        seq![("levels"@, "目录维度最多支持 8 层。"@)]
    } else {
        Seq::empty()
    }) + level_issues(rules.levels@, rules.levels@.len() as int) + template_issues(
        rules.template@,
    )
}

fn kind_in(kinds: &Vec<OrganizationLevelKind>, kind: OrganizationLevelKind) -> (r: bool)
    ensures
        r == kinds@.contains(kind),
{
    let mut i: usize = 0;
    while i < kinds.len()
        invariant
            i <= kinds@.len(),
            forall|k: int| 0 <= k < i ==> kinds@[k] != kind,
        decreases kinds@.len() - i,
    {
        if kinds[i] == kind {
            return true;
        }
        i += 1;
    }
    false
}

fn push_rule_issue(
    issues: &mut Vec<OrganizationIssue>,
    views: Ghost<Seq<(Seq<char>, Seq<char>)>>,
    item: OrganizationIssue,
    v: Ghost<(Seq<char>, Seq<char>)>,
)
    requires
        are_rule_issues(old(issues)@, views@),
        is_rule_issue(item, v@),
    ensures
        are_rule_issues(final(issues)@, views@.push(v@)),
{
    issues.push(item);
}

/// Checks organization rules: sequence width and start, the number of
/// levels, repeated levels, modification-time fallbacks on levels that are
/// not dates, and the naming template's syntax and variables.
pub fn validate_rules(rules: &OrganizationRules) -> (r: Vec<OrganizationIssue>)
    ensures
        are_rule_issues(r@, rule_issues_spec(*rules)),
{
    let mut issues: Vec<OrganizationIssue> = Vec::new();
    let ghost mut views: Seq<(Seq<char>, Seq<char>)> = Seq::empty();
    if rules.sequence_width == 0 || rules.sequence_width > 12 {
        push_rule_issue(
            &mut issues,
            Ghost(views),
            rule_issue("sequence_width", "序号宽度必须在 1 到 12 之间。"),
            Ghost(("sequence_width"@, "序号宽度必须在 1 到 12 之间。"@)),
        );
        proof {
            views = views.push(("sequence_width"@, "序号宽度必须在 1 到 12 之间。"@));
        }
    }
    if rules.sequence_start == 0 {
        push_rule_issue(
            &mut issues,
            Ghost(views),
            rule_issue("sequence_start", "序号起点必须大于 0。"),
            Ghost(("sequence_start"@, "序号起点必须大于 0。"@)),
        );
        proof {
            views = views.push(("sequence_start"@, "序号起点必须大于 0。"@));
        }
    }
    if rules.levels.len() > 8 {
        push_rule_issue(
            &mut issues,
            Ghost(views),
            rule_issue("levels", "目录维度最多支持 8 层。"),
            Ghost(("levels"@, "目录维度最多支持 8 层。"@)),
        );
        proof {
            views = views.push(("levels"@, "目录维度最多支持 8 层。"@));
        }
    }
    let ghost head = views;
    let ghost levels = rules.levels@;
    let mut seen: Vec<OrganizationLevelKind> = Vec::new();
    let mut i: usize = 0;
    proof {
        assert(views =~= head + level_issues(levels, 0));
    }
    while i < rules.levels.len()
        invariant
            i <= levels.len(),
            levels == rules.levels@,
            seen@ == level_kinds(levels.take(i as int)),
            views == head + level_issues(levels, i as int),
            are_rule_issues(issues@, views),
        decreases levels.len() - i,
    {
        let level = rules.levels[i];
        let name = level.kind.as_str();
        let ghost before = views;
        if kind_in(&seen, level.kind) {
            push_rule_issue(
                &mut issues,
                Ghost(views),
                rule_issue_owned("duplicate_level", concat3("目录维度 ", name, " 重复。")),
                Ghost(duplicate_level_issue(level.kind)),
            );
            proof {
                views = views.push(duplicate_level_issue(level.kind));
            }
        }
        let is_date = match level.kind {
            OrganizationLevelKind::Year | OrganizationLevelKind::Month
            | OrganizationLevelKind::Day => true,
            _ => false,
        };
        if level.fallback == OrganizationMissingFallback::ModificationTime && !is_date {
            push_rule_issue(
                &mut issues,
                Ghost(views),
                rule_issue_owned(
                    "invalid_level_fallback",
                    concat3(
                        "目录维度 ",
                        name,
                        " 不能使用文件修改时间回退；该回退仅适用于拍摄年份、月份或日期。",
                    ),
                ),
                Ghost(invalid_fallback_issue(level.kind)),
            );
            proof {
                views = views.push(invalid_fallback_issue(level.kind));
            }
        }
        proof {
            assert(views =~= before + one_level_issues(levels, i as int));
            assert(head + level_issues(levels, i + 1) =~= head + level_issues(levels, i as int)
                + one_level_issues(levels, i as int));
        }
        seen.push(level.kind);
        proof {
            assert(levels.take(i + 1) =~= levels.take(i as int).push(levels[i as int]));
            assert(level_kinds(levels.take(i + 1)) =~= level_kinds(levels.take(i as int)).push(
                level.kind,
            ));
        }
        i += 1;
    }
    assert(levels.take(levels.len() as int) =~= levels);
    let ghost mid = views;
    match parse_template(rules.template.as_str()) {
        Ok(tokens) => {
            let mut k: usize = 0;
            proof {
                assert(views =~= mid + variable_issues(token_views(tokens@).take(0)));
            }
            while k < tokens.len()
                invariant
                    k <= tokens@.len(),
                    views == mid + variable_issues(token_views(tokens@).take(k as int)),
                    are_rule_issues(issues@, views),
                decreases tokens@.len() - k,
            {
                let ghost tv = token_views(tokens@);
                let ghost before = views;
                proof {
                    assert(tv.take(k + 1).drop_last() =~= tv.take(k as int));
                }
                match &tokens[k] {
                    TemplateToken::Variable { name, .. } => {
                        if !allowed_variable(name.as_str()) {
                            push_rule_issue(
                                &mut issues,
                                Ghost(views),
                                rule_issue_owned(
                                    "unknown_template_variable",
                                    concat3("未知命名变量 {", name.as_str(), "}。"),
                                ),
                                Ghost(unknown_variable_issue(name@)),
                            );
                            proof {
                                views = views.push(unknown_variable_issue(name@));
                            }
                        }
                    },
                    TemplateToken::Literal(_) => {},
                }
                proof {
                    assert(views =~= mid + variable_issues(tv.take(k + 1)));
                }
                k += 1;
            }
            proof {
                assert(token_views(tokens@).take(tokens@.len() as int) =~= token_views(tokens@));
            }
        },
        Err(message) => {
            push_rule_issue(
                &mut issues,
                Ghost(views),
                rule_issue_owned("invalid_template", message),
                Ghost(("invalid_template"@, message@)),
            );
            proof {
                views = views.push(("invalid_template"@, message@));
            }
        },
    }
    proof {
        assert(views =~= rule_issues_spec(*rules));
    }
    issues
}


// ---------------------------------------------------------------------------
// Path comparison
// ---------------------------------------------------------------------------

/// What the canonical composition (NFC) of `unicode-normalization` gives for
/// a string.
pub uninterp spec fn nfc_of(s: Seq<char>) -> Seq<char>;

/// Calls `UnicodeNormalization::nfc` on a string and keeps the characters of
/// the recomposed stream; the result is named by `nfc_of`.
#[verifier::external_body]
fn nfc_string(s: &str) -> (r: String)
    ensures
        r@ == nfc_of(s@),
{
    s.nfc().map(|pair| pair.0).collect()
}

/// `s` with every backslash turned into a slash.
pub open spec fn backslash_to_slash(s: Seq<char>) -> Seq<char> {
    s.map_values(|c: char| if c == '\\' { '/' } else { c })
}

/// The number of trailing slashes of `s`.
pub open spec fn trailing_slashes(s: Seq<char>) -> nat
    decreases s.len(),
{
    if s.len() > 0 && s.last() == '/' {
        1 + trailing_slashes(s.drop_last())
    } else {
        0
    }
}

pub open spec fn trim_trailing_slashes(s: Seq<char>) -> Seq<char> {
    s.take(s.len() - trailing_slashes(s))
}

proof fn lemma_trailing_slashes(s: Seq<char>)
    ensures
        trailing_slashes(s) <= s.len(),
        trailing_slashes(s) < s.len() ==> s[s.len() - trailing_slashes(s) - 1] != '/',
        forall|i: int| s.len() - trailing_slashes(s) <= i < s.len() ==> #[trigger] s[i] == '/',
    decreases s.len(),
{
    if s.len() > 0 && s.last() == '/' {
        lemma_trailing_slashes(s.drop_last());
        assert forall|i: int| s.len() - trailing_slashes(s) <= i < s.len() implies #[trigger] s[i] == '/' by {
            if i < s.len() - 1 {
                assert(s[i] == s.drop_last()[i]);
            }
        }
    }
}

/// The form in which paths are compared: backslashes as slashes, no
/// trailing slash, canonically composed and lowercased.
pub open spec fn normalized_for_compare(s: Seq<char>) -> Seq<char> {
    crate::text::unicode_lowercase(nfc_of(trim_trailing_slashes(backslash_to_slash(s))))
}

/// Normalizes a path for comparison, so that `C:\Photos\Café` and
/// `c:/photos/Cafe\u{301}/` compare equal.
pub fn normalize_for_compare(value: &str) -> (r: String)
    ensures
        r@ == normalized_for_compare(value@),
{
    let cs = chars_of(value);
    let mut slashed: Vec<char> = Vec::new();
    let mut i: usize = 0;
    while i < cs.len()
        invariant
            i <= cs@.len(),
            slashed@ == backslash_to_slash(cs@.take(i as int)),
        decreases cs@.len() - i,
    {
        let c = cs[i];
        slashed.push(if c == '\\' {
            '/'
        } else {
            c
        });
        i += 1;
        assert(slashed@ =~= backslash_to_slash(cs@.take(i as int)));
    }
    assert(cs@.take(cs@.len() as int) =~= cs@);
    let ghost b = slashed@;
    proof {
        lemma_trailing_slashes(b);
    }
    let mut end: usize = slashed.len();
    while end > 0 && slashed[end - 1] == '/'
        invariant
            end <= b.len(),
            b == slashed@,
            b.len() - end <= trailing_slashes(b),
            trailing_slashes(b) <= b.len(),
            trailing_slashes(b) < b.len() ==> b[b.len() - trailing_slashes(b) - 1] != '/',
        decreases end,
    {
        end -= 1;
    }
    let trimmed = subvec(&slashed, 0, end);
    assert(trimmed@ =~= trim_trailing_slashes(b));
    let composed = nfc_string(string_of(&trimmed).as_str());
    crate::text::to_lowercase(composed.as_str())
}

/// A target root is safe when it is not empty, not the source root and not
/// inside it.
pub open spec fn target_outside_source(source_root: Seq<char>, target_root: Seq<char>) -> bool {
    let source = normalized_for_compare(source_root);
    let target = normalized_for_compare(target_root);
    &&& target.len() > 0
    &&& target != source
    &&& !(source + "/"@).is_prefix_of(target)
}

fn is_prefix(prefix: &Vec<char>, s: &Vec<char>) -> (r: bool)
    ensures
        r == prefix@.is_prefix_of(s@),
{
    if prefix.len() > s.len() {
        return false;
    }
    let mut i: usize = 0;
    while i < prefix.len()
        invariant
            i <= prefix@.len() <= s@.len(),
            forall|k: int| 0 <= k < i ==> prefix@[k] == s@[k],
        decreases prefix@.len() - i,
    {
        if prefix[i] != s[i] {
            return false;
        }
        i += 1;
    }
    true
}

/// Rejects a target root that is empty, is the source root or lies inside it.
pub fn validate_target_boundary(source_root: &str, target_root: &str) -> (r: AppResult<()>)
    ensures
        r is Ok <==> target_outside_source(source_root@, target_root@),
        r matches Err(e) ==> is_unsafe_path(e, target_root@),
{
    let source = normalize_for_compare(source_root);
    let target = normalize_for_compare(target_root);
    let source_slash = chars_of(concat(source.as_str(), "/").as_str());
    let target_chars = chars_of(target.as_str());
    if target.as_str().is_empty() || source == target || is_prefix(&source_slash, &target_chars) {
        return Err(AppError::UnsafePath(target_root.to_owned()));
    }
    Ok(())
}

// ---------------------------------------------------------------------------
// Windows naming rules
// ---------------------------------------------------------------------------

pub open spec fn ascii_upper(c: char) -> char {
    if 'a' <= c && c <= 'z' {
        ((c as u32) - 32) as char
    } else {
        c
    }
}

fn to_ascii_upper(c: char) -> (r: char)
    ensures
        r == ascii_upper(c),
{
    if 'a' <= c && c <= 'z' {
        let b = c as u8;
        assert(b as u32 == c as u32);
        (b - 32) as char
    } else {
        c
    }
}

/// The part of a segment before its first dot.
pub open spec fn before_first_dot(s: Seq<char>) -> Seq<char> {
    match first_index(s, '.') {
        Some(k) => s.take(k),
        None => s,
    }
}

/// The device names that Windows reserves: CON, PRN, AUX, NUL, COM1-COM9
/// and LPT1-LPT9, in any case, with or without an extension.
pub open spec fn spec_is_reserved_name(segment: Seq<char>) -> bool {
    let base = before_first_dot(segment).map_values(|c: char| ascii_upper(c));
    ||| base == "CON"@
    ||| base == "PRN"@
    ||| base == "AUX"@
    ||| base == "NUL"@
    ||| (base.len() == 4 && (base.take(3) == "COM"@ || base.take(3) == "LPT"@) && '1' <= base[3]
        && base[3] <= '9')
}

pub fn is_reserved_name(segment: &str) -> (r: bool)
    ensures
        r == spec_is_reserved_name(segment@),
{
    let cs = chars_of(segment);
    let end = match find_char_from(&cs, 0, '.') {
        Some(k) => k,
        None => cs.len(),
    };
    proof {
        assert(cs@.skip(0) =~= cs@);
    }
    let mut base: Vec<char> = Vec::new();
    let mut i: usize = 0;
    while i < end
        invariant
            i <= end <= cs@.len(),
            base@ == cs@.take(i as int).map_values(|c: char| ascii_upper(c)),
        decreases end - i,
    {
        base.push(to_ascii_upper(cs[i]));
        i += 1;
        assert(base@ =~= cs@.take(i as int).map_values(|c: char| ascii_upper(c)));
    }
    proof {
        assert(before_first_dot(segment@) =~= cs@.take(end as int));
    }
    let base = string_of(&base);
    let base_chars = chars_of(base.as_str());
    let prefix = if base_chars.len() == 4 {
        let p = subvec(&base_chars, 0, 3);
        string_of(&p)
    } else {
        String::new()
    };
    str_eq(base.as_str(), "CON") || str_eq(base.as_str(), "PRN") || str_eq(base.as_str(), "AUX")
        || str_eq(base.as_str(), "NUL") || (base_chars.len() == 4 && (str_eq(prefix.as_str(), "COM")
        || str_eq(prefix.as_str(), "LPT")) && '1' <= base_chars[3] && base_chars[3] <= '9')
}

/// The characters that `char::is_control` accepts: the general category Cc.
pub open spec fn is_control_char(c: char) -> bool {
    c <= '\u{1f}' || ('\u{7f}' <= c && c <= '\u{9f}')
}

/// The characters that Windows forbids in a file name.
pub open spec fn is_forbidden_char(c: char) -> bool {
    is_control_char(c) || c == '<' || c == '>' || c == ':' || c == '"' || c == '/' || c == '\\'
        || c == '|' || c == '?' || c == '*'
}

/// A path segment that Windows cannot use as a file or folder name.
pub open spec fn spec_has_invalid_windows_segment(segment: Seq<char>) -> bool {
    ||| segment.len() == 0
    ||| exists|i: int| 0 <= i < segment.len() && is_forbidden_char(#[trigger] segment[i])
    ||| segment.last() == ' '
    ||| segment.last() == '.'
    ||| spec_is_reserved_name(segment)
}

pub fn has_invalid_windows_segment(segment: &str) -> (r: bool)
    ensures
        r == spec_has_invalid_windows_segment(segment@),
{
    let cs = chars_of(segment);
    if cs.len() == 0 {
        return true;
    }
    let mut i: usize = 0;
    while i < cs.len()
        invariant
            i <= cs@.len(),
            cs@ == segment@,
            forall|k: int| 0 <= k < i ==> !is_forbidden_char(#[trigger] cs@[k]),
        decreases cs@.len() - i,
    {
        let c = cs[i];
        if c <= '\u{1f}' || ('\u{7f}' <= c && c <= '\u{9f}') || c == '<' || c == '>' || c == ':'
            || c == '"' || c == '/' || c == '\\' || c == '|' || c == '?' || c == '*' {
            return true;
        }
        i += 1;
    }
    let last = cs[cs.len() - 1];
    last == ' ' || last == '.' || is_reserved_name(segment)
}


// ---------------------------------------------------------------------------
// Target path checks
// ---------------------------------------------------------------------------

/// The meaning of an issue: code, severity, source path, target path, detail.
pub type IssueView = (Seq<char>, OrganizationIssueSeverity, Option<Seq<char>>, Option<Seq<char>>, Seq<char>);

pub open spec fn opt_string_view(o: Option<String>) -> Option<Seq<char>> {
    match o {
        Some(s) => Some(s@),
        None => None,
    }
}

pub open spec fn issue_view(i: OrganizationIssue) -> IssueView {
    (i.code@, i.severity, opt_string_view(i.source_path), opt_string_view(i.target_path), i.detail@)
}

pub open spec fn issue_views(issues: Seq<OrganizationIssue>) -> Seq<IssueView> {
    issues.map_values(|i: OrganizationIssue| issue_view(i))
}

/// The number of UTF-16 code units that encode `s`.
pub open spec fn utf16_len(s: Seq<char>) -> nat
    decreases s.len(),
{
    if s.len() == 0 {
        0
    } else {
        utf16_len(s.drop_last()) + if (s.last() as u32) > 0xffff {
            2nat
        } else {
            1nat
        }
    }
}

/// `utf16_len(cs) > limit`.
fn utf16_len_exceeds(cs: &Vec<char>, limit: usize) -> (r: bool)
    ensures
        r == (utf16_len(cs@) > limit),
{
    let mut count: usize = 0;
    let mut i: usize = 0;
    while i < cs.len()
        invariant
            i <= cs@.len(),
            count == utf16_len(cs@.take(i as int)),
            count <= limit,
        decreases cs@.len() - i,
    {
        assert(cs@.take(i + 1).drop_last() =~= cs@.take(i as int));
        let units: usize = if (cs[i] as u32) > 0xffff {
            2
        } else {
            1
        };
        if units > limit - count {
            proof {
                lemma_utf16_len_monotone(cs@, i + 1);
            }
            return true;
        }
        count = count + units;
        i += 1;
    }
    assert(cs@.take(cs@.len() as int) =~= cs@);
    false
}

proof fn lemma_utf16_len_monotone(s: Seq<char>, i: int)
    requires
        0 <= i <= s.len(),
    ensures
        utf16_len(s.take(i)) <= utf16_len(s),
    decreases s.len() - i,
{
    if i < s.len() {
        lemma_utf16_len_monotone(s, i + 1);
        assert(s.take(i + 1).drop_last() =~= s.take(i));
    } else {
        assert(s.take(i) =~= s);
    }
}

pub open spec fn escape_detail() -> Seq<char> {
    "目标相对路径必须是相对路径，不能包含盘符、绝对路径或路径分隔符注入。"@
}

pub open spec fn dot_segment_detail() -> Seq<char> {
    "目标路径包含 .、.. 或反斜杠，已阻止。"@
}

pub open spec fn long_segment_detail() -> Seq<char> {
    "目标路径段超过 Windows 255 个 UTF-16 单元。"@
}

pub open spec fn invalid_segment_detail() -> Seq<char> {
    "目标路径包含 Windows 非法字符、尾随空格/句点或保留名称。"@
}

pub open spec fn long_path_detail() -> Seq<char> {
    "目标完整路径超过 Windows 260 个 UTF-16 单元。"@
}

/// The issues of one segment of a relative target path.
pub open spec fn segment_issues(seg: Seq<char>, relative: Seq<char>, source: Seq<char>) -> Seq<IssueView> {
    let err = OrganizationIssueSeverity::Error;
    (if seg == "."@ || seg == ".."@ || seg.contains('\\') {
        seq![("target_escape"@, err, Some(source), Some(relative), dot_segment_detail())]
    } else {
        Seq::empty()
    }) + (if utf16_len(seg) > 255 {
        seq![("segment_too_long"@, err, Some(source), Some(relative), long_segment_detail())]
    } else {
        Seq::empty()
    }) + (if spec_has_invalid_windows_segment(seg) {
        seq![
            (
                if spec_is_reserved_name(seg) {
                    "reserved_name"@
                } else {
                    "invalid_segment"@
                },
                err,
                Some(source),
                Some(relative),
                invalid_segment_detail(),
            ),
        ]
    } else {
        Seq::empty()
    })
}

/// The issues of the `/`-separated segments of `rest`, in order.
pub open spec fn segments_issues(rest: Seq<char>, relative: Seq<char>, source: Seq<char>) -> Seq<IssueView>
    decreases rest.len(),
{
    match first_index(rest, '/') {
        None => segment_issues(rest, relative, source),
        Some(k) => if 0 <= k < rest.len() {
            segment_issues(rest.take(k), relative, source) + segments_issues(
                rest.skip(k + 1),
                relative,
                source,
            )
        } else {
            Seq::empty()
        },
    }
}

/// Every issue of a relative target path whose full path is `full`.
pub open spec fn relative_target_issues(relative: Seq<char>, full: Seq<char>, source: Seq<char>) -> Seq<IssueView> {
    let err = OrganizationIssueSeverity::Error;
    (if relative.len() == 0 || relative[0] == '/' || relative[0] == '\\' || relative.contains(':') {
        seq![("target_escape"@, err, Some(source), Some(relative), escape_detail())]
    } else {
        Seq::empty()
    }) + segments_issues(relative, relative, source) + (if utf16_len(full) > 260 {
        seq![("path_too_long"@, err, Some(source), Some(full), long_path_detail())]
    } else {
        Seq::empty()
    })
}

pub(crate) fn push_issue(
    issues: &mut Vec<OrganizationIssue>,
    item: OrganizationIssue,
)
    ensures
        issue_views(final(issues)@) == issue_views(old(issues)@).push(issue_view(item)),
{
    let ghost before = issues@;
    issues.push(item);
    assert(issue_views(issues@) =~= issue_views(before).push(issue_view(item)));
}

pub(crate) fn contains_char(cs: &Vec<char>, c: char) -> (r: bool)
    ensures
        r == cs@.contains(c),
{
    let mut i: usize = 0;
    while i < cs.len()
        invariant
            i <= cs@.len(),
            forall|k: int| 0 <= k < i ==> cs@[k] != c,
        decreases cs@.len() - i,
    {
        if cs[i] == c {
            return true;
        }
        i += 1;
    }
    false
}

fn check_segment(
    seg: &Vec<char>,
    relative: &str,
    source_path: &str,
    issues: &mut Vec<OrganizationIssue>,
)
    ensures
        issue_views(final(issues)@) == issue_views(old(issues)@) + segment_issues(
            seg@,
            relative@,
            source_path@,
        ),
{
    let ghost before = issue_views(issues@);
    let seg_string = string_of(seg);
    let text = seg_string.as_str();
    if str_eq(text, ".") || str_eq(text, "..") || contains_char(seg, '\\') {
        push_issue(
            issues,
            issue(
                "target_escape",
                OrganizationIssueSeverity::Error,
                Some(source_path.to_owned()),
                Some(relative.to_owned()),
                "目标路径包含 .、.. 或反斜杠，已阻止。",
            ),
        );
    }
    let ghost mid1 = issue_views(issues@);
    if utf16_len_exceeds(seg, 255) {
        push_issue(
            issues,
            issue(
                "segment_too_long",
                OrganizationIssueSeverity::Error,
                Some(source_path.to_owned()),
                Some(relative.to_owned()),
                "目标路径段超过 Windows 255 个 UTF-16 单元。",
            ),
        );
    }
    let ghost mid2 = issue_views(issues@);
    if has_invalid_windows_segment(text) {
        let code = if is_reserved_name(text) {
            "reserved_name"
        } else {
            "invalid_segment"
        };
        push_issue(
            issues,
            issue(
                code,
                OrganizationIssueSeverity::Error,
                Some(source_path.to_owned()),
                Some(relative.to_owned()),
                "目标路径包含 Windows 非法字符、尾随空格/句点或保留名称。",
            ),
        );
    }
    assert(issue_views(issues@) =~= before + segment_issues(seg@, relative@, source_path@));
}

/// Checks a relative target path whose full path under the target root is
/// `full_path`: it must be relative, without `.`, `..` or backslash segments,
/// with segments and a full path that Windows accepts. Each problem is added
/// to `issues`; the result says whether there was none.
pub fn check_relative_target(
    relative: &str,
    full_path: &str,
    source_path: &str,
    issues: &mut Vec<OrganizationIssue>,
) -> (valid: bool)
    ensures
        issue_views(final(issues)@) == issue_views(old(issues)@) + relative_target_issues(
            relative@,
            full_path@,
            source_path@,
        ),
        valid == (relative_target_issues(relative@, full_path@, source_path@).len() == 0),
{
    let ghost start_views = issue_views(issues@);
    let start_len = issues.len();
    let cs = chars_of(relative);
    let mut escape = cs.len() == 0;
    if !escape {
        escape = cs[0] == '/' || cs[0] == '\\' || contains_char(&cs, ':');
    }
    if escape {
        push_issue(
            issues,
            issue(
                "target_escape",
                OrganizationIssueSeverity::Error,
                Some(source_path.to_owned()),
                Some(relative.to_owned()),
                "目标相对路径必须是相对路径，不能包含盘符、绝对路径或路径分隔符注入。",
            ),
        );
    }
    let ghost head = issue_views(issues@);
    let ghost t = cs@;
    let mut cursor: usize = 0;
    proof {
        assert(t.skip(0) =~= t);
        assert(head + Seq::<IssueView>::empty() =~= head);
    }
    loop
        invariant_except_break
            issue_views(issues@) + segments_issues(t.skip(cursor as int), relative@, source_path@)
                == head + segments_issues(t, relative@, source_path@),
        invariant
            t == cs@,
            t == relative@,
            cursor <= t.len(),
        ensures
            issue_views(issues@) == head + segments_issues(t, relative@, source_path@),
        decreases t.len() - cursor,
    {
        let ghost here = t.skip(cursor as int);
        let ghost before = issue_views(issues@);
        match find_char_from(&cs, cursor, '/') {
            Some(k) => {
                assert(k < cs.len());
                let seg = subvec(&cs, cursor, k);
                proof {
                    lemma_first_index_from(here, '/', 0);
                    assert(seg@ =~= here.take(k - cursor));
                    assert(here.skip(k - cursor + 1) =~= t.skip(k + 1));
                }
                check_segment(&seg, relative, source_path, issues);
                proof {
                    assert(before + segments_issues(here, relative@, source_path@) =~= issue_views(
                        issues@,
                    ) + segments_issues(t.skip(k + 1), relative@, source_path@));
                }
                cursor = k + 1;
            },
            None => {
                let seg = subvec(&cs, cursor, cs.len());
                proof {
                    assert(seg@ =~= here);
                }
                check_segment(&seg, relative, source_path, issues);
                proof {
                    assert(issue_views(issues@) =~= before + segments_issues(here, relative@, source_path@));
                }
                break;
            },
        }
    }
    let ghost mid = issue_views(issues@);
    let full = chars_of(full_path);
    if utf16_len_exceeds(&full, 260) {
        push_issue(
            issues,
            issue(
                "path_too_long",
                OrganizationIssueSeverity::Error,
                Some(source_path.to_owned()),
                Some(full_path.to_owned()),
                "目标完整路径超过 Windows 260 个 UTF-16 单元。",
            ),
        );
    }
    proof {
        assert(issue_views(issues@) =~= start_views + relative_target_issues(
            relative@,
            full_path@,
            source_path@,
        ));
        assert(issue_views(issues@).len() == start_views.len() + relative_target_issues(
            relative@,
            full_path@,
            source_path@,
        ).len());
    }
    issues.len() == start_len
}


// ---------------------------------------------------------------------------
// Small naming helpers
// ---------------------------------------------------------------------------

/// The number of `c` in `s`.
pub open spec fn count_char(s: Seq<char>, c: char) -> nat
    decreases s.len(),
{
    if s.len() == 0 {
        0
    } else {
        count_char(s.drop_last(), c) + if s.last() == c {
            1nat
        } else {
            0nat
        }
    }
}

/// `s` padded on the left with zeros to `width` characters.
pub open spec fn zero_pad(s: Seq<char>, width: nat) -> Seq<char> {
    if s.len() >= width {
        s
    } else {
        Seq::new((width - s.len()) as nat, |i: int| '0') + s
    }
}

/// The sequence number `value` with as many digits as the pattern has
/// zeros, and at least one.
pub open spec fn spec_format_sequence(value: nat, pattern: Seq<char>) -> Seq<char> {
    zero_pad(
        decimal(value),
        if count_char(pattern, '0') > 1 {
            count_char(pattern, '0')
        } else {
            1
        },
    )
}

pub fn format_sequence(value: u32, pattern: &str) -> (r: String)
    ensures
        r@ == spec_format_sequence(value as nat, pattern@),
{
    let cs = chars_of(pattern);
    let mut zeros: usize = 0;
    let mut i: usize = 0;
    while i < cs.len()
        invariant
            i <= cs@.len(),
            zeros == count_char(cs@.take(i as int), '0'),
            zeros <= i,
        decreases cs@.len() - i,
    {
        assert(cs@.take(i + 1).drop_last() =~= cs@.take(i as int));
        if cs[i] == '0' {
            zeros += 1;
        }
        i += 1;
    }
    assert(cs@.take(cs@.len() as int) =~= cs@);
    let width = if zeros > 1 {
        zeros
    } else {
        1
    };
    string_of(&zero_padded(value, width))
}

/// The decimal digits of `value`, padded on the left with zeros to `width`.
pub(crate) fn zero_padded(value: u32, width: usize) -> (r: Vec<char>)
    ensures
        r@ == zero_pad(decimal(value as nat), width as nat),
{
    let digits = decimal_chars(value as u64);
    let mut out: Vec<char> = Vec::new();
    if digits.len() < width {
        let pad = width - digits.len();
        let mut k: usize = 0;
        while k < pad
            invariant
                k <= pad,
                out@ == Seq::new(k as nat, |j: int| '0'),
            decreases pad - k,
        {
            out.push('0');
            k += 1;
            assert(out@ =~= Seq::new(k as nat, |j: int| '0'));
        }
    }
    let ghost head = out@;
    let mut k: usize = 0;
    while k < digits.len()
        invariant
            k <= digits@.len(),
            out@ == head + digits@.take(k as int),
        decreases digits@.len() - k,
    {
        out.push(digits[k]);
        k += 1;
        assert(out@ =~= head + digits@.take(k as int));
    }
    assert(digits@.take(digits@.len() as int) =~= digits@);
    proof {
        if digits@.len() >= width {
            assert(head =~= Seq::<char>::empty());
            assert(out@ =~= digits@);
        }
    }
    out
}

/// The first eight characters of `value`.
pub fn short_hash(value: &str) -> (r: String)
    ensures
        r@ == value@.take(if value@.len() < 8 { value@.len() as int } else { 8 }),
{
    let cs = chars_of(value);
    let n = if cs.len() < 8 {
        cs.len()
    } else {
        8
    };
    string_of(&subvec(&cs, 0, n))
}

/// `s` with every double quote doubled.
pub open spec fn double_quotes(s: Seq<char>) -> Seq<char>
    decreases s.len(),
{
    if s.len() == 0 {
        s
    } else {
        double_quotes(s.drop_last()) + if s.last() == '"' {
            seq!['"', '"']
        } else {
            seq![s.last()]
        }
    }
}

/// A CSV field: quoted, with doubled quotes, when it holds a comma, a
/// quote or a line break; as it is otherwise.
pub open spec fn spec_csv_field(s: Seq<char>) -> Seq<char> {
    if s.contains(',') || s.contains('"') || s.contains('\n') || s.contains('\r') {
        seq!['"'] + double_quotes(s) + seq!['"']
    } else {
        s
    }
}

pub fn csv_field(value: &str) -> (r: String)
    ensures
        r@ == spec_csv_field(value@),
{
    let cs = chars_of(value);
    if !(contains_char(&cs, ',') || contains_char(&cs, '"') || contains_char(&cs, '\n')
        || contains_char(&cs, '\r')) {
        return value.to_owned();
    }
    let mut out: Vec<char> = Vec::new();
    out.push('"');
    let mut i: usize = 0;
    while i < cs.len()
        invariant
            i <= cs@.len(),
            out@ == seq!['"'] + double_quotes(cs@.take(i as int)),
        decreases cs@.len() - i,
    {
        assert(cs@.take(i + 1).drop_last() =~= cs@.take(i as int));
        if cs[i] == '"' {
            out.push('"');
            out.push('"');
        } else {
            out.push(cs[i]);
        }
        i += 1;
        assert(out@ =~= seq!['"'] + double_quotes(cs@.take(i as int)));
    }
    assert(cs@.take(cs@.len() as int) =~= cs@);
    out.push('"');
    string_of(&out)
}

/// The status of a plan item: an error when any issue is an error, ready
/// when there is no issue, a warning otherwise.
pub open spec fn spec_status_for_issues(issues: Seq<OrganizationIssue>) -> OrganizationItemStatus {
    if exists|i: int| 0 <= i < issues.len() && (#[trigger] issues[i]).severity
        == OrganizationIssueSeverity::Error {
        OrganizationItemStatus::Error
    } else if issues.len() == 0 {
        OrganizationItemStatus::Ready
    } else {
        OrganizationItemStatus::Warning
    }
}

pub fn status_for_issues(issues: &Vec<OrganizationIssue>) -> (r: OrganizationItemStatus)
    ensures
        r == spec_status_for_issues(issues@),
{
    let mut i: usize = 0;
    while i < issues.len()
        invariant
            i <= issues@.len(),
            forall|k: int| 0 <= k < i ==> (#[trigger] issues@[k]).severity
                != OrganizationIssueSeverity::Error,
        decreases issues@.len() - i,
    {
        if issues[i].severity == OrganizationIssueSeverity::Error {
            return OrganizationItemStatus::Error;
        }
        i += 1;
    }
    if issues.len() == 0 {
        OrganizationItemStatus::Ready
    } else {
        OrganizationItemStatus::Warning
    }
}

pub open spec fn missing_metadata_detail() -> Seq<char> {
    "缺少命名所需元数据。"@
}

/// The naming value of a piece of metadata: the value itself when it is
/// not blank, otherwise what the fallback gives.
pub open spec fn spec_resolve_value(value: Option<Seq<char>>, fallback: OrganizationMissingFallback) -> Seq<char> {
    match value {
        Some(v) if trim_spec(v).len() > 0 => v,
        _ => match fallback {
            OrganizationMissingFallback::Unknown
            | OrganizationMissingFallback::ModificationTime => "unknown"@,
            _ => Seq::empty(),
        },
    }
}

/// The issue a missing value raises: only the blocking fallback raises one.
pub open spec fn resolve_value_issues(
    value: Option<Seq<char>>,
    fallback: OrganizationMissingFallback,
    code: Seq<char>,
    source_path: Seq<char>,
) -> Seq<IssueView> {
    match value {
        Some(v) if trim_spec(v).len() > 0 => Seq::empty(),
        _ => if fallback == OrganizationMissingFallback::Block {
            seq![
                (
                    code,
                    OrganizationIssueSeverity::Error,
                    Some(source_path),
                    None,
                    missing_metadata_detail(),
                ),
            ]
        } else {
            Seq::empty()
        },
    }
}

pub fn resolve_value(
    value: Option<String>,
    fallback: &OrganizationMissingFallback,
    code: &str,
    source_path: &str,
    issues: &mut Vec<OrganizationIssue>,
) -> (r: String)
    ensures
        r@ == spec_resolve_value(opt_string_view(value), *fallback),
        issue_views(final(issues)@) == issue_views(old(issues)@) + resolve_value_issues(
            opt_string_view(value),
            *fallback,
            code@,
            source_path@,
        ),
{
    let ghost before = issue_views(issues@);
    if let Some(v) = value {
        if trim_vec(&chars_of(v.as_str())).len() > 0 {
            assert(issue_views(issues@) =~= before + Seq::<IssueView>::empty());
            return v;
        }
    }
    match fallback {
        OrganizationMissingFallback::Unknown | OrganizationMissingFallback::ModificationTime => {
            assert(issue_views(issues@) =~= before + Seq::<IssueView>::empty());
            "unknown".to_owned()
        },
        OrganizationMissingFallback::Skip => {
            assert(issue_views(issues@) =~= before + Seq::<IssueView>::empty());
            String::new()
        },
        OrganizationMissingFallback::Block => {
            push_issue(
                issues,
                issue(
                    code,
                    OrganizationIssueSeverity::Error,
                    Some(source_path.to_owned()),
                    None,
                    "缺少命名所需元数据。",
                ),
            );
            String::new()
        },
    }
}

pub fn resolve_optional_string(
    value: Option<String>,
    fallback: &OrganizationMissingFallback,
    code: &str,
    source_path: &str,
    issues: &mut Vec<OrganizationIssue>,
) -> (r: Option<String>)
    ensures
        opt_string_view(r) == (if spec_resolve_value(opt_string_view(value), *fallback).len() > 0 {
            Some(spec_resolve_value(opt_string_view(value), *fallback))
        } else {
            None
        }),
        issue_views(final(issues)@) == issue_views(old(issues)@) + resolve_value_issues(
            opt_string_view(value),
            *fallback,
            code@,
            source_path@,
        ),
{
    let value = resolve_value(value, fallback, code, source_path, issues);
    if value.as_str().is_empty() {
        None
    } else {
        Some(value)
    }
}


// ---------------------------------------------------------------------------
// Preview tree
// ---------------------------------------------------------------------------

/// The non-empty `/`-separated segments of `rest`, in order.
pub open spec fn path_segments(rest: Seq<char>) -> Seq<Seq<char>>
    decreases rest.len(),
{
    match first_index(rest, '/') {
        None => if rest.len() > 0 {
            seq![rest]
        } else {
            Seq::empty()
        },
        Some(k) => if 0 <= k < rest.len() {
            (if k > 0 {
                seq![rest.take(k)]
            } else {
                Seq::empty()
            }) + path_segments(rest.skip(k + 1))
        } else {
            Seq::empty()
        },
    }
}

pub(crate) fn split_segments(relative: &str) -> (r: Vec<Vec<char>>)
    ensures
        r@.map_values(|v: Vec<char>| v@) == path_segments(relative@),
{
    let cs = chars_of(relative);
    let ghost t = cs@;
    let mut out: Vec<Vec<char>> = Vec::new();
    let mut cursor: usize = 0;
    proof {
        assert(t.skip(0) =~= t);
        assert(out@.map_values(|v: Vec<char>| v@) + path_segments(t) =~= path_segments(t));
    }
    loop
        invariant_except_break
            out@.map_values(|v: Vec<char>| v@) + path_segments(t.skip(cursor as int))
                == path_segments(t),
        invariant
            t == cs@,
            t == relative@,
            cursor <= t.len(),
        ensures
            out@.map_values(|v: Vec<char>| v@) == path_segments(t),
        decreases t.len() - cursor,
    {
        let ghost here = t.skip(cursor as int);
        let ghost before = out@.map_values(|v: Vec<char>| v@);
        match find_char_from(&cs, cursor, '/') {
            Some(k) => {
                assert(k < cs.len());
                proof {
                    lemma_first_index_from(here, '/', 0);
                    assert(here.skip(k - cursor + 1) =~= t.skip(k + 1));
                }
                if k > cursor {
                    let seg = subvec(&cs, cursor, k);
                    assert(seg@ =~= here.take(k - cursor));
                    out.push(seg);
                }
                proof {
                    assert(before + path_segments(here) =~= out@.map_values(|v: Vec<char>| v@)
                        + path_segments(t.skip(k + 1)));
                }
                cursor = k + 1;
            },
            None => {
                if cursor < cs.len() {
                    let seg = subvec(&cs, cursor, cs.len());
                    assert(seg@ =~= here);
                    out.push(seg);
                }
                proof {
                    assert(out@.map_values(|v: Vec<char>| v@) =~= before + path_segments(here));
                }
                break;
            },
        }
    }
    out
}

/// Every folder of the preview counts no more files and bytes than its parent.
pub open spec fn tree_counts_nested(node: crate::models::OrganizationTreeNode) -> bool
    decreases node,
{
    forall|i: int|
        0 <= i < node.children@.len() ==> {
            &&& (#[trigger] node.children@[i]).file_count <= node.file_count
            &&& node.children@[i].byte_count <= node.byte_count
            &&& tree_counts_nested(node.children@[i])
        }
}

/// The first child named `name`.
pub open spec fn child_index_from(children: Seq<crate::models::OrganizationTreeNode>, name: Seq<char>, i: int) -> Option<int>
    decreases children.len() - i,
{
    if i < 0 || i >= children.len() {
        None
    } else if children[i].name@ == name {
        Some(i)
    } else {
        child_index_from(children, name, i + 1)
    }
}

/// The path of a child folder under the folder at `path`.
pub open spec fn child_path(path: Seq<char>, name: Seq<char>) -> Seq<char> {
    if path.len() == 0 {
        name
    } else {
        path + seq!['/'] + name
    }
}

/// `new` is the folder (`name`, `rel`, counts, `children`) at `path` after a
/// file of `size` bytes was added under it at the segments `segs`: this
/// folder and each folder along the segments count one more file and `size`
/// more bytes, missing folders are appended with the path of their segments,
/// and every other folder is unchanged.
pub open spec fn tree_after_insert(
    new: crate::models::OrganizationTreeNode,
    name: Seq<char>,
    rel: Seq<char>,
    files: nat,
    bytes: nat,
    children: Seq<crate::models::OrganizationTreeNode>,
    segs: Seq<Seq<char>>,
    path: Seq<char>,
    size: nat,
) -> bool
    decreases segs.len(),
{
    &&& new.name@ == name
    &&& new.relative_path@ == rel
    &&& new.file_count == files + 1
    &&& new.byte_count == bytes + size
    &&& if segs.len() == 0 {
        new.children@ == children
    } else {
        let cp = child_path(path, segs[0]);
        match child_index_from(children, segs[0], 0) {
            Some(i) => {
                &&& new.children@.len() == children.len()
                &&& forall|j: int| 0 <= j < children.len() && j != i ==> new.children@[j] == children[j]
                &&& 0 <= i < children.len()
                &&& tree_after_insert(
                    new.children@[i],
                    children[i].name@,
                    children[i].relative_path@,
                    children[i].file_count as nat,
                    children[i].byte_count as nat,
                    children[i].children@,
                    segs.drop_first(),
                    cp,
                    size,
                )
            },
            None => {
                &&& new.children@.len() == children.len() + 1
                &&& forall|j: int| 0 <= j < children.len() ==> new.children@[j] == children[j]
                &&& tree_after_insert(
                    new.children@[children.len() as int],
                    segs[0],
                    cp,
                    0,
                    0,
                    Seq::empty(),
                    segs.drop_first(),
                    cp,
                    size,
                )
            },
        }
    }
}

fn find_child(children: &Vec<crate::models::OrganizationTreeNode>, name: &Vec<char>) -> (r: Option<usize>)
    ensures
        r matches Some(i) ==> child_index_from(children@, name@, 0) == Some(i as int) && i
            < children@.len(),
        r is None ==> child_index_from(children@, name@, 0) is None,
{
    let name_string = string_of(name);
    let mut i: usize = 0;
    while i < children.len()
        invariant
            i <= children@.len(),
            name_string@ == name@,
            child_index_from(children@, name@, 0) == child_index_from(children@, name@, i as int),
        decreases children@.len() - i,
    {
        if children[i].name == name_string {
            return Some(i);
        }
        i += 1;
    }
    None
}

proof fn lemma_child_index_range(children: Seq<crate::models::OrganizationTreeNode>, name: Seq<char>, i: int)
    requires
        0 <= i,
    ensures
        child_index_from(children, name, i) matches Some(k) ==> i <= k < children.len(),
    decreases children.len() - i,
{
    if i < children.len() && children[i].name@ != name {
        lemma_child_index_range(children, name, i + 1);
    }
}

fn child_path_chars(path: &Vec<char>, name: &Vec<char>) -> (r: Vec<char>)
    ensures
        r@ == child_path(path@, name@),
{
    if path.len() == 0 {
        return subvec(name, 0, name.len());
    }
    let mut r = subvec(path, 0, path.len());
    r.push('/');
    let ghost head = r@;
    let mut i: usize = 0;
    while i < name.len()
        invariant
            i <= name@.len(),
            r@ == head + name@.take(i as int),
        decreases name@.len() - i,
    {
        r.push(name[i]);
        i += 1;
        assert(r@ =~= head + name@.take(i as int));
    }
    assert(name@.take(name@.len() as int) =~= name@);
    assert(path@.subrange(0, path@.len() as int) =~= path@);
    r
}

fn insert_segments(
    node: &mut crate::models::OrganizationTreeNode,
    segs: &Vec<Vec<char>>,
    idx: usize,
    path: Vec<char>,
    size: u64,
)
    requires
        idx <= segs@.len(),
        tree_counts_nested(*old(node)),
        old(node).file_count < u64::MAX,
        old(node).byte_count + size <= u64::MAX,
    ensures
        tree_after_insert(
            *final(node),
            old(node).name@,
            old(node).relative_path@,
            old(node).file_count as nat,
            old(node).byte_count as nat,
            old(node).children@,
            segs@.map_values(|v: Vec<char>| v@).skip(idx as int),
            path@,
            size as nat,
        ),
        tree_counts_nested(*final(node)),
    decreases segs@.len() - idx,
{
    let ghost segv = segs@.map_values(|v: Vec<char>| v@).skip(idx as int);
    let ghost old_children = node.children@;
    node.file_count = node.file_count + 1;
    node.byte_count = node.byte_count + size;
    if idx == segs.len() {
        assert(segv.len() == 0);
        return;
    }
    let seg = &segs[idx];
    assert(segv[0] == seg@);
    let cp = child_path_chars(&path, seg);
    assert(segs@.map_values(|v: Vec<char>| v@).skip(idx + 1) =~= segv.drop_first());
    match find_child(&node.children, seg) {
        Some(i) => {
            let mut child = node.children.remove(i);
            assert(child == old_children[i as int]);
            insert_segments(&mut child, segs, idx + 1, cp, size);
            node.children.insert(i, child);
            proof {
                assert forall|j: int| 0 <= j < old_children.len() && j != i implies node.children@[j]
                    == old_children[j] by {
                    if j < i {
                        assert(node.children@[j] == old_children[j]);
                    } else {
                        assert(node.children@[j] == old_children[j]);
                    }
                }
                assert forall|k: int| 0 <= k < node.children@.len() implies {
                    &&& (#[trigger] node.children@[k]).file_count <= node.file_count
                    &&& node.children@[k].byte_count <= node.byte_count
                    &&& tree_counts_nested(node.children@[k])
                } by {
                    assert(old_children[k].file_count <= old(node).file_count);
                }
            }
        },
        None => {
            let mut child = crate::models::OrganizationTreeNode {
                name: string_of(seg),
                relative_path: string_of(&cp),
                file_count: 0,
                byte_count: 0,
                children: Vec::new(),
            };
            insert_segments(&mut child, segs, idx + 1, cp, size);
            node.children.push(child);
            proof {
                assert forall|k: int| 0 <= k < node.children@.len() implies {
                    &&& (#[trigger] node.children@[k]).file_count <= node.file_count
                    &&& node.children@[k].byte_count <= node.byte_count
                    &&& tree_counts_nested(node.children@[k])
                } by {
                    if k < old_children.len() {
                        assert(node.children@[k] == old_children[k]);
                        assert(old_children[k].file_count <= old(node).file_count);
                    }
                }
            }
        },
    }
}

/// Adds a file of `size` bytes at `relative` (a `/`-separated target path)
/// to the preview tree: the root and every folder along the path count it,
/// and missing folders are created.
pub fn insert_tree_item(root: &mut crate::models::OrganizationTreeNode, relative: &str, size: u64)
    requires
        tree_counts_nested(*old(root)),
        old(root).file_count < u64::MAX,
        old(root).byte_count + size <= u64::MAX,
    ensures
        tree_after_insert(
            *final(root),
            old(root).name@,
            old(root).relative_path@,
            old(root).file_count as nat,
            old(root).byte_count as nat,
            old(root).children@,
            path_segments(relative@),
            Seq::empty(),
            size as nat,
        ),
        tree_counts_nested(*final(root)),
{
    let segs = split_segments(relative);
    assert(segs@.map_values(|v: Vec<char>| v@).skip(0) =~= path_segments(relative@));
    insert_segments(root, &segs, 0, Vec::new(), size);
}


// ---------------------------------------------------------------------------
// Target paths on disk
// ---------------------------------------------------------------------------

/// Reads `std::path::MAIN_SEPARATOR`, the platform's path separator, which
/// the standard library documents as `/` or `\`.
#[verifier::external_body]
fn main_separator() -> (r: char)
    ensures
        r == '/' || r == '\\',
{
    std::path::MAIN_SEPARATOR
}

/// A path separator on some platform: `/` or `\`.
pub open spec fn is_path_separator(c: char) -> bool {
    c == '/' || c == '\\'
}

/// A relative path that `Path::join` appends: not empty, not starting with
/// a separator (no root), and without a colon (no drive prefix).
pub open spec fn plain_relative(p: Seq<char>) -> bool {
    p.len() > 0 && !is_path_separator(p[0]) && !p.contains(':')
}

/// A base path that a relative path extends with one separator: not empty,
/// not ending with a separator or a colon, and not starting with a
/// backslash (no verbatim or network prefix).
pub open spec fn plain_base(p: Seq<char>) -> bool {
    p.len() > 0 && !is_path_separator(p.last()) && p.last() != ':' && p[0] != '\\'
}

/// `base`, a separator and `relative`.
pub open spec fn joined_with(base: Seq<char>, sep: char, relative: Seq<char>) -> Seq<char> {
    base + seq![sep] + relative
}

/// `r` is `base`, a separator and `relative`, where both are plain.
pub open spec fn joins_plainly(r: Seq<char>, base: Seq<char>, relative: Seq<char>) -> bool {
    plain_base(base) && plain_relative(relative) ==> exists|sep: char|
        is_path_separator(sep) && r == #[trigger] joined_with(base, sep, relative)
}

/// Calls `Path::join` and converts the joined path back to a string. As the
/// documentation of `PathBuf::push` says, joining a relative path extends
/// the base: where the base is plain and the path is plain and relative,
/// the result is the base, a separator and the path. What the separator is,
/// and what other inputs give, depends on the platform and is not stated.
#[verifier::external_body]
pub(crate) fn join_path(base: &str, relative: &str) -> (r: String)
    ensures
        joins_plainly(r@, base@, relative@),
{
    std::path::Path::new(base).join(relative).to_string_lossy().into_owned()
}

/// Calls `Path::exists`: whether something is on disk at `path` right now.
/// Nothing is stated of the result, which depends on the disk.
#[verifier::external_body]
pub(crate) fn path_exists(path: &str) -> bool {
    std::path::Path::new(path).exists()
}

/// `s` with every `from` replaced by `to`.
pub open spec fn replace_char(s: Seq<char>, from: char, to: char) -> Seq<char> {
    s.map_values(|c: char| if c == from { to } else { c })
}

pub(crate) fn replace_char_exec(s: &str, from: char, to: char) -> (r: String)
    ensures
        r@ == replace_char(s@, from, to),
{
    let cs = chars_of(s);
    let mut out: Vec<char> = Vec::new();
    let mut i: usize = 0;
    while i < cs.len()
        invariant
            i <= cs@.len(),
            out@ == replace_char(cs@.take(i as int), from, to),
        decreases cs@.len() - i,
    {
        let c = cs[i];
        out.push(if c == from {
            to
        } else {
            c
        });
        i += 1;
        assert(out@ =~= replace_char(cs@.take(i as int), from, to));
    }
    assert(cs@.take(cs@.len() as int) =~= cs@);
    string_of(&out)
}

/// `p` with every slash and backslash written as `sep`.
pub open spec fn native_path(p: Seq<char>, sep: char) -> Seq<char> {
    p.map_values(|c: char| if is_path_separator(c) { sep } else { c })
}

/// The text of a target path: the root with backslashes written as the
/// platform separator `s`, the separator `m` that joining added, and the
/// relative path with every separator written as `s`.
pub open spec fn target_path_text(root: Seq<char>, s: char, m: char, relative: Seq<char>) -> Seq<char> {
    replace_char(root, '\\', s) + seq![m] + native_path(relative, s)
}

/// `r` is the full path of the relative target under the root: where both
/// are plain, the root, a separator and the relative path, written with the
/// platform's separator `s` (see `target_path_text`).
pub open spec fn is_target_path(r: Seq<char>, root: Seq<char>, relative: Seq<char>) -> bool {
    plain_base(root) && plain_relative(relative) ==> exists|s: char, m: char|
        is_path_separator(s) && is_path_separator(m) && (s == '/' ==> m == '/') && r
            == #[trigger] target_path_text(root, s, m, relative)
}

/// The full path of a `/`-separated relative target under the target root,
/// written with the platform's separator. Where the root and the relative
/// path are plain, it is the root, a separator and the relative path, with
/// backslashes of the root and every separator of the relative path written
/// as the platform's separator (and the added separator too where that is
/// `/`).
pub fn target_path_of(target_root: &str, relative: &str) -> (r: String)
    ensures
        is_target_path(r@, target_root@, relative@),
{
    let separator = main_separator();
    let native = replace_char_exec(relative, '/', separator);
    let joined = join_path(target_root, native.as_str());
    let r = replace_char_exec(joined.as_str(), '\\', separator);
    proof {
        if plain_base(target_root@) && plain_relative(relative@) {
            let rel = relative@;
            assert(native@.len() == rel.len());
            assert(native@[0] == rel[0]);
            assert(!native@.contains(':')) by {
                if native@.contains(':') {
                    let k = choose|k: int| 0 <= k < native@.len() && native@[k] == ':';
                    assert(rel[k] == ':');
                }
            }
            let c = choose|c: char| is_path_separator(c) && joined@ == #[trigger] joined_with(
                target_root@,
                c,
                native@,
            );
            assert(joined@ == joined_with(target_root@, c, native@));
            let m = if c == '\\' {
                separator
            } else {
                c
            };
            assert(replace_char(native@, '\\', separator) =~= native_path(rel, separator));
            assert(r@ =~= target_path_text(target_root@, separator, m, rel)) by {
                let root = target_root@;
                assert(joined@ =~= root + seq![c] + native@);
                assert forall|i: int| 0 <= i < r@.len() implies r@[i] == target_path_text(
                    root,
                    separator,
                    m,
                    rel,
                )[i] by {
                    if i < root.len() {
                    } else if i == root.len() {
                    } else {
                        assert(joined@[i] == native@[i - root.len() - 1]);
                    }
                }
            }
        }
    }
    r
}

/// Whether something already exists at a relative target under the root.
pub(crate) fn target_exists(target_root: &str, relative: &str) -> bool {
    let separator = main_separator();
    let native = replace_char_exec(relative, '/', separator);
    let joined = join_path(target_root, native.as_str());
    path_exists(joined.as_str())
}

/// Checks a relative target under the target root; see `check_relative_target`.
pub fn validate_relative_target(
    relative: &str,
    target_root: &str,
    source_path: &str,
    issues: &mut Vec<OrganizationIssue>,
) -> (valid: bool)
    ensures
        exists|full: Seq<char>|
            {
                &&& issue_views(final(issues)@) == issue_views(old(issues)@) + relative_target_issues(
                    relative@,
                    full,
                    source_path@,
                )
                &&& valid == (relative_target_issues(relative@, full, source_path@).len() == 0)
            },
{
    let full = target_path_of(target_root, relative);
    check_relative_target(relative, full.as_str(), source_path, issues)
}

} // verus!
