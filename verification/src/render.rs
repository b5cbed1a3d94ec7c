//! Capture times and the rendering of naming templates.
//!
//! Dates are parsed and formatted by `chrono`; a capture time is kept here
//! as the plain UNIX timestamp that `chrono` round-trips. Rendering a
//! template substitutes the naming variables of an item.
use vstd::prelude::*;

use crate::conflicts::{last_index, last_index_of};
use crate::models::{
    spec_level_name, OrganizationIssue, OrganizationIssueSeverity, OrganizationLevel,
    OrganizationLevelKind, OrganizationMissingFallback, OrganizationRules, PlanAsset,
};
use crate::organization::{
    format_sequence, issue, issue_views, opt_string_view, path_segments, push_issue,
    replace_char, replace_char_exec, resolve_value, resolve_value_issues, short_hash,
    spec_format_sequence, spec_resolve_value, split_segments, token_views, IssueView,
    TemplateToken, TokenView,
};
use crate::text::{chars_of, concat, decimal, i64_to_string, signed_decimal, str_eq, string_of, subvec, u64_to_string};

verus! {

/// An instant, as seconds since the UNIX epoch and the nanoseconds past
/// that second.
#[derive(Debug, Clone, Copy, PartialEq, Eq, Structural)]
pub struct CaptureTime {
    pub seconds: i64,
    pub nanos: u32,
}

/// The instant of a parsed `(seconds, nanos)` pair.
pub open spec fn time_of(p: Option<(i64, u32)>) -> Option<CaptureTime> {
    match p {
        Some(t) => Some(CaptureTime { seconds: t.0, nanos: t.1 }),
        None => None,
    }
}

/// What `chrono::DateTime::parse_from_rfc3339` reads from a string.
pub uninterp spec fn rfc3339_parse(value: Seq<char>) -> Option<(i64, u32)>;

/// What `chrono::NaiveDateTime::parse_from_str` reads from a string with a
/// pattern, taken as UTC.
pub uninterp spec fn naive_parse(value: Seq<char>, pattern: Seq<char>) -> Option<(i64, u32)>;

/// Whether `chrono::DateTime::from_timestamp` accepts a timestamp.
pub uninterp spec fn timestamp_valid(seconds: i64, nanos: u32) -> bool;

/// What `chrono::DateTime::to_rfc3339` writes for a UTC instant (`None`
/// where the timestamp is out of chrono's range).
pub uninterp spec fn rfc3339_text(seconds: i64, nanos: u32) -> Option<Seq<char>>;

/// What `chrono`'s `format` writes for a UTC instant and a strftime
/// pattern (`None` where the pattern holds an unknown specifier or the
/// timestamp is out of range).
pub uninterp spec fn strftime_text(seconds: i64, nanos: u32, pattern: Seq<char>) -> Option<Seq<char>>;

/// Calls `chrono::DateTime::parse_from_rfc3339` and keeps the parsed
/// instant's timestamp; the result is named by `rfc3339_parse`.
#[verifier::external_body]
fn parse_rfc3339(value: &str) -> (r: Option<CaptureTime>)
    ensures
        r == time_of(rfc3339_parse(value@)),
{
    match chrono::DateTime::parse_from_rfc3339(value) {
        Ok(parsed) => Some(CaptureTime { seconds: parsed.timestamp(), nanos: parsed.timestamp_subsec_nanos() }),
        Err(_) => None,
    }
}

/// Calls `chrono::NaiveDateTime::parse_from_str` and keeps the timestamp of
/// the parsed date and time read as UTC; the result is named by `naive_parse`.
#[verifier::external_body]
fn parse_naive(value: &str, pattern: &str) -> (r: Option<CaptureTime>)
    ensures
        r == time_of(naive_parse(value@, pattern@)),
{
    match chrono::NaiveDateTime::parse_from_str(value, pattern) {
        Ok(parsed) => {
            let utc = parsed.and_utc();
            Some(CaptureTime { seconds: utc.timestamp(), nanos: utc.timestamp_subsec_nanos() })
        },
        Err(_) => None,
    }
}

/// Calls `chrono::DateTime::<Utc>::from_timestamp`, which accepts a
/// timestamp in chrono's range and round-trips it (as its documentation
/// says); whether it is accepted is named by `timestamp_valid`. Its source
/// accepts a time of day only with nanoseconds below 10^9, or below 2 * 10^9
/// in the last second of a minute (a leap second); and chrono's dates reach
/// past the year 262,000 both ways, so every timestamp within 8 * 10^12
/// seconds of the epoch is in range.
#[verifier::external_body]
fn time_from_timestamp(seconds: i64, nanos: u32) -> (r: Option<CaptureTime>)
    ensures
        r is Some == timestamp_valid(seconds, nanos),
        r matches Some(t) ==> t.seconds == seconds && t.nanos == nanos,
        r is Some ==> nanos < 2_000_000_000 && (nanos >= 1_000_000_000 ==> (seconds % 86_400) % 60 == 59),
        -8_000_000_000_000 <= seconds <= 8_000_000_000_000 && nanos < 1_000_000_000 ==> r is Some,
{
    match chrono::DateTime::<chrono::Utc>::from_timestamp(seconds, nanos) {
        Some(value) => Some(CaptureTime { seconds: value.timestamp(), nanos: value.timestamp_subsec_nanos() }),
        None => None,
    }
}

/// Calls `chrono::DateTime::to_rfc3339` on a UTC instant; the result is
/// named by `rfc3339_text`.
#[verifier::external_body]
fn to_rfc3339(time: CaptureTime) -> (r: Option<String>)
    ensures
        opt_string_view(r) == rfc3339_text(time.seconds, time.nanos),
{
    match chrono::DateTime::<chrono::Utc>::from_timestamp(time.seconds, time.nanos) {
        Some(value) => Some(value.to_rfc3339()),
        None => None,
    }
}

/// Calls `chrono`'s `format` with a strftime pattern on a UTC instant and
/// writes it out, giving `None` where chrono reports an error; the result is
/// named by `strftime_text`.
#[verifier::external_body]
fn format_time(time: CaptureTime, pattern: &str) -> (r: Option<String>)
    ensures
        opt_string_view(r) == strftime_text(time.seconds, time.nanos, pattern@),
{
    match chrono::DateTime::<chrono::Utc>::from_timestamp(time.seconds, time.nanos) {
        Some(value) => {
            let mut text = String::new();
            match value.format(pattern).write_to(&mut text) {
                Ok(()) => Some(text),
                Err(_) => None,
            }
        },
        None => None,
    }
}

/// The pattern of naive capture times: a date and a time without a zone.
pub open spec fn naive_capture_pattern() -> Seq<char> {
    "%Y-%m-%dT%H:%M:%S"@
}

/// A capture time: RFC 3339 first, then a date and time without a zone.
pub open spec fn spec_parse_capture_time(value: Seq<char>) -> Option<CaptureTime> {
    match rfc3339_parse(value) {
        Some(p) => time_of(Some(p)),
        None => time_of(naive_parse(value, naive_capture_pattern())),
    }
}

pub fn parse_capture_time(value: &str) -> (r: Option<CaptureTime>)
    ensures
        r == spec_parse_capture_time(value@),
{
    match parse_rfc3339(value) {
        Some(time) => Some(time),
        None => parse_naive(value, "%Y-%m-%dT%H:%M:%S"),
    }
}

/// The instant of a modification time in whole seconds, where chrono
/// accepts it.
pub open spec fn spec_modified_time(value: i64) -> Option<CaptureTime> {
    if timestamp_valid(value, 0) {
        Some(CaptureTime { seconds: value, nanos: 0 })
    } else {
        None
    }
}

pub fn modified_time(value: i64) -> (r: Option<CaptureTime>)
    ensures
        r == spec_modified_time(value),
{
    time_from_timestamp(value, 0)
}

/// The text of `time` in `pattern`, or the empty text where chrono fails.
pub open spec fn time_text(time: CaptureTime, pattern: Seq<char>) -> Seq<char> {
    match strftime_text(time.seconds, time.nanos, pattern) {
        Some(t) => t,
        None => Seq::empty(),
    }
}

pub fn format_time_or_empty(time: CaptureTime, pattern: &str) -> (r: String)
    ensures
        r@ == time_text(time, pattern@),
{
    match format_time(time, pattern) {
        Some(text) => text,
        None => String::new(),
    }
}

// ---------------------------------------------------------------------------
// Capture-time patterns of naming templates
// ---------------------------------------------------------------------------

/// `s` with every occurrence of `from`, left to right and without overlap,
/// replaced by `to`.
pub open spec fn replace_all(s: Seq<char>, from: Seq<char>, to: Seq<char>) -> Seq<char>
    decreases s.len(),
{
    if s.len() == 0 {
        s
    } else if from.len() > 0 && from.len() <= s.len() && s.take(from.len() as int) == from {
        to + replace_all(s.skip(from.len() as int), from, to)
    } else {
        seq![s[0]] + replace_all(s.skip(1), from, to)
    }
}

pub(crate) fn starts_at(cs: &Vec<char>, at: usize, from: &Vec<char>) -> (r: bool)
    requires
        at <= cs@.len(),
    ensures
        r == (from@.len() <= cs@.len() - at && cs@.skip(at as int).take(from@.len() as int) == from@),
{
    if from.len() > cs.len() - at {
        return false;
    }
    let mut k: usize = 0;
    while k < from.len()
        invariant
            k <= from@.len(),
            at + from.len() <= cs.len(),
            forall|j: int| 0 <= j < k ==> cs@[at + j] == from@[j],
        decreases from@.len() - k,
    {
        if cs[at + k] != from[k] {
            assert(cs@.skip(at as int).take(from@.len() as int)[k as int] != from@[k as int]);
            return false;
        }
        k += 1;
    }
    assert(cs@.skip(at as int).take(from@.len() as int) =~= from@);
    true
}

/// Replaces every occurrence of `from` in `s` by `to`, as `str::replace` does.
pub fn replace_text(s: &str, from: &str, to: &str) -> (r: String)
    requires
        from@.len() > 0,
    ensures
        r@ == replace_all(s@, from@, to@),
{
    let cs = crate::text::chars_of(s);
    let fs = crate::text::chars_of(from);
    let ts = crate::text::chars_of(to);
    let mut out: Vec<char> = Vec::new();
    let mut i: usize = 0;
    assert(cs@.skip(0) =~= cs@);
    assert(out@ + replace_all(cs@, fs@, ts@) =~= replace_all(cs@, fs@, ts@));
    while i < cs.len()
        invariant
            i <= cs@.len(),
            fs@.len() > 0,
            fs@ == from@,
            ts@ == to@,
            out@ + replace_all(cs@.skip(i as int), fs@, ts@) == replace_all(cs@, fs@, ts@),
        decreases cs@.len() - i,
    {
        let ghost rest = cs@.skip(i as int);
        if starts_at(&cs, i, &fs) {
            let mut k: usize = 0;
            let ghost head = out@;
            while k < ts.len()
                invariant
                    k <= ts@.len(),
                    out@ == head + ts@.take(k as int),
                decreases ts@.len() - k,
            {
                out.push(ts[k]);
                k += 1;
                assert(out@ =~= head + ts@.take(k as int));
            }
            assert(ts@.take(ts@.len() as int) =~= ts@);
            assert(rest.skip(fs@.len() as int) =~= cs@.skip(i + fs@.len()));
            assert(out@ + replace_all(cs@.skip(i + fs@.len()), fs@, ts@) =~= head + replace_all(
                rest,
                fs@,
                ts@,
            ));
            i = i + fs.len();
        } else {
            let ghost head = out@;
            out.push(cs[i]);
            assert(rest.skip(1) =~= cs@.skip(i + 1));
            assert(out@ + replace_all(cs@.skip(i + 1), fs@, ts@) =~= head + replace_all(
                rest,
                fs@,
                ts@,
            ));
            i += 1;
        }
    }
    assert(cs@.skip(cs@.len() as int) =~= Seq::<char>::empty());
    assert(out@ + Seq::<char>::empty() =~= out@);
    crate::text::string_of(&out)
}

/// A capture-time pattern of a naming template as a strftime pattern:
/// `yyyy`, `MM`, `dd`, `HH`, `mm` and `ss` become year, month, day, hour,
/// minute and second, replaced in that order.
pub open spec fn strftime_pattern(pattern: Seq<char>) -> Seq<char> {
    replace_all(
        replace_all(
            replace_all(
                replace_all(
                    replace_all(replace_all(pattern, "yyyy"@, "%Y"@), "MM"@, "%m"@),
                    "dd"@,
                    "%d"@,
                ),
                "HH"@,
                "%H"@,
            ),
            "mm"@,
            "%M"@,
        ),
        "ss"@,
        "%S"@,
    )
}

/// Formats a capture time with a naming-template pattern such as
/// `yyyyMMdd_HHmmss`; `None` where chrono rejects the resulting pattern.
pub fn format_capture_time(time: CaptureTime, pattern: &str) -> (r: Option<String>)
    ensures
        opt_string_view(r) == strftime_text(time.seconds, time.nanos, strftime_pattern(pattern@)),
{
    proof {
        reveal_strlit("yyyy");
        reveal_strlit("MM");
        reveal_strlit("dd");
        reveal_strlit("HH");
        reveal_strlit("mm");
        reveal_strlit("ss");
    }
    let p = replace_text(pattern, "yyyy", "%Y");
    let p = replace_text(p.as_str(), "MM", "%m");
    let p = replace_text(p.as_str(), "dd", "%d");
    let p = replace_text(p.as_str(), "HH", "%H");
    let p = replace_text(p.as_str(), "mm", "%M");
    let p = replace_text(p.as_str(), "ss", "%S");
    format_time(time, p.as_str())
}

// ---------------------------------------------------------------------------
// Naming variables
// ---------------------------------------------------------------------------

/// The naming variables of an item, as (name, value) pairs in ascending
/// order of name, and its capture time when it has one.
pub struct RenderContext {
    pub values: Vec<(String, String)>,
    pub capture_time: Option<CaptureTime>,
}

/// The (name, value) pairs as text.
pub open spec fn pair_views(v: Seq<(String, String)>) -> Seq<(Seq<char>, Seq<char>)> {
    v.map_values(|p: (String, String)| (p.0@, p.1@))
}

/// The value of the first pair named `name`.
pub open spec fn lookup(vals: Seq<(Seq<char>, Seq<char>)>, name: Seq<char>) -> Option<Seq<char>>
    decreases vals.len(),
{
    if vals.len() == 0 {
        None
    } else if vals[0].0 == name {
        Some(vals[0].1)
    } else {
        lookup(vals.drop_first(), name)
    }
}

/// The value of a naming variable.
pub fn context_value(values: &Vec<(String, String)>, name: &str) -> (r: Option<String>)
    ensures
        opt_string_view(r) == lookup(pair_views(values@), name@),
{
    let ghost views = pair_views(values@);
    let mut i: usize = 0;
    assert(views.skip(0) =~= views);
    while i < values.len()
        invariant
            i <= values@.len(),
            views == pair_views(values@),
            lookup(views, name@) == lookup(views.skip(i as int), name@),
        decreases values@.len() - i,
    {
        assert(views.skip(i as int)[0] == views[i as int]);
        assert(views.skip(i as int).drop_first() =~= views.skip(i + 1));
        if str_eq(values[i].0.as_str(), name) {
            return Some(values[i].1.clone());
        }
        i += 1;
    }
    None
}

/// `o`'s text, or the empty text.
pub open spec fn or_empty(o: Option<Seq<char>>) -> Seq<char> {
    match o {
        Some(t) => t,
        None => Seq::empty(),
    }
}

pub open spec fn empty_render_message() -> Seq<char> {
    "命名模板渲染结果为空。"@
}

pub open spec fn bad_time_format_message() -> Seq<char> {
    "命名模板的时间格式无效。"@
}

/// The text of a template variable: the sequence number (in the pattern's
/// width), the capture time (in the pattern, or RFC 3339), or the value of
/// the variable. `None` where chrono rejects a capture-time pattern.
pub open spec fn variable_text(
    name: Seq<char>,
    format: Option<Seq<char>>,
    values: Seq<(Seq<char>, Seq<char>)>,
    capture: Option<CaptureTime>,
    ordinal: u32,
) -> Option<Seq<char>> {
    if name == "sequence"@ {
        Some(
            match format {
                Some(p) => spec_format_sequence(ordinal as nat, p),
                None => decimal(ordinal as nat),
            },
        )
    } else if name == "capture_time"@ && capture is Some {
        let t = capture->0;
        match format {
            Some(p) => strftime_text(t.seconds, t.nanos, strftime_pattern(p)),
            None => Some(or_empty(rfc3339_text(t.seconds, t.nanos))),
        }
    } else {
        Some(or_empty(lookup(values, name)))
    }
}

/// The text of the tokens, one after the other.
pub open spec fn rendered_text(
    tokens: Seq<TokenView>,
    values: Seq<(Seq<char>, Seq<char>)>,
    capture: Option<CaptureTime>,
    ordinal: u32,
) -> Option<Seq<char>>
    decreases tokens.len(),
{
    if tokens.len() == 0 {
        Some(Seq::empty())
    } else {
        match rendered_text(tokens.drop_last(), values, capture, ordinal) {
            None => None,
            Some(head) => match tokens.last() {
                TokenView::Literal(v) => Some(head + v),
                TokenView::Variable(name, format) => match variable_text(
                    name,
                    format,
                    values,
                    capture,
                    ordinal,
                ) {
                    Some(t) => Some(head + t),
                    None => None,
                },
            },
        }
    }
}

/// A rendered template, or why it cannot name a file.
pub open spec fn spec_render_template(
    tokens: Seq<TokenView>,
    values: Seq<(Seq<char>, Seq<char>)>,
    capture: Option<CaptureTime>,
    ordinal: u32,
) -> Result<Seq<char>, Seq<char>> {
    match rendered_text(tokens, values, capture, ordinal) {
        None => Err(bad_time_format_message()),
        Some(t) => if t.len() == 0 {
            Err(empty_render_message())
        } else {
            Ok(t)
        },
    }
}

pub open spec fn string_result_view(r: Result<String, String>) -> Result<Seq<char>, Seq<char>> {
    match r {
        Ok(s) => Ok(s@),
        Err(e) => Err(e@),
    }
}

proof fn lemma_rendered_none(
    tokens: Seq<TokenView>,
    values: Seq<(Seq<char>, Seq<char>)>,
    capture: Option<CaptureTime>,
    ordinal: u32,
    i: int,
    j: int,
)
    requires
        0 <= i <= j <= tokens.len(),
        rendered_text(tokens.take(i), values, capture, ordinal) is None,
    ensures
        rendered_text(tokens.take(j), values, capture, ordinal) is None,
    decreases j - i,
{
    if j > i {
        lemma_rendered_none(tokens, values, capture, ordinal, i, j - 1);
        assert(tokens.take(j).drop_last() =~= tokens.take(j - 1));
    }
}

/// Renders a parsed naming template for the item numbered `ordinal`.
pub fn render_template(tokens: &Vec<TemplateToken>, context: &RenderContext, ordinal: u32) -> (r: Result<String, String>)
    ensures
        string_result_view(r) == spec_render_template(
            token_views(tokens@),
            pair_views(context.values@),
            context.capture_time,
            ordinal,
        ),
{
    let ghost views = token_views(tokens@);
    let ghost vals = pair_views(context.values@);
    let mut rendered = String::new();
    let mut i: usize = 0;
    assert(views.take(0) =~= Seq::<TokenView>::empty());
    while i < tokens.len()
        invariant
            i <= tokens@.len(),
            views == token_views(tokens@),
            vals == pair_views(context.values@),
            rendered_text(views.take(i as int), vals, context.capture_time, ordinal) == Some(rendered@),
        decreases tokens@.len() - i,
    {
        assert(views.take(i + 1).drop_last() =~= views.take(i as int));
        assert(views.take(i + 1).last() == views[i as int]);
        match &tokens[i] {
            TemplateToken::Literal(value) => {
                rendered = concat(rendered.as_str(), value.as_str());
            },
            TemplateToken::Variable { name, format } => {
                let piece: String = if str_eq(name.as_str(), "sequence") {
                    match format {
                        Some(pattern) => format_sequence(ordinal, pattern.as_str()),
                        None => u64_to_string(ordinal as u64),
                    }
                } else if str_eq(name.as_str(), "capture_time") && context.capture_time.is_some() {
                    let time = context.capture_time.unwrap();
                    match format {
                        Some(pattern) => match format_capture_time(time, pattern.as_str()) {
                            Some(text) => text,
                            None => {
                                proof {
                                    assert(rendered_text(views.take(i + 1), vals, context.capture_time, ordinal) is None);
                                    lemma_rendered_none(views, vals, context.capture_time, ordinal, i + 1, views.len() as int);
                                    assert(views.take(views.len() as int) =~= views);
                                }
                                return Err("命名模板的时间格式无效。".to_owned());
                            },
                        },
                        None => match to_rfc3339(time) {
                            Some(text) => text,
                            None => String::new(),
                        },
                    }
                } else {
                    match context_value(&context.values, name.as_str()) {
                        Some(value) => value,
                        None => String::new(),
                    }
                };
                rendered = concat(rendered.as_str(), piece.as_str());
            },
        }
        i += 1;
    }
    assert(views.take(tokens@.len() as int) =~= views);
    if rendered.as_str().is_empty() {
        return Err("命名模板渲染结果为空。".to_owned());
    }
    Ok(rendered)
}

// ---------------------------------------------------------------------------
// Capture times of assets
// ---------------------------------------------------------------------------

pub open spec fn missing_capture_no_mtime_detail() -> Seq<char> {
    "缺少拍摄时间，修改时间也不可用。"@
}

pub open spec fn missing_capture_fallback_detail() -> Seq<char> {
    "缺少拍摄时间，已按规则回退。"@
}

pub open spec fn missing_capture_blocked_detail() -> Seq<char> {
    "缺少拍摄时间，当前回退策略要求阻止此项。"@
}

/// The recorded capture time when it parses.
pub open spec fn parsed_capture(capture: Option<Seq<char>>) -> Option<CaptureTime> {
    match capture {
        Some(v) => spec_parse_capture_time(v),
        None => None,
    }
}

/// An item's capture time and the text of its `capture_time` variable: the
/// recorded time when it parses; otherwise, by the fallback, the
/// modification time, the text `unknown`, or nothing.
pub open spec fn capture_resolution(
    capture: Option<Seq<char>>,
    modified_at: i64,
    fallback: OrganizationMissingFallback,
) -> (Option<CaptureTime>, Option<Seq<char>>) {
    if parsed_capture(capture) is Some {
        (parsed_capture(capture), capture)
    } else {
        match fallback {
            OrganizationMissingFallback::ModificationTime => match spec_modified_time(modified_at) {
                Some(t) => (Some(t), rfc3339_text(t.seconds, t.nanos)),
                None => (None, None),
            },
            OrganizationMissingFallback::Unknown | OrganizationMissingFallback::Skip => (
                None,
                Some("unknown"@),
            ),
            OrganizationMissingFallback::Block => (None, None),
        }
    }
}

/// The issue a missing capture time raises: a warning where the fallback
/// applies (or the modification time is unusable), an error where the
/// fallback blocks.
pub open spec fn capture_issues(
    capture: Option<Seq<char>>,
    modified_at: i64,
    fallback: OrganizationMissingFallback,
    source: Seq<char>,
) -> Seq<IssueView> {
    if parsed_capture(capture) is Some {
        Seq::empty()
    } else {
        match fallback {
            OrganizationMissingFallback::ModificationTime => if spec_modified_time(
                modified_at,
            ) is None {
                seq![
                    (
                        "capture_time_missing"@,
                        OrganizationIssueSeverity::Warning,
                        Some(source),
                        None,
                        missing_capture_no_mtime_detail(),
                    ),
                ]
            } else {
                Seq::empty()
            },
            OrganizationMissingFallback::Unknown | OrganizationMissingFallback::Skip => seq![
                (
                    "capture_time_missing"@,
                    OrganizationIssueSeverity::Warning,
                    Some(source),
                    None,
                    missing_capture_fallback_detail(),
                ),
            ],
            OrganizationMissingFallback::Block => seq![
                (
                    "capture_time_missing"@,
                    OrganizationIssueSeverity::Error,
                    Some(source),
                    None,
                    missing_capture_blocked_detail(),
                ),
            ],
        }
    }
}

pub fn resolve_capture_time(
    asset: &PlanAsset,
    fallback: &OrganizationMissingFallback,
    issues: &mut Vec<OrganizationIssue>,
) -> (r: (Option<CaptureTime>, Option<String>))
    ensures
        (r.0, opt_string_view(r.1)) == capture_resolution(
            opt_string_view(asset.capture_time),
            asset.modified_at,
            *fallback,
        ),
        issue_views(final(issues)@) == issue_views(old(issues)@) + capture_issues(
            opt_string_view(asset.capture_time),
            asset.modified_at,
            *fallback,
            asset.absolute_path@,
        ),
{
    let ghost before = issue_views(issues@);
    if let Some(value) = &asset.capture_time {
        if let Some(time) = parse_capture_time(value.as_str()) {
            assert(issue_views(issues@) =~= before + Seq::<IssueView>::empty());
            return (Some(time), Some(value.clone()));
        }
    }
    match fallback {
        OrganizationMissingFallback::ModificationTime => {
            let value = modified_time(asset.modified_at);
            match value {
                Some(time) => {
                    assert(issue_views(issues@) =~= before + Seq::<IssueView>::empty());
                    (Some(time), to_rfc3339(time))
                },
                None => {
                    push_issue(
                        issues,
                        issue(
                            "capture_time_missing",
                            OrganizationIssueSeverity::Warning,
                            Some(asset.absolute_path.clone()),
                            None,
                            "缺少拍摄时间，修改时间也不可用。",
                        ),
                    );
                    (None, None)
                },
            }
        },
        OrganizationMissingFallback::Unknown | OrganizationMissingFallback::Skip => {
            push_issue(
                issues,
                issue(
                    "capture_time_missing",
                    OrganizationIssueSeverity::Warning,
                    Some(asset.absolute_path.clone()),
                    None,
                    "缺少拍摄时间，已按规则回退。",
                ),
            );
            (None, Some("unknown".to_owned()))
        },
        OrganizationMissingFallback::Block => {
            push_issue(
                issues,
                issue(
                    "capture_time_missing",
                    OrganizationIssueSeverity::Error,
                    Some(asset.absolute_path.clone()),
                    None,
                    "缺少拍摄时间，当前回退策略要求阻止此项。",
                ),
            );
            (None, None)
        },
    }
}

// ---------------------------------------------------------------------------
// Fingerprints
// ---------------------------------------------------------------------------

/// The lowercase hexadecimal BLAKE3 digest of a string's UTF-8 bytes.
pub uninterp spec fn blake3_hex(data: Seq<char>) -> Seq<char>;

/// Calls `blake3::hash` on the UTF-8 bytes of `data` and `to_hex` on the
/// digest; the result is named by `blake3_hex`. `to_hex` writes the 32
/// digest bytes as 64 hexadecimal digits.
#[verifier::external_body]
pub(crate) fn hash_hex(data: &str) -> (r: String)
    ensures
        r@ == blake3_hex(data@),
        r@.len() == 64,
{
    blake3::hash(data.as_bytes()).to_hex().to_string()
}

/// The text an asset's fingerprint digests: its path, size and
/// modification time, separated by colons.
pub open spec fn fingerprint_text(path: Seq<char>, size: i64, modified_at: i64) -> Seq<char> {
    path + seq![':'] + signed_decimal(size as int) + seq![':'] + signed_decimal(modified_at as int)
}

/// The fingerprint of an asset: the digest of its path, size and
/// modification time. It stands for the file's identity in a preview; it
/// is not a digest of the content.
pub open spec fn spec_asset_fingerprint(asset: PlanAsset) -> Seq<char> {
    blake3_hex(fingerprint_text(asset.absolute_path@, asset.file_size, asset.modified_at))
}

pub fn asset_fingerprint(asset: &PlanAsset) -> (r: String)
    ensures
        r@ == spec_asset_fingerprint(*asset),
        r@.len() == 64,
{
    let size = i64_to_string(asset.file_size);
    let modified = i64_to_string(asset.modified_at);
    let text = concat(asset.absolute_path.as_str(), ":");
    let text = concat(text.as_str(), size.as_str());
    let text = concat(text.as_str(), ":");
    let text = concat(text.as_str(), modified.as_str());
    proof {
        reveal_strlit(":");
        assert(text@ =~= fingerprint_text(asset.absolute_path@, asset.file_size, asset.modified_at));
    }
    hash_hex(text.as_str())
}

// ---------------------------------------------------------------------------
// Names
// ---------------------------------------------------------------------------

/// The stem of a file name (a name without separators): the name up to its
/// last dot, unless that dot opens the name; `..` is its own stem.
pub open spec fn file_stem(name: Seq<char>) -> Seq<char> {
    if name == ".."@ {
        name
    } else {
        match last_index(name, '.') {
            Some(k) => if k > 0 {
                name.take(k)
            } else {
                name
            },
            None => name,
        }
    }
}

pub fn stem_of(name: &str) -> (r: String)
    ensures
        r@ == file_stem(name@),
{
    if str_eq(name, "..") {
        return name.to_owned();
    }
    let cs = chars_of(name);
    proof {
        crate::conflicts::lemma_last_index_range(cs@, '.');
    }
    match last_index_of(&cs, '.') {
        Some(k) => if k > 0 {
            string_of(&subvec(&cs, 0, k))
        } else {
            name.to_owned()
        },
        None => name.to_owned(),
    }
}

/// The number of leading `c` of `s`.
pub open spec fn leading_count(s: Seq<char>, c: char) -> nat
    decreases s.len(),
{
    if s.len() > 0 && s[0] == c {
        1 + leading_count(s.drop_first(), c)
    } else {
        0
    }
}

/// `s` without its leading dots.
pub open spec fn trim_leading_dots(s: Seq<char>) -> Seq<char> {
    s.skip(leading_count(s, '.') as int)
}

pub fn strip_leading_dots(s: &str) -> (r: String)
    ensures
        r@ == trim_leading_dots(s@),
{
    let cs = chars_of(s);
    let mut i: usize = 0;
    assert(cs@.skip(0) =~= cs@);
    while i < cs.len() && cs[i] == '.'
        invariant
            i <= cs@.len(),
            leading_count(cs@, '.') == i + leading_count(cs@.skip(i as int), '.'),
        decreases cs@.len() - i,
    {
        assert(cs@.skip(i as int).drop_first() =~= cs@.skip(i + 1));
        i += 1;
    }
    proof {
        if i < cs@.len() {
            assert(cs@.skip(i as int)[0] == cs@[i as int]);
        }
    }
    string_of(&subvec(&cs, i, cs.len()))
}

// ---------------------------------------------------------------------------
// The naming variables of an asset
// ---------------------------------------------------------------------------

/// The camera an item names: its model, else its make.
pub open spec fn camera_choice(asset: PlanAsset) -> Option<Seq<char>> {
    match opt_string_view(asset.camera_model) {
        Some(m) => Some(m),
        None => opt_string_view(asset.camera_make),
    }
}

/// The text of a capture time in a pattern, or the empty text without one.
pub open spec fn optional_time_text(time: Option<CaptureTime>, pattern: Seq<char>) -> Seq<char> {
    match time {
        Some(t) => time_text(t, pattern),
        None => Seq::empty(),
    }
}

/// The naming variables of an asset numbered `ordinal`, in ascending order
/// of name. Missing metadata resolves by the rules' fallback.
pub open spec fn spec_context_values(
    asset: PlanAsset,
    fallback: OrganizationMissingFallback,
    ordinal: u32,
) -> Seq<(Seq<char>, Seq<char>)> {
    let resolved = capture_resolution(opt_string_view(asset.capture_time), asset.modified_at, fallback);
    let semantic = spec_resolve_value(opt_string_view(asset.primary_category), fallback);
    let camera = match camera_choice(asset) {
        Some(c) => c,
        None => spec_resolve_value(None, fallback),
    };
    let date = optional_time_text(resolved.0, "%Y-%m-%d"@);
    seq![
        ("camera"@, camera),
        ("camera_make"@, or_empty(opt_string_view(asset.camera_make))),
        ("camera_model"@, or_empty(opt_string_view(asset.camera_model))),
        ("capture_date"@, date),
        ("capture_time"@, or_empty(resolved.1)),
        ("captured_date"@, date),
        ("captured_time"@, optional_time_text(resolved.0, "%H-%M-%S"@)),
        ("dominant_color"@, spec_resolve_value(opt_string_view(asset.dominant_color_category), fallback)),
        ("extension"@, trim_leading_dots(asset.extension@)),
        ("lens"@, spec_resolve_value(opt_string_view(asset.lens_model), fallback)),
        ("original_name"@, asset.file_name@),
        ("original_stem"@, file_stem(asset.file_name@)),
        ("primary_label"@, semantic),
        ("saturation"@, spec_resolve_value(opt_string_view(asset.saturation_label), fallback)),
        ("semantic"@, semantic),
        ("sequence"@, decimal(ordinal as nat)),
        ("short_hash"@, spec_asset_fingerprint(asset).take(8)),
        ("tone"@, spec_resolve_value(opt_string_view(asset.tone_label), fallback)),
    ]
}

/// The issues resolving an asset's naming variables raises, in order:
/// capture time, semantic, camera, lens, tone, color, saturation.
pub open spec fn spec_context_issues(asset: PlanAsset, fallback: OrganizationMissingFallback) -> Seq<IssueView> {
    let src = asset.absolute_path@;
    capture_issues(opt_string_view(asset.capture_time), asset.modified_at, fallback, src)
        + resolve_value_issues(opt_string_view(asset.primary_category), fallback, "semantic_missing"@, src)
        + (if camera_choice(asset) is None {
        resolve_value_issues(None, fallback, "camera_missing"@, src)
    } else {
        Seq::empty()
    }) + resolve_value_issues(opt_string_view(asset.lens_model), fallback, "lens_missing"@, src)
        + resolve_value_issues(opt_string_view(asset.tone_label), fallback, "tone_missing"@, src)
        + resolve_value_issues(opt_string_view(asset.dominant_color_category), fallback, "color_missing"@, src)
        + resolve_value_issues(opt_string_view(asset.saturation_label), fallback, "saturation_missing"@, src)
}

fn optional_time(time: Option<CaptureTime>, pattern: &str) -> (r: String)
    ensures
        r@ == optional_time_text(time, pattern@),
{
    match time {
        Some(t) => format_time_or_empty(t, pattern),
        None => String::new(),
    }
}

fn text_or_empty(value: &Option<String>) -> (r: String)
    ensures
        r@ == or_empty(opt_string_view(*value)),
{
    match value {
        Some(v) => v.clone(),
        None => String::new(),
    }
}

/// The naming variables of an asset numbered `ordinal`, with the issues
/// that resolving them raised.
pub fn render_context(asset: &PlanAsset, rules: &OrganizationRules, ordinal: u32) -> (r: (
    RenderContext,
    Vec<OrganizationIssue>,
))
    ensures
        pair_views(r.0.values@) == spec_context_values(*asset, rules.missing_fallback, ordinal),
        r.0.capture_time == capture_resolution(
            opt_string_view(asset.capture_time),
            asset.modified_at,
            rules.missing_fallback,
        ).0,
        issue_views(r.1@) == spec_context_issues(*asset, rules.missing_fallback),
{
    let fallback = &rules.missing_fallback;
    let path = asset.absolute_path.as_str();
    let mut issues: Vec<OrganizationIssue> = Vec::new();
    let ghost v0 = issue_views(issues@);
    let (capture_time, capture_value) = resolve_capture_time(asset, fallback, &mut issues);
    let ghost v1 = issue_views(issues@);
    let semantic = resolve_value(asset.primary_category.clone(), fallback, "semantic_missing", path, &mut issues);
    let ghost v2 = issue_views(issues@);
    let camera = match &asset.camera_model {
        Some(model) => model.clone(),
        None => match &asset.camera_make {
            Some(make) => make.clone(),
            None => resolve_value(None, fallback, "camera_missing", path, &mut issues),
        },
    };
    let ghost v3 = issue_views(issues@);
    let lens = resolve_value(asset.lens_model.clone(), fallback, "lens_missing", path, &mut issues);
    let ghost v4 = issue_views(issues@);
    let tone = resolve_value(asset.tone_label.clone(), fallback, "tone_missing", path, &mut issues);
    let ghost v5 = issue_views(issues@);
    let color = resolve_value(asset.dominant_color_category.clone(), fallback, "color_missing", path, &mut issues);
    let ghost v6 = issue_views(issues@);
    let saturation = resolve_value(asset.saturation_label.clone(), fallback, "saturation_missing", path, &mut issues);
    proof {
        if camera_choice(*asset) is Some {
            assert(v3 =~= v2 + Seq::<IssueView>::empty());
        }
        assert(issue_views(issues@) =~= spec_context_issues(*asset, rules.missing_fallback));
    }
    let date = optional_time(capture_time, "%Y-%m-%d");
    let fingerprint = asset_fingerprint(asset);
    let mut values: Vec<(String, String)> = Vec::new();
    values.push(("camera".to_owned(), camera));
    values.push(("camera_make".to_owned(), text_or_empty(&asset.camera_make)));
    values.push(("camera_model".to_owned(), text_or_empty(&asset.camera_model)));
    values.push(("capture_date".to_owned(), date.clone()));
    values.push(("capture_time".to_owned(), text_or_empty(&capture_value)));
    values.push(("captured_date".to_owned(), date));
    values.push(("captured_time".to_owned(), optional_time(capture_time, "%H-%M-%S")));
    values.push(("dominant_color".to_owned(), color));
    values.push(("extension".to_owned(), strip_leading_dots(asset.extension.as_str())));
    values.push(("lens".to_owned(), lens));
    values.push(("original_name".to_owned(), asset.file_name.clone()));
    values.push(("original_stem".to_owned(), stem_of(asset.file_name.as_str())));
    values.push(("primary_label".to_owned(), semantic.clone()));
    values.push(("saturation".to_owned(), saturation));
    values.push(("semantic".to_owned(), semantic));
    values.push(("sequence".to_owned(), u64_to_string(ordinal as u64)));
    values.push(("short_hash".to_owned(), short_hash(fingerprint.as_str())));
    values.push(("tone".to_owned(), tone));
    proof {
        assert(pair_views(values@) =~= spec_context_values(*asset, rules.missing_fallback, ordinal));
    }
    (RenderContext { values, capture_time }, issues)
}

// ---------------------------------------------------------------------------
// Directory levels
// ---------------------------------------------------------------------------

/// The strftime pattern of a date level.
pub open spec fn date_pattern(kind: OrganizationLevelKind) -> Seq<char> {
    match kind {
        OrganizationLevelKind::Year => "%Y"@,
        OrganizationLevelKind::Month => "%m"@,
        _ => "%d"@,
    }
}

fn date_pattern_of(kind: OrganizationLevelKind) -> (r: &'static str)
    ensures
        r@ == date_pattern(kind),
{
    match kind {
        OrganizationLevelKind::Year => "%Y",
        OrganizationLevelKind::Month => "%m",
        _ => "%d",
    }
}

/// The directory of an item's source, from the parent of its relative
/// path: none for `.`, with backslashes as slashes.
pub open spec fn source_directory(parent: Option<Seq<char>>) -> Option<Seq<char>> {
    match parent {
        Some(p) => if p == "."@ {
            None
        } else {
            Some(replace_char(p, '\\', '/'))
        },
        None => None,
    }
}

/// The value a level reads: a part of the capture time, the source
/// directory, or a naming variable.
pub open spec fn level_value(
    kind: OrganizationLevelKind,
    values: Seq<(Seq<char>, Seq<char>)>,
    capture: Option<CaptureTime>,
    parent: Option<Seq<char>>,
) -> Option<Seq<char>> {
    match kind {
        OrganizationLevelKind::Year | OrganizationLevelKind::Month | OrganizationLevelKind::Day => match capture {
            Some(t) => strftime_text(t.seconds, t.nanos, date_pattern(kind)),
            None => None,
        },
        OrganizationLevelKind::OriginalDirectory => source_directory(parent),
        OrganizationLevelKind::PrimarySemantic => lookup(values, "semantic"@),
        OrganizationLevelKind::Tone => lookup(values, "tone"@),
        OrganizationLevelKind::DominantColor => lookup(values, "dominant_color"@),
        OrganizationLevelKind::Saturation => lookup(values, "saturation"@),
    }
}

/// A level's value when it has a non-empty one.
pub open spec fn present_value(
    kind: OrganizationLevelKind,
    values: Seq<(Seq<char>, Seq<char>)>,
    capture: Option<CaptureTime>,
    parent: Option<Seq<char>>,
) -> Option<Seq<char>> {
    match level_value(kind, values, capture, parent) {
        Some(v) => if v.len() > 0 {
            Some(v)
        } else {
            None
        },
        None => None,
    }
}

/// The folders a level contributes: the segments of its value; without
/// one, by its fallback, the date part of the modification time (for date
/// levels whose modification time is usable), `unknown`, or none.
pub open spec fn level_folders(
    level: OrganizationLevel,
    values: Seq<(Seq<char>, Seq<char>)>,
    capture: Option<CaptureTime>,
    parent: Option<Seq<char>>,
    modified_at: i64,
) -> Seq<Seq<char>> {
    match present_value(level.kind, values, capture, parent) {
        Some(v) => path_segments(v),
        None => match level.fallback {
            OrganizationMissingFallback::ModificationTime => if level.kind.is_date()
                && spec_modified_time(modified_at) is Some {
                seq![time_text(spec_modified_time(modified_at)->0, date_pattern(level.kind))]
            } else {
                Seq::empty()
            },
            OrganizationMissingFallback::Unknown => seq!["unknown"@],
            _ => Seq::empty(),
        },
    }
}

pub open spec fn no_mtime_level_detail(kind: OrganizationLevelKind) -> Seq<char> {
    "目录维度 "@ + spec_level_name(kind) + " 缺少元数据且无法使用修改时间回退。"@
}

pub open spec fn blocked_level_detail(kind: OrganizationLevelKind) -> Seq<char> {
    "目录维度 "@ + spec_level_name(kind) + " 缺少必需元数据。"@
}

/// The issue a level without a value raises: a warning where the
/// modification-time fallback cannot apply, an error where it blocks.
pub open spec fn level_issues_of(
    level: OrganizationLevel,
    values: Seq<(Seq<char>, Seq<char>)>,
    capture: Option<CaptureTime>,
    parent: Option<Seq<char>>,
    modified_at: i64,
    source: Seq<char>,
) -> Seq<IssueView> {
    match present_value(level.kind, values, capture, parent) {
        Some(v) => Seq::empty(),
        None => match level.fallback {
            OrganizationMissingFallback::ModificationTime => if level.kind.is_date()
                && spec_modified_time(modified_at) is Some {
                Seq::empty()
            } else {
                seq![
                    (
                        "missing_metadata"@,
                        OrganizationIssueSeverity::Warning,
                        Some(source),
                        None,
                        no_mtime_level_detail(level.kind),
                    ),
                ]
            },
            OrganizationMissingFallback::Block => seq![
                (
                    "missing_metadata"@,
                    OrganizationIssueSeverity::Error,
                    Some(source),
                    None,
                    blocked_level_detail(level.kind),
                ),
            ],
            _ => Seq::empty(),
        },
    }
}

/// The folders of the first `n` levels.
pub open spec fn levels_folders(
    levels: Seq<OrganizationLevel>,
    n: int,
    values: Seq<(Seq<char>, Seq<char>)>,
    capture: Option<CaptureTime>,
    parent: Option<Seq<char>>,
    modified_at: i64,
) -> Seq<Seq<char>>
    decreases n,
{
    if n <= 0 {
        Seq::empty()
    } else {
        levels_folders(levels, n - 1, values, capture, parent, modified_at) + level_folders(
            levels[n - 1],
            values,
            capture,
            parent,
            modified_at,
        )
    }
}

/// The issues of the first `n` levels.
pub open spec fn levels_issues(
    levels: Seq<OrganizationLevel>,
    n: int,
    values: Seq<(Seq<char>, Seq<char>)>,
    capture: Option<CaptureTime>,
    parent: Option<Seq<char>>,
    modified_at: i64,
    source: Seq<char>,
) -> Seq<IssueView>
    decreases n,
{
    if n <= 0 {
        Seq::empty()
    } else {
        levels_issues(levels, n - 1, values, capture, parent, modified_at, source) + level_issues_of(
            levels[n - 1],
            values,
            capture,
            parent,
            modified_at,
            source,
        )
    }
}

fn push_segments(folders: &mut Vec<String>, value: &str)
    ensures
        final(folders)@.map_values(|s: String| s@) == old(folders)@.map_values(|s: String| s@) + path_segments(value@),
{
    let segments = split_segments(value);
    let ghost start = folders@.map_values(|s: String| s@);
    let mut k: usize = 0;
    while k < segments.len()
        invariant
            k <= segments@.len(),
            folders@.map_values(|s: String| s@) == start + segments@.map_values(|v: Vec<char>| v@).take(k as int),
        decreases segments@.len() - k,
    {
        let ghost before = folders@;
        let text = string_of(&segments[k]);
        assert(text@ == segments@.map_values(|v: Vec<char>| v@)[k as int]);
        folders.push(text);
        assert(folders@.map_values(|s: String| s@) =~= before.map_values(|s: String| s@).push(text@));
        assert(folders@.map_values(|s: String| s@) =~= start + segments@.map_values(|v: Vec<char>| v@).take(k + 1));
        k += 1;
    }
    assert(segments@.map_values(|v: Vec<char>| v@).take(segments@.len() as int) =~= segments@.map_values(|v: Vec<char>| v@));
}

fn level_value_of(
    kind: OrganizationLevelKind,
    context: &RenderContext,
    parent: &Option<String>,
) -> (r: Option<String>)
    ensures
        opt_string_view(r) == level_value(kind, pair_views(context.values@), context.capture_time, opt_string_view(*parent)),
{
    match kind {
        OrganizationLevelKind::Year | OrganizationLevelKind::Month | OrganizationLevelKind::Day => match context.capture_time {
            Some(t) => format_time(t, date_pattern_of(kind)),
            None => None,
        },
        OrganizationLevelKind::OriginalDirectory => match parent {
            Some(p) => if str_eq(p.as_str(), ".") {
                None
            } else {
                Some(replace_char_exec(p.as_str(), '\\', '/'))
            },
            None => None,
        },
        OrganizationLevelKind::PrimarySemantic => context_value(&context.values, "semantic"),
        OrganizationLevelKind::Tone => context_value(&context.values, "tone"),
        OrganizationLevelKind::DominantColor => context_value(&context.values, "dominant_color"),
        OrganizationLevelKind::Saturation => context_value(&context.values, "saturation"),
    }
}

/// The folders of an asset's target under the rules' levels, in order.
/// `parent` is the parent of the asset's relative path, as the platform's
/// path rules read it. Levels without a value fall back as the level says,
/// and may add issues.
pub fn render_levels(
    asset: &PlanAsset,
    rules: &OrganizationRules,
    context: &RenderContext,
    parent: &Option<String>,
    issues: &mut Vec<OrganizationIssue>,
) -> (r: Vec<String>)
    ensures
        r@.map_values(|s: String| s@) == levels_folders(
            rules.levels@,
            rules.levels@.len() as int,
            pair_views(context.values@),
            context.capture_time,
            opt_string_view(*parent),
            asset.modified_at,
        ),
        issue_views(final(issues)@) == issue_views(old(issues)@) + levels_issues(
            rules.levels@,
            rules.levels@.len() as int,
            pair_views(context.values@),
            context.capture_time,
            opt_string_view(*parent),
            asset.modified_at,
            asset.absolute_path@,
        ),
{
    let ghost vals = pair_views(context.values@);
    let ghost par = opt_string_view(*parent);
    let ghost start = issue_views(issues@);
    let mut folders: Vec<String> = Vec::new();
    let mut i: usize = 0;
    assert(folders@.map_values(|s: String| s@) =~= Seq::<Seq<char>>::empty());
    assert(start + Seq::<IssueView>::empty() =~= start);
    while i < rules.levels.len()
        invariant
            i <= rules.levels@.len(),
            vals == pair_views(context.values@),
            par == opt_string_view(*parent),
            folders@.map_values(|s: String| s@) == levels_folders(
                rules.levels@,
                i as int,
                vals,
                context.capture_time,
                par,
                asset.modified_at,
            ),
            issue_views(issues@) == start + levels_issues(
                rules.levels@,
                i as int,
                vals,
                context.capture_time,
                par,
                asset.modified_at,
                asset.absolute_path@,
            ),
        decreases rules.levels@.len() - i,
    {
        let level = rules.levels[i];
        let ghost before_folders = folders@.map_values(|s: String| s@);
        let ghost before_issues = issue_views(issues@);
        let value = level_value_of(level.kind, context, parent);
        let present = match &value {
            Some(v) => !v.as_str().is_empty(),
            None => false,
        };
        if present {
            let v = value.unwrap();
            push_segments(&mut folders, v.as_str());
            assert(issue_views(issues@) =~= before_issues + Seq::<IssueView>::empty());
        } else {
            match level.fallback {
                OrganizationMissingFallback::ModificationTime => {
                    let is_date = match level.kind {
                        OrganizationLevelKind::Year | OrganizationLevelKind::Month | OrganizationLevelKind::Day => true,
                        _ => false,
                    };
                    let modified = if is_date {
                        modified_time(asset.modified_at)
                    } else {
                        None
                    };
                    match modified {
                        Some(time) => {
                            let text = format_time_or_empty(time, date_pattern_of(level.kind));
                            let ghost b = folders@;
                            folders.push(text);
                            assert(folders@.map_values(|s: String| s@) =~= before_folders.push(text@));
                            assert(issue_views(issues@) =~= before_issues + Seq::<IssueView>::empty());
                        },
                        None => {
                            let name = level.kind.as_str();
                            let detail = concat(concat("目录维度 ", name).as_str(), " 缺少元数据且无法使用修改时间回退。");
                            push_issue(
                                issues,
                                crate::organization::issue_owned_detail(
                                    "missing_metadata",
                                    OrganizationIssueSeverity::Warning,
                                    Some(asset.absolute_path.clone()),
                                    None,
                                    detail,
                                ),
                            );
                            assert(folders@.map_values(|s: String| s@) =~= before_folders + Seq::<Seq<char>>::empty());
                        },
                    }
                },
                OrganizationMissingFallback::Unknown => {
                    folders.push("unknown".to_owned());
                    assert(folders@.map_values(|s: String| s@) =~= before_folders + seq!["unknown"@]);
                    assert(issue_views(issues@) =~= before_issues + Seq::<IssueView>::empty());
                },
                OrganizationMissingFallback::Skip => {
                    assert(folders@.map_values(|s: String| s@) =~= before_folders + Seq::<Seq<char>>::empty());
                    assert(issue_views(issues@) =~= before_issues + Seq::<IssueView>::empty());
                },
                OrganizationMissingFallback::Block => {
                    let name = level.kind.as_str();
                    let detail = concat(concat("目录维度 ", name).as_str(), " 缺少必需元数据。");
                    push_issue(
                        issues,
                        crate::organization::issue_owned_detail(
                            "missing_metadata",
                            OrganizationIssueSeverity::Error,
                            Some(asset.absolute_path.clone()),
                            None,
                            detail,
                        ),
                    );
                    assert(folders@.map_values(|s: String| s@) =~= before_folders + Seq::<Seq<char>>::empty());
                },
            }
        }
        proof {
            assert(rules.levels@[i as int] == level);
        }
        i += 1;
    }
    folders
}

proof fn lemma_lookup_passes(vals: Seq<(Seq<char>, Seq<char>)>, name: Seq<char>, i: int)
    requires
        0 <= i < vals.len(),
        vals[i].0 != name,
    ensures
        lookup(vals.skip(i), name) == lookup(vals.skip(i + 1), name),
{
    assert(vals.skip(i).drop_first() =~= vals.skip(i + 1));
}

proof fn lemma_lookup_finds(vals: Seq<(Seq<char>, Seq<char>)>, name: Seq<char>, i: int)
    requires
        0 <= i < vals.len(),
        vals[i].0 == name,
    ensures
        lookup(vals.skip(i), name) == Some(vals[i].1),
{
}

/// What the naming variables of an asset hold: `camera` is the camera
/// model whenever the asset has one, and its make only where the model is
/// missing; `camera_make` and `camera_model` are the make and model as
/// they are; the semantic, tone, colour, saturation and lens variables are
/// the asset's own primary category, tone, dominant colour category,
/// saturation label and lens, each resolved by the fallback only where it
/// is missing; `original_name` is the file name and `sequence` the ordinal.
pub proof fn lemma_naming_variables(asset: PlanAsset, fallback: OrganizationMissingFallback, ordinal: u32)
    ensures
        ({
            let values = spec_context_values(asset, fallback, ordinal);
            &&& asset.camera_model matches Some(model) ==> lookup(values, "camera"@) == Some(model@)
            &&& asset.camera_model is None ==> (asset.camera_make matches Some(make) ==> lookup(
                values,
                "camera"@,
            ) == Some(make@))
            &&& (asset.camera_model is None && asset.camera_make is None) ==> lookup(values, "camera"@) == Some(
                spec_resolve_value(None, fallback),
            )
            &&& lookup(values, "camera_make"@) == Some(or_empty(opt_string_view(asset.camera_make)))
            &&& lookup(values, "camera_model"@) == Some(or_empty(opt_string_view(asset.camera_model)))
            &&& lookup(values, "semantic"@) == Some(spec_resolve_value(opt_string_view(asset.primary_category), fallback))
            &&& lookup(values, "primary_label"@) == Some(
                spec_resolve_value(opt_string_view(asset.primary_category), fallback),
            )
            &&& lookup(values, "tone"@) == Some(spec_resolve_value(opt_string_view(asset.tone_label), fallback))
            &&& lookup(values, "dominant_color"@) == Some(
                spec_resolve_value(opt_string_view(asset.dominant_color_category), fallback),
            )
            &&& lookup(values, "saturation"@) == Some(
                spec_resolve_value(opt_string_view(asset.saturation_label), fallback),
            )
            &&& lookup(values, "lens"@) == Some(spec_resolve_value(opt_string_view(asset.lens_model), fallback))
            &&& lookup(values, "original_name"@) == Some(asset.file_name@)
            &&& lookup(values, "sequence"@) == Some(decimal(ordinal as nat))
        }),
{
    let values = spec_context_values(asset, fallback, ordinal);
    reveal_strlit("camera");
    reveal_strlit("camera_make");
    reveal_strlit("camera_model");
    reveal_strlit("capture_date");
    reveal_strlit("capture_time");
    reveal_strlit("captured_date");
    reveal_strlit("captured_time");
    reveal_strlit("dominant_color");
    reveal_strlit("extension");
    reveal_strlit("lens");
    reveal_strlit("original_name");
    reveal_strlit("original_stem");
    reveal_strlit("primary_label");
    reveal_strlit("saturation");
    reveal_strlit("semantic");
    reveal_strlit("sequence");
    reveal_strlit("short_hash");
    reveal_strlit("tone");
    assert("camera"@.len() == 6);
    assert("camera_make"@.len() == 11);
    assert("camera_model"@.len() == 12);
    assert("capture_date"@.len() == 12);
    assert("capture_time"@.len() == 12);
    assert("captured_date"@.len() == 13);
    assert("captured_time"@.len() == 13);
    assert("dominant_color"@.len() == 14);
    assert("extension"@.len() == 9);
    assert("lens"@.len() == 4);
    assert("original_name"@.len() == 13);
    assert("original_stem"@.len() == 13);
    assert("primary_label"@.len() == 13);
    assert("saturation"@.len() == 10);
    assert("semantic"@.len() == 8);
    assert("sequence"@.len() == 8);
    assert("short_hash"@.len() == 10);
    assert("tone"@.len() == 4);
    assert(values.skip(0) =~= values);
    lemma_lookup_finds(values, "camera"@, 0);
    lemma_lookup_passes(values, "camera_make"@, 0);
    lemma_lookup_finds(values, "camera_make"@, 1);
    lemma_lookup_passes(values, "camera_model"@, 0);
    lemma_lookup_passes(values, "camera_model"@, 1);
    lemma_lookup_finds(values, "camera_model"@, 2);
    lemma_lookup_passes(values, "dominant_color"@, 0);
    lemma_lookup_passes(values, "dominant_color"@, 1);
    lemma_lookup_passes(values, "dominant_color"@, 2);
    lemma_lookup_passes(values, "dominant_color"@, 3);
    lemma_lookup_passes(values, "dominant_color"@, 4);
    lemma_lookup_passes(values, "dominant_color"@, 5);
    lemma_lookup_passes(values, "dominant_color"@, 6);
    lemma_lookup_finds(values, "dominant_color"@, 7);
    lemma_lookup_passes(values, "lens"@, 0);
    lemma_lookup_passes(values, "lens"@, 1);
    lemma_lookup_passes(values, "lens"@, 2);
    lemma_lookup_passes(values, "lens"@, 3);
    lemma_lookup_passes(values, "lens"@, 4);
    lemma_lookup_passes(values, "lens"@, 5);
    lemma_lookup_passes(values, "lens"@, 6);
    lemma_lookup_passes(values, "lens"@, 7);
    lemma_lookup_passes(values, "lens"@, 8);
    lemma_lookup_finds(values, "lens"@, 9);
    assert("original_name"@[0] == 'o' && "captured_date"@[0] == 'c' && "captured_time"@[0] == 'c');
    lemma_lookup_passes(values, "original_name"@, 0);
    lemma_lookup_passes(values, "original_name"@, 1);
    lemma_lookup_passes(values, "original_name"@, 2);
    lemma_lookup_passes(values, "original_name"@, 3);
    lemma_lookup_passes(values, "original_name"@, 4);
    lemma_lookup_passes(values, "original_name"@, 5);
    lemma_lookup_passes(values, "original_name"@, 6);
    lemma_lookup_passes(values, "original_name"@, 7);
    lemma_lookup_passes(values, "original_name"@, 8);
    lemma_lookup_passes(values, "original_name"@, 9);
    lemma_lookup_finds(values, "original_name"@, 10);
    assert("primary_label"@[0] == 'p' && "original_stem"@[0] == 'o');
    lemma_lookup_passes(values, "primary_label"@, 0);
    lemma_lookup_passes(values, "primary_label"@, 1);
    lemma_lookup_passes(values, "primary_label"@, 2);
    lemma_lookup_passes(values, "primary_label"@, 3);
    lemma_lookup_passes(values, "primary_label"@, 4);
    lemma_lookup_passes(values, "primary_label"@, 5);
    lemma_lookup_passes(values, "primary_label"@, 6);
    lemma_lookup_passes(values, "primary_label"@, 7);
    lemma_lookup_passes(values, "primary_label"@, 8);
    lemma_lookup_passes(values, "primary_label"@, 9);
    lemma_lookup_passes(values, "primary_label"@, 10);
    lemma_lookup_passes(values, "primary_label"@, 11);
    lemma_lookup_finds(values, "primary_label"@, 12);
    lemma_lookup_passes(values, "saturation"@, 0);
    lemma_lookup_passes(values, "saturation"@, 1);
    lemma_lookup_passes(values, "saturation"@, 2);
    lemma_lookup_passes(values, "saturation"@, 3);
    lemma_lookup_passes(values, "saturation"@, 4);
    lemma_lookup_passes(values, "saturation"@, 5);
    lemma_lookup_passes(values, "saturation"@, 6);
    lemma_lookup_passes(values, "saturation"@, 7);
    lemma_lookup_passes(values, "saturation"@, 8);
    lemma_lookup_passes(values, "saturation"@, 9);
    lemma_lookup_passes(values, "saturation"@, 10);
    lemma_lookup_passes(values, "saturation"@, 11);
    lemma_lookup_passes(values, "saturation"@, 12);
    lemma_lookup_finds(values, "saturation"@, 13);
    lemma_lookup_passes(values, "semantic"@, 0);
    lemma_lookup_passes(values, "semantic"@, 1);
    lemma_lookup_passes(values, "semantic"@, 2);
    lemma_lookup_passes(values, "semantic"@, 3);
    lemma_lookup_passes(values, "semantic"@, 4);
    lemma_lookup_passes(values, "semantic"@, 5);
    lemma_lookup_passes(values, "semantic"@, 6);
    lemma_lookup_passes(values, "semantic"@, 7);
    lemma_lookup_passes(values, "semantic"@, 8);
    lemma_lookup_passes(values, "semantic"@, 9);
    lemma_lookup_passes(values, "semantic"@, 10);
    lemma_lookup_passes(values, "semantic"@, 11);
    lemma_lookup_passes(values, "semantic"@, 12);
    lemma_lookup_passes(values, "semantic"@, 13);
    lemma_lookup_finds(values, "semantic"@, 14);
    assert("sequence"@[2] == 'q' && "semantic"@[2] == 'm');
    lemma_lookup_passes(values, "sequence"@, 0);
    lemma_lookup_passes(values, "sequence"@, 1);
    lemma_lookup_passes(values, "sequence"@, 2);
    lemma_lookup_passes(values, "sequence"@, 3);
    lemma_lookup_passes(values, "sequence"@, 4);
    lemma_lookup_passes(values, "sequence"@, 5);
    lemma_lookup_passes(values, "sequence"@, 6);
    lemma_lookup_passes(values, "sequence"@, 7);
    lemma_lookup_passes(values, "sequence"@, 8);
    lemma_lookup_passes(values, "sequence"@, 9);
    lemma_lookup_passes(values, "sequence"@, 10);
    lemma_lookup_passes(values, "sequence"@, 11);
    lemma_lookup_passes(values, "sequence"@, 12);
    lemma_lookup_passes(values, "sequence"@, 13);
    lemma_lookup_passes(values, "sequence"@, 14);
    lemma_lookup_finds(values, "sequence"@, 15);
    assert("tone"@[0] == 't' && "lens"@[0] == 'l');
    lemma_lookup_passes(values, "tone"@, 0);
    lemma_lookup_passes(values, "tone"@, 1);
    lemma_lookup_passes(values, "tone"@, 2);
    lemma_lookup_passes(values, "tone"@, 3);
    lemma_lookup_passes(values, "tone"@, 4);
    lemma_lookup_passes(values, "tone"@, 5);
    lemma_lookup_passes(values, "tone"@, 6);
    lemma_lookup_passes(values, "tone"@, 7);
    lemma_lookup_passes(values, "tone"@, 8);
    lemma_lookup_passes(values, "tone"@, 9);
    lemma_lookup_passes(values, "tone"@, 10);
    lemma_lookup_passes(values, "tone"@, 11);
    lemma_lookup_passes(values, "tone"@, 12);
    lemma_lookup_passes(values, "tone"@, 13);
    lemma_lookup_passes(values, "tone"@, 14);
    lemma_lookup_passes(values, "tone"@, 15);
    lemma_lookup_passes(values, "tone"@, 16);
    lemma_lookup_finds(values, "tone"@, 17);
}

/// The folders a directory level reads come from the matching attribute
/// of the asset: a primary-semantic level from its primary category, a
/// tone level from its tone, a dominant-colour level from its dominant
/// colour category and a saturation level from its saturation label, each
/// resolved by the fallback only where it is missing; and an
/// original-directory level from the parent of its relative path.
pub proof fn lemma_levels_read_their_attribute(
    asset: PlanAsset,
    fallback: OrganizationMissingFallback,
    ordinal: u32,
    capture: Option<CaptureTime>,
    parent: Option<Seq<char>>,
)
    ensures
        ({
            let values = spec_context_values(asset, fallback, ordinal);
            &&& level_value(OrganizationLevelKind::PrimarySemantic, values, capture, parent) == Some(
                spec_resolve_value(opt_string_view(asset.primary_category), fallback),
            )
            &&& level_value(OrganizationLevelKind::Tone, values, capture, parent) == Some(
                spec_resolve_value(opt_string_view(asset.tone_label), fallback),
            )
            &&& level_value(OrganizationLevelKind::DominantColor, values, capture, parent) == Some(
                spec_resolve_value(opt_string_view(asset.dominant_color_category), fallback),
            )
            &&& level_value(OrganizationLevelKind::Saturation, values, capture, parent) == Some(
                spec_resolve_value(opt_string_view(asset.saturation_label), fallback),
            )
            &&& level_value(OrganizationLevelKind::OriginalDirectory, values, capture, parent)
                == source_directory(parent)
        }),
{
    lemma_naming_variables(asset, fallback, ordinal);
}

} // verus!
