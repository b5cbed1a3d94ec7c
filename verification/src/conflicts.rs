//! Conflicting targets of an organization plan.
//!
//! Two drafts may render the same target, and a target may already exist on
//! disk. The conflict strategy decides what happens to the later draft: it is
//! set aside, numbered with the first free sequence suffix, or given a suffix
//! from its source fingerprint. Targets are compared in their normalized form.
use vstd::prelude::*;

use crate::models::{
    OrganizationConflictStrategy, OrganizationIssue, OrganizationIssueSeverity,
    OrganizationItemStatus, OrganizationPlanItem,
};
use crate::organization::{
    issue, normalize_for_compare, normalized_for_compare, opt_string_view, short_hash,
    target_exists, target_path_of, zero_pad, zero_padded,
};
use crate::text::{chars_of, decimal, string_of, subvec};

verus! {

/// A plan item before conflicts are resolved, with whether its target
/// passed the path checks.
pub struct DraftItem {
    pub item: OrganizationPlanItem,
    pub valid_target: bool,
}

/// The form in which a draft's target is compared with the others.
pub open spec fn target_key(d: DraftItem) -> Seq<char> {
    normalized_for_compare(d.item.target_relative_path@)
}

/// The draft went from `o` to `n` by being set aside as a conflict: one
/// issue more, and no target of its own.
pub open spec fn set_aside(o: DraftItem, n: DraftItem) -> bool {
    &&& n.item.issues@.len() == o.item.issues@.len() + 1
    &&& n.item.status == OrganizationItemStatus::SkippedConflict
}

/// The targets taken by the first `n` drafts, in order: every draft takes
/// its final target unless it was set aside.
pub open spec fn kept_targets(olds: Seq<DraftItem>, news: Seq<DraftItem>, n: int) -> Seq<Seq<char>>
    decreases n,
{
    if n <= 0 {
        Seq::empty()
    } else if set_aside(olds[n - 1], news[n - 1]) {
        kept_targets(olds, news, n - 1)
    } else {
        kept_targets(olds, news, n - 1).push(target_key(news[n - 1]))
    }
}

/// The last position of `c` in `s`.
pub open spec fn last_index(s: Seq<char>, c: char) -> Option<int>
    decreases s.len(),
{
    if s.len() == 0 {
        None
    } else if s.last() == c {
        Some(s.len() - 1)
    } else {
        last_index(s.drop_last(), c)
    }
}

/// The extension of the last segment of a `/`-separated path, with its dot:
/// what follows the segment's last dot, unless that dot opens the segment.
pub open spec fn extension_suffix(path: Seq<char>) -> Seq<char> {
    let start = match last_index(path, '/') {
        Some(k) => k + 1,
        None => 0,
    };
    let name = path.skip(start);
    match last_index(name, '.') {
        Some(k) => if k > 0 {
            name.skip(k)
        } else {
            Seq::empty()
        },
        None => Seq::empty(),
    }
}

/// The path without its extension.
pub open spec fn path_stem(path: Seq<char>) -> Seq<char> {
    path.take(path.len() - extension_suffix(path).len())
}

/// The path numbered `n` with `width` digits, before its extension.
pub open spec fn sequence_candidate(path: Seq<char>, n: nat, width: nat) -> Seq<char> {
    path_stem(path) + seq!['_'] + zero_pad(decimal(n), width) + extension_suffix(path)
}

/// The path marked with the first eight characters of the fingerprint,
/// before its extension.
pub open spec fn hash_candidate(path: Seq<char>, fingerprint: Seq<char>) -> Seq<char> {
    path_stem(path) + seq!['_'] + fingerprint.take(
        if fingerprint.len() < 8 {
            fingerprint.len() as int
        } else {
            8
        },
    ) + extension_suffix(path)
}

pub open spec fn existing_target_detail() -> Seq<char> {
    "目标文件已经存在；当前策略将生成预览解决方案。"@
}

pub open spec fn duplicate_target_detail() -> Seq<char> {
    "多个源文件映射到同一目标路径。"@
}

/// The issue a conflicting draft `o` gets: its target exists on disk, or
/// else an earlier draft took it.
pub open spec fn conflict_issue(
    x: OrganizationIssue,
    o: DraftItem,
    existing: bool,
    strategy: OrganizationConflictStrategy,
) -> bool {
    &&& if existing {
        x.code@ == "existing_target"@ && x.detail@ == existing_target_detail()
    } else {
        x.code@ == "duplicate_target"@ && x.detail@ == duplicate_target_detail()
    }
    &&& x.severity == (if strategy == OrganizationConflictStrategy::Skip {
        OrganizationIssueSeverity::Error
    } else {
        OrganizationIssueSeverity::Warning
    })
    &&& opt_string_view(x.source_path) == Some(o.item.source_path@)
    &&& x.target_path is Some
}

/// Everything of a plan item but its target, status and issues.
pub open spec fn same_source(o: OrganizationPlanItem, n: OrganizationPlanItem) -> bool {
    &&& n.ordinal == o.ordinal
    &&& n.asset_id == o.asset_id
    &&& n.source_path == o.source_path
    &&& n.source_relative_path == o.source_relative_path
    &&& n.source_fingerprint == o.source_fingerprint
    &&& n.target_path == o.target_path
    &&& n.file_size == o.file_size
    &&& n.variables == o.variables
}

/// A draft conflicts when its target passed the path checks and either the
/// disk reported it existing or an earlier draft took it.
pub open spec fn conflicts(o: DraftItem, taken: Seq<Seq<char>>, existing: bool) -> bool {
    o.valid_target && (existing || taken.contains(target_key(o)))
}

/// Sequence number `m` is free for the path: its candidate is not taken,
/// and the disk did not report it existing (answer `m - from`).
pub open spec fn candidate_free(
    path: Seq<char>,
    m: int,
    width: nat,
    taken: Seq<Seq<char>>,
    answers: Seq<bool>,
    from: int,
) -> bool {
    !taken.contains(normalized_for_compare(sequence_candidate(path, m as nat, width))) && !answers[m - from]
}

/// No number from `from` up to `to` (excluded) is free.
pub open spec fn none_free(
    path: Seq<char>,
    from: int,
    to: int,
    width: nat,
    taken: Seq<Seq<char>>,
    answers: Seq<bool>,
) -> bool {
    forall|m: int| from <= m < to ==> !#[trigger] candidate_free(path, m, width, taken, answers, from)
}

/// What is decided for a draft.
#[derive(Debug, Clone, PartialEq, Eq)]
pub enum ConflictDecision {
    /// The draft keeps its target, taken from now on under this normalized
    /// form.
    Keep(String),
    /// The disk must say whether this candidate target exists.
    Ask(String),
    /// The draft is set aside; whether its target existed on disk, and where
    /// the sequence counter of its target goes on.
    SetAside(bool, u64),
    /// The draft moves to a new target: whether its own target existed on
    /// disk, the new target, its normalized form, and where the sequence
    /// counter of the old target goes on.
    Rename(bool, String, String, u64),
}

impl ConflictDecision {
    /// Whether the decision waits for an answer of the disk.
    pub fn is_ask(&self) -> (r: bool)
        ensures
            r == (*self is Ask),
    {
        match self {
            ConflictDecision::Ask(_) => true,
            _ => false,
        }
    }
}

/// `r` is what is decided for draft `o`, given the normalized targets
/// earlier drafts took, the strategy, the counter `from` at which sequence
/// numbers start for its target, whether the disk reported its target
/// existing, and what the disk answered for the candidates numbered
/// `from`, `from + 1`, and so on. A draft that does not conflict keeps its
/// target; a conflicting draft is set aside (skip), marked with its
/// fingerprint (short hash), or numbered with the first number from `from`
/// whose candidate is neither taken nor reported existing (sequence). The
/// disk is asked about the next candidate where the answers run out first,
/// and the draft is set aside where every number is used.
pub open spec fn decided(
    r: ConflictDecision,
    o: DraftItem,
    taken: Seq<Seq<char>>,
    strategy: OrganizationConflictStrategy,
    from: nat,
    width: nat,
    existing: bool,
    answers: Seq<bool>,
) -> bool {
    let path = o.item.target_relative_path@;
    if !conflicts(o, taken, existing) {
        r matches ConflictDecision::Keep(k) && k@ == target_key(o)
    } else {
        match strategy {
            OrganizationConflictStrategy::Skip => r == ConflictDecision::SetAside(existing, from as u64),
            OrganizationConflictStrategy::ShortHash => {
                &&& r matches ConflictDecision::Rename(e, t, k, next)
                &&& e == existing
                &&& t@ == hash_candidate(path, o.item.source_fingerprint@)
                &&& k@ == normalized_for_compare(t@)
                &&& next == from
            },
            OrganizationConflictStrategy::Sequence => match r {
                ConflictDecision::Rename(e, t, k, next) => {
                    &&& e == existing
                    &&& from < next <= from + answers.len()
                    &&& next <= 0x1_0000_0000
                    &&& candidate_free(path, next - 1, width, taken, answers, from as int)
                    &&& none_free(path, from as int, next - 1, width, taken, answers)
                    &&& t@ == sequence_candidate(path, (next - 1) as nat, width)
                    &&& k@ == normalized_for_compare(t@)
                },
                ConflictDecision::Ask(p) => {
                    &&& from + answers.len() < 0x1_0000_0000
                    &&& none_free(path, from as int, (from + answers.len()) as int, width, taken, answers)
                    &&& p@ == sequence_candidate(path, (from + answers.len()) as nat, width)
                },
                ConflictDecision::SetAside(e, next) => {
                    &&& e == existing
                    &&& from + answers.len() >= 0x1_0000_0000
                    &&& next == 0x1_0000_0000
                    &&& none_free(path, from as int, 0x1_0000_0000, width, taken, answers)
                },
                ConflictDecision::Keep(_) => false,
            },
        }
    }
}

/// Draft `o` became `n` by carrying out decision `r`: kept as it was; or
/// with one conflict issue more, set aside on its target or moved to the
/// new one.
pub open spec fn carried_out(
    o: DraftItem,
    n: DraftItem,
    r: ConflictDecision,
    strategy: OrganizationConflictStrategy,
) -> bool {
    match r {
        ConflictDecision::Keep(_) => n == o,
        ConflictDecision::Ask(_) => false,
        ConflictDecision::SetAside(existing, _) => {
            &&& n.valid_target == o.valid_target
            &&& same_source(o.item, n.item)
            &&& n.item.issues@ == o.item.issues@.push(n.item.issues@.last())
            &&& conflict_issue(n.item.issues@.last(), o, existing, strategy)
            &&& n.item.status == OrganizationItemStatus::SkippedConflict
            &&& n.item.target_relative_path == o.item.target_relative_path
        },
        ConflictDecision::Rename(existing, t, _, _) => {
            &&& n.valid_target == o.valid_target
            &&& same_source(o.item, n.item)
            &&& n.item.issues@ == o.item.issues@.push(n.item.issues@.last())
            &&& conflict_issue(n.item.issues@.last(), o, existing, strategy)
            &&& n.item.status == OrganizationItemStatus::Warning
            &&& n.item.target_relative_path@ == t@
        },
    }
}

/// How draft `i` was resolved, given the targets the drafts before it took:
/// some decision for it, from some counter at or past `start`, some answer
/// of the disk about its target and some answers about its candidates, was
/// carried out.
pub open spec fn resolution(
    olds: Seq<DraftItem>,
    news: Seq<DraftItem>,
    i: int,
    strategy: OrganizationConflictStrategy,
    start: u32,
    width: u8,
) -> bool {
    exists|from: nat, existing: bool, answers: Seq<bool>, r: ConflictDecision|
        #![trigger decided(r, olds[i], kept_targets(olds, news, i), strategy, from, width as nat, existing, answers)]
        start <= from && decided(r, olds[i], kept_targets(olds, news, i), strategy, from, width as nat, existing, answers)
            && carried_out(olds[i], news[i], r, strategy)
}

/// Whether draft `o` became `n` through a conflict (it gained an issue).
pub open spec fn conflicted(o: DraftItem, n: DraftItem) -> bool {
    n.item.issues@.len() != o.item.issues@.len()
}

/// The sequence counter of a normalized target before draft `j`: where the
/// last earlier draft with that target that conflicted left it (its entry
/// in `nexts`), else `start`.
pub open spec fn counter_before(
    olds: Seq<DraftItem>,
    news: Seq<DraftItem>,
    nexts: Seq<nat>,
    key: Seq<char>,
    j: int,
    start: u32,
) -> nat
    decreases j,
{
    if j <= 0 {
        start as nat
    } else if target_key(olds[j - 1]) == key && conflicted(olds[j - 1], news[j - 1]) {
        nexts[j - 1]
    } else {
        counter_before(olds, news, nexts, key, j - 1, start)
    }
}

/// Where decision `r` leaves the sequence counter of the draft's target.
pub open spec fn leaves_counter(r: ConflictDecision, next: nat) -> bool {
    match r {
        ConflictDecision::SetAside(_, n) => next == n,
        ConflictDecision::Rename(_, _, _, n) => next == n,
        _ => true,
    }
}

/// Draft `i` was resolved exactly as `decide_conflict` decides from the
/// counter its target had reached (`nexts` records where each conflict
/// left it), some answer of the disk about its target and some answers
/// about its candidates.
pub open spec fn resolved_in_turn(
    olds: Seq<DraftItem>,
    news: Seq<DraftItem>,
    nexts: Seq<nat>,
    i: int,
    strategy: OrganizationConflictStrategy,
    start: u32,
    width: u8,
) -> bool {
    exists|existing: bool, answers: Seq<bool>, r: ConflictDecision|
        #![trigger decided(r, olds[i], kept_targets(olds, news, i), strategy, counter_before(olds, news, nexts, target_key(olds[i]), i, start), width as nat, existing, answers)]
        decided(
            r,
            olds[i],
            kept_targets(olds, news, i),
            strategy,
            counter_before(olds, news, nexts, target_key(olds[i]), i, start),
            width as nat,
            existing,
            answers,
        ) && carried_out(olds[i], news[i], r, strategy) && leaves_counter(r, nexts[i])
}

/// Every draft was resolved in turn (see `resolved_in_turn`), with `nexts`
/// recording where each conflict left its target's sequence counter.
pub open spec fn resolved_in_order(
    olds: Seq<DraftItem>,
    news: Seq<DraftItem>,
    nexts: Seq<nat>,
    strategy: OrganizationConflictStrategy,
    start: u32,
    width: u8,
) -> bool {
    &&& nexts.len() == olds.len()
    &&& forall|i: int|
        0 <= i < olds.len() ==> resolved_in_turn(olds, news, nexts, i, strategy, start, width)
}

proof fn lemma_counter_before_stable(
    olds: Seq<DraftItem>,
    a: Seq<DraftItem>,
    b: Seq<DraftItem>,
    na: Seq<nat>,
    nb: Seq<nat>,
    key: Seq<char>,
    j: int,
    start: u32,
)
    requires
        j <= a.len(),
        j <= b.len(),
        j <= na.len(),
        j <= nb.len(),
        forall|k: int| 0 <= k < j ==> a[k] == b[k],
        forall|k: int| 0 <= k < j ==> na[k] == nb[k],
    ensures
        counter_before(olds, a, na, key, j, start) == counter_before(olds, b, nb, key, j, start),
    decreases j,
{
    if j > 0 {
        lemma_counter_before_stable(olds, a, b, na, nb, key, j - 1, start);
    }
}

proof fn lemma_counter_before_bounds(
    olds: Seq<DraftItem>,
    news: Seq<DraftItem>,
    nexts: Seq<nat>,
    key: Seq<char>,
    j: int,
    start: u32,
)
    requires
        j <= nexts.len(),
        forall|k: int| 0 <= k < j ==> start <= #[trigger] nexts[k] <= 0x1_0000_0000,
    ensures
        start <= counter_before(olds, news, nexts, key, j, start) <= 0x1_0000_0000,
    decreases j,
{
    if j > 0 {
        lemma_counter_before_bounds(olds, news, nexts, key, j - 1, start);
    }
}

proof fn lemma_kept_targets_stable(olds: Seq<DraftItem>, a: Seq<DraftItem>, b: Seq<DraftItem>, n: int)
    requires
        0 <= n <= a.len(),
        n <= b.len(),
        forall|j: int| 0 <= j < n ==> a[j] == b[j],
    ensures
        kept_targets(olds, a, n) == kept_targets(olds, b, n),
    decreases n,
{
    if n > 0 {
        lemma_kept_targets_stable(olds, a, b, n - 1);
    }
}

proof fn lemma_kept_targets_contain(olds: Seq<DraftItem>, news: Seq<DraftItem>, i: int, n: int)
    requires
        0 <= i < n,
        !set_aside(olds[i], news[i]),
    ensures
        kept_targets(olds, news, n).contains(target_key(news[i])),
    decreases n,
{
    if i < n - 1 {
        lemma_kept_targets_contain(olds, news, i, n - 1);
        let prev = kept_targets(olds, news, n - 1);
        let k = choose|k: int| 0 <= k < prev.len() && prev[k] == target_key(news[i]);
        if !set_aside(olds[n - 1], news[n - 1]) {
            assert(prev.push(target_key(news[n - 1]))[k] == target_key(news[i]));
        }
    } else {
        let prev = kept_targets(olds, news, n - 1);
        assert(prev.push(target_key(news[i]))[prev.len() as int] == target_key(news[i]));
    }
}

/// With the skip or the sequence strategy, two drafts that both keep a
/// target never share it (once normalized), unless the later target failed
/// the path checks.
pub proof fn lemma_kept_targets_are_distinct(
    olds: Seq<DraftItem>,
    news: Seq<DraftItem>,
    strategy: OrganizationConflictStrategy,
    start: u32,
    width: u8,
)
    requires
        olds.len() == news.len(),
        strategy != OrganizationConflictStrategy::ShortHash,
        forall|i: int| 0 <= i < olds.len() ==> resolution(olds, news, i, strategy, start, width),
    ensures
        forall|i: int, j: int|
            0 <= i < j < news.len() && news[j].valid_target && !set_aside(olds[i], news[i])
                && !set_aside(olds[j], news[j]) ==> target_key(news[i]) != target_key(news[j]),
{
    assert forall|i: int, j: int|
        0 <= i < j < news.len() && news[j].valid_target && !set_aside(olds[i], news[i])
            && !set_aside(olds[j], news[j]) implies target_key(news[i]) != target_key(news[j]) by {
        lemma_kept_targets_contain(olds, news, i, j);
        assert(resolution(olds, news, j, strategy, start, width));
        let taken = kept_targets(olds, news, j);
        let (from, existing, answers, r) = choose|
            from: nat,
            existing: bool,
            answers: Seq<bool>,
            r: ConflictDecision,
        |
            start <= from && #[trigger] decided(r, olds[j], taken, strategy, from, width as nat, existing, answers)
                && carried_out(olds[j], news[j], r, strategy);
        assert(!taken.contains(target_key(news[j])));
    }
}

/// The last position of `c` in `cs`.
pub(crate) fn last_index_of(cs: &Vec<char>, c: char) -> (r: Option<usize>)
    ensures
        r matches Some(k) ==> last_index(cs@, c) == Some(k as int),
        r is None ==> last_index(cs@, c) is None,
{
    let mut i: usize = cs.len();
    assert(cs@.take(cs@.len() as int) =~= cs@);
    while i > 0
        invariant
            i <= cs@.len(),
            last_index(cs@, c) == last_index(cs@.take(i as int), c),
        decreases i,
    {
        assert(cs@.take(i as int).drop_last() =~= cs@.take(i - 1));
        if cs[i - 1] == c {
            return Some(i - 1);
        }
        i -= 1;
    }
    None
}

pub(crate) proof fn lemma_last_index_range(s: Seq<char>, c: char)
    ensures
        last_index(s, c) matches Some(k) ==> 0 <= k < s.len(),
    decreases s.len(),
{
    if s.len() > 0 && s.last() != c {
        lemma_last_index_range(s.drop_last(), c);
    }
}

/// Where the extension of a `/`-separated path begins (its length when it
/// has none).
fn extension_start(cs: &Vec<char>) -> (r: usize)
    ensures
        r <= cs@.len(),
        cs@.skip(r as int) == extension_suffix(cs@),
        cs@.take(r as int) == path_stem(cs@),
{
    proof {
        lemma_last_index_range(cs@, '/');
    }
    let start = match last_index_of(cs, '/') {
        Some(k) => {
            assert(k < cs.len());
            k + 1
        },
        None => 0,
    };
    let name = subvec(cs, start, cs.len());
    assert(name@ =~= cs@.skip(start as int));
    proof {
        lemma_last_index_range(name@, '.');
    }
    let r = match last_index_of(&name, '.') {
        Some(k) => if k > 0 {
            start + k
        } else {
            cs.len()
        },
        None => cs.len(),
    };
    proof {
        if r == cs.len() {
            assert(cs@.skip(r as int) =~= Seq::<char>::empty());
        } else {
            assert(cs@.skip(r as int) =~= name@.skip(r - start));
        }
    }
    r
}

/// Whether `key` is among the taken targets.
fn is_taken(assigned: &Vec<String>, key: &String) -> (r: bool)
    ensures
        r == assigned@.map_values(|s: String| s@).contains(key@),
{
    let ghost views = assigned@.map_values(|s: String| s@);
    let mut i: usize = 0;
    while i < assigned.len()
        invariant
            i <= assigned@.len(),
            views == assigned@.map_values(|s: String| s@),
            forall|m: int| 0 <= m < i ==> views[m] != key@,
        decreases assigned@.len() - i,
    {
        if assigned[i] == *key {
            assert(views[i as int] == key@);
            return true;
        }
        i += 1;
    }
    false
}

/// The slot of `key` among the sequence counters.
fn counter_slot(counters: &Vec<(String, u64)>, key: &String) -> (r: Option<usize>)
    ensures
        r matches Some(m) ==> m < counters@.len() && counters@[m as int].0@ == key@ && forall|j: int|
            0 <= j < m ==> (#[trigger] counters@[j]).0@ != key@,
        r is None ==> forall|j: int| 0 <= j < counters@.len() ==> (#[trigger] counters@[j]).0@ != key@,
{
    let mut i: usize = 0;
    while i < counters.len()
        invariant
            i <= counters@.len(),
            forall|j: int| 0 <= j < i ==> (#[trigger] counters@[j]).0@ != key@,
        decreases counters@.len() - i,
    {
        if counters[i].0 == *key {
            return Some(i);
        }
        i += 1;
    }
    None
}

/// `stem`, an underscore, `mark` and the extension, as a path.
fn marked_path(cs: &Vec<char>, ext: usize, mark: &Vec<char>) -> (r: String)
    requires
        ext <= cs@.len(),
    ensures
        r@ == cs@.take(ext as int) + seq!['_'] + mark@ + cs@.skip(ext as int),
{
    let mut out = subvec(cs, 0, ext);
    assert(out@ =~= cs@.take(ext as int));
    out.push('_');
    let mut k: usize = 0;
    let ghost head = out@;
    while k < mark.len()
        invariant
            k <= mark@.len(),
            out@ == head + mark@.take(k as int),
        decreases mark@.len() - k,
    {
        out.push(mark[k]);
        k += 1;
        assert(out@ =~= head + mark@.take(k as int));
    }
    let ghost mid = out@;
    let mut k: usize = ext;
    while k < cs.len()
        invariant
            ext <= k <= cs@.len(),
            out@ == mid + cs@.subrange(ext as int, k as int),
        decreases cs@.len() - k,
    {
        out.push(cs[k]);
        k += 1;
        assert(out@ =~= mid + cs@.subrange(ext as int, k as int));
    }
    assert(mark@.take(mark@.len() as int) =~= mark@);
    assert(cs@.subrange(ext as int, cs@.len() as int) =~= cs@.skip(ext as int));
    string_of(&out)
}

/// Decides what becomes of a draft (see `decided`), given the targets
/// earlier drafts took (normalized), the strategy, the counter `from` at
/// which sequence numbers start for its target, whether the disk reported
/// its target existing, and what the disk answered for the candidates
/// numbered from `from` on.
pub fn decide_conflict(
    d: &DraftItem,
    assigned: &Vec<String>,
    strategy: &OrganizationConflictStrategy,
    from: u64,
    width: u8,
    existing: bool,
    answers: &Vec<bool>,
) -> (r: ConflictDecision)
    requires
        from <= 0x1_0000_0000,
    ensures
        decided(
            r,
            *d,
            assigned@.map_values(|s: String| s@),
            *strategy,
            from as nat,
            width as nat,
            existing,
            answers@,
        ),
{
    let ghost taken_views = assigned@.map_values(|s: String| s@);
    let original = d.item.target_relative_path.clone();
    let normalized = normalize_for_compare(original.as_str());
    if !d.valid_target {
        return ConflictDecision::Keep(normalized);
    }
    let taken = is_taken(assigned, &normalized);
    if !existing && !taken {
        return ConflictDecision::Keep(normalized);
    }
    match strategy {
        OrganizationConflictStrategy::Skip => ConflictDecision::SetAside(existing, from),
        OrganizationConflictStrategy::ShortHash => {
            let cs = chars_of(original.as_str());
            let ext = extension_start(&cs);
            let mark = chars_of(short_hash(d.item.source_fingerprint.as_str()).as_str());
            let candidate = marked_path(&cs, ext, &mark);
            let key = normalize_for_compare(candidate.as_str());
            ConflictDecision::Rename(existing, candidate, key, from)
        },
        OrganizationConflictStrategy::Sequence => {
            let cs = chars_of(original.as_str());
            let ext = extension_start(&cs);
            let ghost path = original@;
            let mut j: usize = 0;
            while j < answers.len() && from + (j as u64) <= 0xFFFF_FFFFu64
                invariant
                    from <= 0x1_0000_0000,
                    j <= answers@.len(),
                    from + j <= 0x1_0000_0000,
                    cs@ == path,
                    path == d.item.target_relative_path@,
                    ext <= cs@.len(),
                    cs@.skip(ext as int) == extension_suffix(cs@),
                    cs@.take(ext as int) == path_stem(cs@),
                    taken_views == assigned@.map_values(|s: String| s@),
                    none_free(path, from as int, from + j, width as nat, taken_views, answers@),
                    conflicts(*d, taken_views, existing),
                    *strategy == OrganizationConflictStrategy::Sequence,
                decreases answers@.len() - j,
            {
                let number = (from + (j as u64)) as u32;
                assert(number as int == from + j);
                let digits = zero_padded(number, width as usize);
                let candidate = marked_path(&cs, ext, &digits);
                let key = normalize_for_compare(candidate.as_str());
                assert(candidate@ == sequence_candidate(path, number as nat, width as nat));
                if !is_taken(assigned, &key) && !answers[j] {
                    assert(candidate_free(path, number as int, width as nat, taken_views, answers@, from as int));
                    let next = from + (j as u64) + 1;
                    assert(next - 1 == number as int);
                    assert(none_free(path, from as int, next - 1, width as nat, taken_views, answers@));
                    return ConflictDecision::Rename(existing, candidate, key, next);
                }
                assert(!candidate_free(path, number as int, width as nat, taken_views, answers@, from as int));
                j += 1;
            }
            if j == answers.len() && from + (j as u64) <= 0xFFFF_FFFFu64 {
                let number = (from + (j as u64)) as u32;
                let digits = zero_padded(number, width as usize);
                let candidate = marked_path(&cs, ext, &digits);
                ConflictDecision::Ask(candidate)
            } else {
                ConflictDecision::SetAside(existing, 0x1_0000_0000u64)
            }
        },
    }
}

/// Resolves conflicting targets in order. A valid draft conflicts when its
/// target exists on disk under `target_root` or an earlier draft took it
/// (after normalization); it then gets an `existing_target` or
/// `duplicate_target` issue and is resolved by `strategy` as
/// `decide_conflict` decides. The sequence strategy numbers from
/// `sequence_start` with `sequence_width` digits, continuing where an
/// earlier conflict on the same target stopped, asks the disk about each
/// candidate in turn, and takes the first number whose path is neither
/// taken nor on disk.
pub fn apply_conflicts(
    drafts: &mut Vec<DraftItem>,
    target_root: &str,
    strategy: &OrganizationConflictStrategy,
    sequence_start: u32,
    sequence_width: u8,
)
    ensures
        final(drafts)@.len() == old(drafts)@.len(),
        exists|nexts: Seq<nat>|
            #[trigger] resolved_in_order(
                old(drafts)@,
                final(drafts)@,
                nexts,
                *strategy,
                sequence_start,
                sequence_width,
            ),
        forall|i: int|
            0 <= i < old(drafts)@.len() ==> resolution(
                old(drafts)@,
                final(drafts)@,
                i,
                *strategy,
                sequence_start,
                sequence_width,
            ),
        *strategy != OrganizationConflictStrategy::ShortHash ==> forall|i: int, j: int|
            0 <= i < j < final(drafts)@.len() && final(drafts)@[j].valid_target && !set_aside(
                old(drafts)@[i],
                final(drafts)@[i],
            ) && !set_aside(old(drafts)@[j], final(drafts)@[j]) ==> target_key(final(drafts)@[i])
                != target_key(final(drafts)@[j]),
{
    let ghost olds = drafts@;
    let mut assigned: Vec<String> = Vec::new();
    let mut counters: Vec<(String, u64)> = Vec::new();
    let ghost mut nexts: Seq<nat> = Seq::empty();
    let mut i: usize = 0;
    assert(assigned@.map_values(|s: String| s@) =~= kept_targets(olds, drafts@, 0));
    while i < drafts.len()
        invariant
            olds.len() == drafts@.len(),
            i <= drafts@.len(),
            nexts.len() == i,
            forall|k: int| i <= k < drafts@.len() ==> drafts@[k] == olds[k],
            forall|k: int|
                0 <= k < i ==> resolution(olds, drafts@, k, *strategy, sequence_start, sequence_width),
            forall|k: int|
                0 <= k < i ==> resolved_in_turn(
                    olds,
                    drafts@,
                    nexts,
                    k,
                    *strategy,
                    sequence_start,
                    sequence_width,
                ),
            forall|k: int| 0 <= k < i ==> sequence_start <= #[trigger] nexts[k] <= 0x1_0000_0000,
            assigned@.map_values(|s: String| s@) == kept_targets(olds, drafts@, i as int),
            forall|m: int|
                0 <= m < counters@.len() ==> (#[trigger] counters@[m]).1 == counter_before(
                    olds,
                    drafts@,
                    nexts,
                    counters@[m].0@,
                    i as int,
                    sequence_start,
                ),
            forall|m1: int, m2: int|
                0 <= m1 < m2 < counters@.len() ==> (#[trigger] counters@[m1]).0@ != (
                #[trigger] counters@[m2]).0@,
            forall|key: Seq<char>|
                (forall|m: int| 0 <= m < counters@.len() ==> (#[trigger] counters@[m]).0@ != key)
                    ==> #[trigger] counter_before(olds, drafts@, nexts, key, i as int, sequence_start)
                    == sequence_start,
        decreases drafts@.len() - i,
    {
        let ghost before = drafts@;
        let ghost nexts_before = nexts;
        let ghost taken_views = assigned@.map_values(|s: String| s@);
        let original = drafts[i].item.target_relative_path.clone();
        let normalized = normalize_for_compare(original.as_str());
        let ghost key = normalized@;
        assert(key == target_key(olds[i as int]));
        let existing = if drafts[i].valid_target {
            target_exists(target_root, original.as_str())
        } else {
            false
        };
        let slot = counter_slot(&counters, &normalized);
        let from: u64 = match slot {
            Some(m) => counters[m].1,
            None => sequence_start as u64,
        };
        proof {
            lemma_counter_before_bounds(olds, before, nexts, key, i as int, sequence_start);
        }
        assert(from == counter_before(olds, before, nexts, key, i as int, sequence_start));
        let mut answers: Vec<bool> = Vec::new();
        let mut decision = decide_conflict(
            &drafts[i],
            &assigned,
            strategy,
            from,
            sequence_width,
            existing,
            &answers,
        );
        while decision.is_ask()
            invariant
                drafts@ == before,
                i < drafts@.len(),
                sequence_start <= from <= 0x1_0000_0000,
                taken_views == assigned@.map_values(|s: String| s@),
                decided(
                    decision,
                    drafts@[i as int],
                    taken_views,
                    *strategy,
                    from as nat,
                    sequence_width as nat,
                    existing,
                    answers@,
                ),
            decreases 0x1_0000_0000 - from - answers@.len(),
        {
            let candidate = match &decision {
                ConflictDecision::Ask(p) => p.clone(),
                _ => String::new(),
            };
            let answer = target_exists(target_root, candidate.as_str());
            answers.push(answer);
            decision = decide_conflict(
                &drafts[i],
                &assigned,
                strategy,
                from,
                sequence_width,
                existing,
                &answers,
            );
        }
        let ghost chosen = decision;
        let ghost answers_given = answers@;
        assert(drafts@[i as int] == olds[i as int]);
        let mut left: u64 = from;
        let mut kept = false;
        match decision {
            ConflictDecision::Keep(key) => {
                kept = true;
                assigned.push(key);
                proof {
                    assert(assigned@.map_values(|s: String| s@) =~= taken_views.push(target_key(olds[i as int])));
                }
            },
            ConflictDecision::Ask(_) => {},
            ConflictDecision::SetAside(existing_target, next) => {
                let conflict = conflict_issue_for(&drafts[i], target_root, existing_target, strategy);
                drafts[i].item.issues.push(conflict);
                drafts[i].item.status = OrganizationItemStatus::SkippedConflict;
                left = next;
            },
            ConflictDecision::Rename(existing_target, target, key, next) => {
                let conflict = conflict_issue_for(&drafts[i], target_root, existing_target, strategy);
                drafts[i].item.issues.push(conflict);
                drafts[i].item.status = OrganizationItemStatus::Warning;
                drafts[i].item.target_relative_path = target;
                assigned.push(key);
                left = next;
            },
        }
        let ghost counters_before = counters@;
        if !kept {
            match slot {
                Some(m) => {
                    counters[m].1 = left;
                },
                None => {
                    counters.push((normalized, left));
                },
            }
        }
        proof {
            nexts = nexts_before.push(left as nat);
            assert(carried_out(olds[i as int], drafts@[i as int], chosen, *strategy));
            assert(leaves_counter(chosen, nexts[i as int]));
            assert(conflicted(olds[i as int], drafts@[i as int]) <==> !(chosen is Keep));
            lemma_kept_targets_stable(olds, before, drafts@, i as int);
            lemma_counter_before_stable(olds, before, drafts@, nexts_before, nexts, key, i as int, sequence_start);
            assert(decided(
                chosen,
                olds[i as int],
                kept_targets(olds, drafts@, i as int),
                *strategy,
                counter_before(olds, drafts@, nexts, target_key(olds[i as int]), i as int, sequence_start),
                sequence_width as nat,
                existing,
                answers_given,
            ));
            assert(resolved_in_turn(olds, drafts@, nexts, i as int, *strategy, sequence_start, sequence_width));
            assert forall|k: int| 0 <= k < i + 1 implies resolved_in_turn(
                olds,
                drafts@,
                nexts,
                k,
                *strategy,
                sequence_start,
                sequence_width,
            ) by {
                if k < i {
                    lemma_kept_targets_stable(olds, before, drafts@, k);
                    lemma_counter_before_stable(
                        olds,
                        before,
                        drafts@,
                        nexts_before,
                        nexts,
                        target_key(olds[k]),
                        k,
                        sequence_start,
                    );
                    assert(resolved_in_turn(olds, before, nexts_before, k, *strategy, sequence_start, sequence_width));
                    assert(before[k] == drafts@[k]);
                    assert(nexts_before[k] == nexts[k]);
                }
            }
            assert forall|k: int| 0 <= k < i implies resolution(
                olds,
                drafts@,
                k,
                *strategy,
                sequence_start,
                sequence_width,
            ) by {
                lemma_kept_targets_stable(olds, before, drafts@, k);
                assert(resolution(olds, before, k, *strategy, sequence_start, sequence_width));
                assert(before[k] == drafts@[k]);
            }
            assert(resolution(olds, drafts@, i as int, *strategy, sequence_start, sequence_width));
            assert forall|k2: Seq<char>|
                #[trigger] counter_before(olds, drafts@, nexts, k2, i + 1, sequence_start)
                    == (if k2 == key && conflicted(olds[i as int], drafts@[i as int]) {
                    left as nat
                } else {
                    counter_before(olds, before, nexts_before, k2, i as int, sequence_start)
                }) by {
                lemma_counter_before_stable(olds, before, drafts@, nexts_before, nexts, k2, i as int, sequence_start);
            }
            assert forall|m: int|
                0 <= m < counters@.len() implies (#[trigger] counters@[m]).1 == counter_before(
                olds,
                drafts@,
                nexts,
                counters@[m].0@,
                i + 1,
                sequence_start,
            ) by {
                if m < counters_before.len() {
                    assert(counters_before[m].1 == counter_before(olds, before, nexts_before, counters_before[m].0@, i as int, sequence_start));
                }
            }
            assert forall|m1: int, m2: int|
                0 <= m1 < m2 < counters@.len() implies (#[trigger] counters@[m1]).0@ != (
                #[trigger] counters@[m2]).0@ by {
                if m2 < counters_before.len() {
                    assert(counters_before[m1].0@ != counters_before[m2].0@);
                }
            }
            assert forall|k2: Seq<char>|
                (forall|m: int| 0 <= m < counters@.len() ==> (#[trigger] counters@[m]).0@ != k2)
                    implies #[trigger] counter_before(olds, drafts@, nexts, k2, i + 1, sequence_start)
                    == sequence_start by {
                assert forall|m: int| 0 <= m < counters_before.len() implies (#[trigger] counters_before[m]).0@ != k2 by {
                    assert(counters@[m].0@ == counters_before[m].0@);
                }
                if k2 == key && conflicted(olds[i as int], drafts@[i as int]) {
                    assert(counters@[counters@.len() - 1].0@ == key || slot is Some);
                }
            }
            assert(assigned@.map_values(|s: String| s@) =~= kept_targets(olds, drafts@, i + 1));
        }
        i += 1;
    }
    proof {
        if *strategy != OrganizationConflictStrategy::ShortHash {
            lemma_kept_targets_are_distinct(olds, drafts@, *strategy, sequence_start, sequence_width);
        }
        assert(resolved_in_order(olds, drafts@, nexts, *strategy, sequence_start, sequence_width));
    }
}

/// The conflict issue of a draft: `existing_target` where its target was
/// reported on disk, else `duplicate_target`; an error under the skip
/// strategy and a warning otherwise.
fn conflict_issue_for(
    d: &DraftItem,
    target_root: &str,
    existing: bool,
    strategy: &OrganizationConflictStrategy,
) -> (r: OrganizationIssue)
    ensures
        conflict_issue(r, *d, existing, *strategy),
{
    issue(
        if existing {
            "existing_target"
        } else {
            "duplicate_target"
        },
        if *strategy == OrganizationConflictStrategy::Skip {
            OrganizationIssueSeverity::Error
        } else {
            OrganizationIssueSeverity::Warning
        },
        Some(d.item.source_path.clone()),
        Some(target_path_of(target_root, d.item.target_relative_path.as_str())),
        if existing {
            "目标文件已经存在；当前策略将生成预览解决方案。"
        } else {
            "多个源文件映射到同一目标路径。"
        },
    )
}

} // verus!
