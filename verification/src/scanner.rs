//! Bookkeeping of library scans: which files are images, the snapshots of
//! files, their fingerprints, the order in which found source roots are
//! imported, and how the counters of nested scope scans add up.
use vstd::prelude::*;

use crate::conflicts::last_index;
use crate::imaging::ANALYSIS_VERSION;
use crate::models::{ExistingAssetSnapshot, FileSnapshot, ScanPerformance, ScanProgress, ScanSummary};
use crate::classification::{
    lemma_lex_antisymmetric, lemma_lex_reflexive, lemma_lex_total, lemma_lex_transitive, lex_le, lex_le_chars,
};
use crate::plan::ascii_lowercase;
use crate::render::{blake3_hex, hash_hex};
use crate::text::{chars_of, concat, i64_to_string, push_char, signed_decimal, str_eq, string_of, string_views};

verus! {

// ---------------------------------------------------------------------------
// Supported files
// ---------------------------------------------------------------------------

/// A path that reads alike on every platform when split at `/`: no `\`
/// and no `:` (no other separator, no drive or verbatim prefix), and not
/// opening with two `/` (no network prefix).
pub open spec fn slash_separated(p: Seq<char>) -> bool {
    &&& !p.contains('\\')
    &&& !p.contains(':')
    &&& !(p.len() >= 2 && p[0] == '/' && p[1] == '/')
}

/// The file name of a `/`-separated path, as `Path::file_name` gives it:
/// its last component, with empty components (repeated or trailing `/`) and
/// `.` components skipped; none where no component is left or the last is
/// `..`.
pub open spec fn slash_file_name(p: Seq<char>) -> Option<Seq<char>>
    decreases p.len(),
{
    match last_index(p, '/') {
        Some(k) => {
            let comp = p.skip(k + 1);
            if comp.len() == 0 || comp == "."@ {
                if 0 <= k < p.len() {
                    slash_file_name(p.take(k))
                } else {
                    None
                }
            } else if comp == ".."@ {
                None
            } else {
                Some(comp)
            }
        },
        None => if p.len() == 0 || p == "."@ || p == ".."@ {
            None
        } else {
            Some(p)
        },
    }
}

/// The extension of a file name: what follows its last dot, unless that
/// dot opens the name; none where the name has no dot.
pub open spec fn name_extension(name: Seq<char>) -> Option<Seq<char>> {
    match last_index(name, '.') {
        Some(k) => if k > 0 {
            Some(name.skip(k + 1))
        } else {
            None
        },
        None => None,
    }
}

/// The extension of a `/`-separated path: that of its file name.
pub open spec fn slash_extension(p: Seq<char>) -> Option<Seq<char>> {
    match slash_file_name(p) {
        Some(name) => name_extension(name),
        None => None,
    }
}

pub open spec fn opt_view(o: Option<String>) -> Option<Seq<char>> {
    match o {
        Some(s) => Some(s@),
        None => None,
    }
}

/// Calls `Path::extension` and converts it to a string. As its
/// documentation says, the extension is what follows the last dot of the
/// file name, and there is none where there is no file name, the name has
/// no dot, or only the dot that opens it; and the file name is the final
/// component, where repeated and trailing separators and `.` components are
/// normalized away. So a path without a dot has none, an extension holds no
/// dot and no `/`, and a `/`-separated path has the extension of its last
/// component. How other paths split into components depends on the
/// platform and is not stated.
#[verifier::external_body]
pub(crate) fn path_extension(path: &str) -> (r: Option<String>)
    ensures
        slash_separated(path@) ==> opt_view(r) == slash_extension(path@),
        !path@.contains('.') ==> r is None,
        r matches Some(e) ==> !e@.contains('.') && !e@.contains('/'),
{
    match std::path::Path::new(path).extension() {
        Some(ext) => Some(ext.to_string_lossy().into_owned()),
        None => None,
    }
}

/// An image extension the library reads: JPEG, PNG or WebP, in any ASCII
/// case.
pub open spec fn supported_extension(ext: Seq<char>) -> bool {
    let lower = ascii_lowercase(ext);
    lower == "jpg"@ || lower == "jpeg"@ || lower == "png"@ || lower == "webp"@
}

pub fn is_supported_extension(ext: &str) -> (r: bool)
    ensures
        r == supported_extension(ext@),
{
    let lower = string_of(&crate::manifest::lower_ascii_text(ext));
    str_eq(lower.as_str(), "jpg") || str_eq(lower.as_str(), "jpeg") || str_eq(lower.as_str(), "png")
        || str_eq(lower.as_str(), "webp")
}

/// Whether an extension, as `Path::extension` gives it, names an image the
/// library reads: one that is present and supported.
pub fn is_supported_extension_of(ext: &Option<String>) -> (r: bool)
    ensures
        r == (opt_view(*ext) matches Some(e) && supported_extension(e)),
{
    match ext {
        Some(e) => is_supported_extension(e.as_str()),
        None => false,
    }
}

/// Whether a path names an image the library reads, by the extension
/// `Path::extension` gives it. For a `/`-separated path that is the
/// extension of its last component; a path without a dot is never an image.
pub fn is_supported_image(path: &str) -> (r: bool)
    ensures
        slash_separated(path@) ==> r == (slash_extension(path@) matches Some(e)
            && supported_extension(e)),
        !path@.contains('.') ==> !r,
{
    let ext = path_extension(path);
    is_supported_extension_of(&ext)
}

// ---------------------------------------------------------------------------
// Snapshots of files
// ---------------------------------------------------------------------------

/// Calls `Path::strip_prefix` and converts the rest to a string. A path
/// stripped of itself leaves nothing, as its components all match; how
/// other paths split into components depends on the platform and is not
/// stated.
#[verifier::external_body]
fn strip_root(root: &str, path: &str) -> (r: Option<String>)
    ensures
        path@ == root@ ==> opt_view(r) == Some(Seq::<char>::empty()),
{
    match std::path::Path::new(path).strip_prefix(root) {
        Ok(rest) => Some(rest.to_string_lossy().into_owned()),
        Err(_) => None,
    }
}

/// `s`, or nothing where it is absent.
pub open spec fn or_empty(o: Option<String>) -> Seq<char> {
    match o {
        Some(s) => s@,
        None => Seq::empty(),
    }
}

/// The snapshot of a file from what the platform says of its path: the
/// rest of the path below the root (the whole path where it is not below
/// the root), its file name and its extension in ASCII lowercase (empty
/// where absent), with the size and modification time given.
pub fn snapshot_from_parts(
    path: &str,
    rest: Option<String>,
    name: Option<String>,
    ext: Option<String>,
    file_size: i64,
    modified_at: i64,
) -> (r: FileSnapshot)
    ensures
        r.absolute_path@ == path@,
        r.relative_path@ == (match rest {
            Some(x) => x@,
            None => path@,
        }),
        r.file_name@ == or_empty(name),
        r.extension@ == ascii_lowercase(or_empty(ext)),
        r.file_size == file_size,
        r.modified_at == modified_at,
{
    let relative_path = match rest {
        Some(x) => x,
        None => path.to_owned(),
    };
    let file_name = match name {
        Some(n) => n,
        None => String::new(),
    };
    let extension = match ext {
        Some(e) => string_of(&crate::manifest::lower_ascii_text(e.as_str())),
        None => {
            assert(ascii_lowercase(Seq::<char>::empty()) =~= Seq::<char>::empty());
            String::new()
        },
    };
    FileSnapshot {
        absolute_path: path.to_owned(),
        relative_path,
        file_name,
        extension,
        file_size,
        modified_at,
    }
}

/// The snapshot of a file whose metadata could not be read: its paths,
/// name and lowercase extension as the platform splits the path, with no
/// size and no modification time. For a `/`-separated path, the name is its
/// last component and the extension that of the name.
pub fn fallback_snapshot(root: &str, path: &str) -> (r: FileSnapshot)
    ensures
        r.absolute_path@ == path@,
        r.file_size == 0,
        r.modified_at == 0,
        r.extension@ == ascii_lowercase(r.extension@),
        path@ == root@ ==> r.relative_path@.len() == 0,
        slash_separated(path@) ==> r.file_name@ == opt_seq_or_empty(slash_file_name(path@))
            && r.extension@ == ascii_lowercase(opt_seq_or_empty(slash_extension(path@))),
{
    let rest = strip_root(root, path);
    let name = crate::plan::path_file_name(path);
    let ext = path_extension(path);
    proof {
        lemma_ascii_lowercase_idempotent(or_empty(ext));
    }
    snapshot_from_parts(path, rest, name, ext, 0, 0)
}

/// `s`, or nothing where it is absent.
pub open spec fn opt_seq_or_empty(o: Option<Seq<char>>) -> Seq<char> {
    match o {
        Some(s) => s,
        None => Seq::empty(),
    }
}

proof fn lemma_ascii_lowercase_idempotent(t: Seq<char>)
    ensures
        ascii_lowercase(ascii_lowercase(t)) == ascii_lowercase(t),
{
    assert(ascii_lowercase(ascii_lowercase(t)) =~= ascii_lowercase(t));
}

/// A length saturated at the largest `i64`.
pub open spec fn saturated_len(len: u64) -> int {
    if len > i64::MAX as u64 { i64::MAX as int } else { len as int }
}

/// A time in milliseconds saturated at the largest `i64`; zero where unknown.
pub open spec fn saturated_millis(m: Option<u128>) -> int {
    match m {
        Some(m) => if m > i64::MAX as u128 { i64::MAX as int } else { m as int },
        None => 0,
    }
}

/// The snapshot of a file from its metadata: its paths, name and lowercase
/// extension as `fallback_snapshot` gives them, its size and its
/// modification time in milliseconds since the UNIX epoch (zero where
/// unknown), both saturated at the largest `i64`.
pub fn file_snapshot(root: &str, path: &str, len: u64, modified_millis: Option<u128>) -> (r: FileSnapshot)
    ensures
        r.absolute_path@ == path@,
        r.extension@ == ascii_lowercase(r.extension@),
        path@ == root@ ==> r.relative_path@.len() == 0,
        slash_separated(path@) ==> r.file_name@ == opt_seq_or_empty(slash_file_name(path@))
            && r.extension@ == ascii_lowercase(opt_seq_or_empty(slash_extension(path@))),
        r.file_size == saturated_len(len),
        r.modified_at == saturated_millis(modified_millis),
{
    let rest = strip_root(root, path);
    let name = crate::plan::path_file_name(path);
    let ext = path_extension(path);
    proof {
        lemma_ascii_lowercase_idempotent(or_empty(ext));
    }
    let file_size = if len > 0x7FFF_FFFF_FFFF_FFFFu64 {
        0x7FFF_FFFF_FFFF_FFFFi64
    } else {
        len as i64
    };
    let modified_at = match modified_millis {
        Some(m) => if m > 0x7FFF_FFFF_FFFF_FFFFu128 {
            0x7FFF_FFFF_FFFF_FFFFi64
        } else {
            m as i64
        },
        None => 0,
    };
    snapshot_from_parts(path, rest, name, ext, file_size, modified_at)
}

// ---------------------------------------------------------------------------
// Fingerprints of sources
// ---------------------------------------------------------------------------

/// The lowercase hexadecimal BLAKE3 digest of a byte string.
pub uninterp spec fn blake3_hex_bytes(data: Seq<u8>) -> Seq<char>;

/// Calls `blake3::hash` on the bytes and `to_hex` on the digest; the result
/// is named by `blake3_hex_bytes`. `to_hex` writes the 32 digest bytes as 64
/// hexadecimal digits.
#[verifier::external_body]
fn hash_bytes_hex(data: &[u8]) -> (r: String)
    ensures
        r@ == blake3_hex_bytes(data@),
        r@.len() == 64,
{
    blake3::hash(data).to_hex().to_string()
}

#[verifier::external_type_specification]
#[verifier::external_body]
pub struct ExHasher(blake3::Hasher);

/// The bytes a BLAKE3 hasher has been fed, in order.
pub uninterp spec fn hasher_input(h: blake3::Hasher) -> Seq<u8>;

/// Calls `blake3::Hasher::new`: a hasher fed nothing yet.
#[verifier::external_body]
fn new_hasher() -> (h: blake3::Hasher)
    ensures
        hasher_input(h) == Seq::<u8>::empty(),
{
    blake3::Hasher::new()
}

/// Calls `blake3::Hasher::update`, which feeds the block after everything
/// fed before.
#[verifier::external_body]
fn hasher_update(h: &mut blake3::Hasher, block: &[u8])
    ensures
        hasher_input(*final(h)) == hasher_input(*old(h)) + block@,
{
    h.update(block);
}

/// Calls `blake3::Hasher::finalize` and `to_hex` on the digest. As the
/// documentation of `Hasher` shows, the digest of what was fed in pieces is
/// the digest `blake3::hash` gives of it all, written as 64 hexadecimal
/// digits.
#[verifier::external_body]
fn hasher_hex(h: &blake3::Hasher) -> (r: String)
    ensures
        r@ == blake3_hex_bytes(hasher_input(*h)),
        r@.len() == 64,
{
    h.finalize().to_hex().to_string()
}

/// The digest of a file's content, computed block by block as the file is
/// read.
pub struct ContentHasher {
    inner: blake3::Hasher,
}

impl ContentHasher {
    /// The bytes fed so far, in order.
    pub closed spec fn fed(&self) -> Seq<u8> {
        hasher_input(self.inner)
    }

    pub fn new() -> (h: ContentHasher)
        ensures
            h.fed() == Seq::<u8>::empty(),
    {
        ContentHasher { inner: new_hasher() }
    }

    /// Feeds the next block of the content.
    pub fn update(&mut self, block: &[u8])
        ensures
            final(self).fed() == old(self).fed() + block@,
    {
        hasher_update(&mut self.inner, block);
    }

    /// The fingerprint of everything fed: the digest of the content read
    /// whole.
    pub fn finalize_hex(&self) -> (r: String)
        ensures
            r@ == blake3_hex_bytes(self.fed()),
            r@.len() == 64,
    {
        hasher_hex(&self.inner)
    }
}

/// The fingerprint of a source read whole: the digest of its bytes.
pub fn fingerprint_bytes(bytes: &Vec<u8>) -> (r: String)
    ensures
        r@ == blake3_hex_bytes(bytes@),
        r@.len() == 64,
{
    hash_bytes_hex(bytes.as_slice())
}

/// The text whose digest stands for an unreadable file: `unreadable`, its
/// path, size and modification time, separated by NUL characters.
pub open spec fn unreadable_text(snapshot: FileSnapshot) -> Seq<char> {
    "unreadable"@ + seq!['\0'] + snapshot.absolute_path@ + seq!['\0'] + signed_decimal(
        snapshot.file_size as int,
    ) + seq!['\0'] + signed_decimal(snapshot.modified_at as int)
}

/// The fingerprint of a file whose content could not be read.
pub fn fallback_fingerprint(snapshot: &FileSnapshot) -> (r: String)
    ensures
        r@ == blake3_hex(unreadable_text(*snapshot)),
        r@.len() == 64,
{
    let mut text = "unreadable".to_owned();
    push_char(&mut text, '\0');
    let mut text = concat(text.as_str(), snapshot.absolute_path.as_str());
    push_char(&mut text, '\0');
    let mut text = concat(text.as_str(), i64_to_string(snapshot.file_size).as_str());
    push_char(&mut text, '\0');
    let text = concat(text.as_str(), i64_to_string(snapshot.modified_at).as_str());
    assert(text@ =~= unreadable_text(*snapshot));
    hash_hex(text.as_str())
}

// ---------------------------------------------------------------------------
// Counters of nested scans
// ---------------------------------------------------------------------------

/// Every counter of `total` after adding `value` to it, saturating.
pub open spec fn performance_sum(total: ScanPerformance, value: ScanPerformance) -> ScanPerformance {
    ScanPerformance {
        discovery_us: total.discovery_us.saturating_add(value.discovery_us),
        ownership_lookup_us: total.ownership_lookup_us.saturating_add(value.ownership_lookup_us),
        metadata_lookup_us: total.metadata_lookup_us.saturating_add(value.metadata_lookup_us),
        fingerprint_us: total.fingerprint_us.saturating_add(value.fingerprint_us),
        image_processing_us: total.image_processing_us.saturating_add(value.image_processing_us),
        exif_us: total.exif_us.saturating_add(value.exif_us),
        decode_us: total.decode_us.saturating_add(value.decode_us),
        resize_us: total.resize_us.saturating_add(value.resize_us),
        feature_analysis_us: total.feature_analysis_us.saturating_add(value.feature_analysis_us),
        thumbnail_write_us: total.thumbnail_write_us.saturating_add(value.thumbnail_write_us),
        database_write_us: total.database_write_us.saturating_add(value.database_write_us),
        processed_files: total.processed_files.saturating_add(value.processed_files),
        skipped_files: total.skipped_files.saturating_add(value.skipped_files),
        failed_files: total.failed_files.saturating_add(value.failed_files),
    }
}

/// Adds every counter of `value` to `total`, saturating.
pub fn add_performance(total: &mut ScanPerformance, value: &ScanPerformance)
    ensures
        *final(total) == performance_sum(*old(total), *value),
{
    total.discovery_us = total.discovery_us.saturating_add(value.discovery_us);
    total.ownership_lookup_us = total.ownership_lookup_us.saturating_add(value.ownership_lookup_us);
    total.metadata_lookup_us = total.metadata_lookup_us.saturating_add(value.metadata_lookup_us);
    total.fingerprint_us = total.fingerprint_us.saturating_add(value.fingerprint_us);
    total.image_processing_us = total.image_processing_us.saturating_add(value.image_processing_us);
    total.exif_us = total.exif_us.saturating_add(value.exif_us);
    total.decode_us = total.decode_us.saturating_add(value.decode_us);
    total.resize_us = total.resize_us.saturating_add(value.resize_us);
    total.feature_analysis_us = total.feature_analysis_us.saturating_add(value.feature_analysis_us);
    total.thumbnail_write_us = total.thumbnail_write_us.saturating_add(value.thumbnail_write_us);
    total.database_write_us = total.database_write_us.saturating_add(value.database_write_us);
    total.processed_files = total.processed_files.saturating_add(value.processed_files);
    total.skipped_files = total.skipped_files.saturating_add(value.skipped_files);
    total.failed_files = total.failed_files.saturating_add(value.failed_files);
}

// ---------------------------------------------------------------------------
// Stage timing
// ---------------------------------------------------------------------------

#[verifier::external_type_specification]
#[verifier::external_body]
pub struct ExInstant(std::time::Instant);

/// Calls `Instant::elapsed` and gives the microseconds. It reads the
/// clock, so nothing is stated of it.
#[verifier::external_body]
fn elapsed_micros(started: std::time::Instant) -> u128 {
    started.elapsed().as_micros()
}

/// A count of microseconds as a `u64`, saturated at its maximum.
pub fn saturate_micros(micros: u128) -> (r: u64)
    ensures
        r == (if micros > u64::MAX as u128 { u64::MAX as u128 } else { micros }),
{
    if micros > 0xFFFF_FFFF_FFFF_FFFFu128 {
        0xFFFF_FFFF_FFFF_FFFFu64
    } else {
        micros as u64
    }
}

/// The microseconds elapsed since `started`, saturated at the largest
/// `u64`; it reads the clock.
pub fn elapsed_us(started: std::time::Instant) -> u64 {
    saturate_micros(elapsed_micros(started))
}

/// Adds the time elapsed since `started` to a stage total, saturating.
pub fn add_elapsed(total: &mut u64, started: std::time::Instant)
    ensures
        *final(total) >= *old(total),
{
    let elapsed = elapsed_us(started);
    *total = total.saturating_add(elapsed);
}

/// The summary of a finished scan of one library: its task, status,
/// counters and timing.
pub fn summary_from_progress(progress: &ScanProgress, library_id: i64) -> (r: ScanSummary)
    ensures
        r.task_id == progress.task_id,
        r.library_id == library_id,
        r.status == progress.status,
        r.discovered == progress.discovered,
        r.processed == progress.processed,
        r.succeeded == progress.succeeded,
        r.failed == progress.failed,
        r.skipped == progress.skipped,
        r.missing == progress.missing,
        r.performance == progress.performance,
{
    ScanSummary {
        task_id: progress.task_id.clone(),
        library_id,
        status: progress.status.clone(),
        discovered: progress.discovered,
        processed: progress.processed,
        succeeded: progress.succeeded,
        failed: progress.failed,
        skipped: progress.skipped,
        missing: progress.missing,
        performance: progress.performance,
    }
}

/// The counters of a progress record after the counters of `d`, `p`, `s`,
/// `f`, `sk`, `m` and `perf` were added to them, saturating.
pub open spec fn counters_added(
    before: ScanProgress,
    after: ScanProgress,
    discovered: u64,
    processed: u64,
    succeeded: u64,
    failed: u64,
    skipped: u64,
    missing: u64,
    performance: ScanPerformance,
) -> bool {
    &&& after.discovered == before.discovered.saturating_add(discovered)
    &&& after.processed == before.processed.saturating_add(processed)
    &&& after.succeeded == before.succeeded.saturating_add(succeeded)
    &&& after.failed == before.failed.saturating_add(failed)
    &&& after.skipped == before.skipped.saturating_add(skipped)
    &&& after.missing == before.missing.saturating_add(missing)
    &&& after.performance == performance_sum(before.performance, performance)
}

/// Adds a finished scope's counters to the progress of the whole scan;
/// everything else of the progress is left as it was.
pub fn add_summary_to_progress(progress: &mut ScanProgress, summary: &ScanSummary)
    ensures
        counters_added(
            *old(progress),
            *final(progress),
            summary.discovered,
            summary.processed,
            summary.succeeded,
            summary.failed,
            summary.skipped,
            summary.missing,
            summary.performance,
        ),
        final(progress).task_id == old(progress).task_id,
        final(progress).library_id == old(progress).library_id,
        final(progress).status == old(progress).status,
        final(progress).stage == old(progress).stage,
        final(progress).current_path == old(progress).current_path,
        final(progress).error == old(progress).error,
{
    progress.discovered = progress.discovered.saturating_add(summary.discovered);
    progress.processed = progress.processed.saturating_add(summary.processed);
    progress.succeeded = progress.succeeded.saturating_add(summary.succeeded);
    progress.failed = progress.failed.saturating_add(summary.failed);
    progress.skipped = progress.skipped.saturating_add(summary.skipped);
    progress.missing = progress.missing.saturating_add(summary.missing);
    add_performance(&mut progress.performance, &summary.performance);
}

fn copy_optional(value: &Option<String>) -> (r: Option<String>)
    ensures
        r == *value,
{
    match value {
        Some(text) => Some(text.clone()),
        None => None,
    }
}

/// The progress of the whole scan while one scope is being scanned: the
/// finished scopes (`base`) plus the running one (`local`). It is cancelled
/// when the scope is, and running otherwise; stage, current path and error
/// are the scope's.
pub fn aggregate_scope_progress(base: &ScanProgress, local: &ScanProgress) -> (r: ScanProgress)
    ensures
        counters_added(
            *base,
            r,
            local.discovered,
            local.processed,
            local.succeeded,
            local.failed,
            local.skipped,
            local.missing,
            local.performance,
        ),
        r.task_id == base.task_id,
        r.library_id == base.library_id,
        r.status@ == (if local.status@ == "cancelled"@ {
            "cancelled"@
        } else {
            "running"@
        }),
        r.stage == local.stage,
        r.current_path == local.current_path,
        r.error == local.error,
{
    let mut performance = base.performance;
    add_performance(&mut performance, &local.performance);
    ScanProgress {
        task_id: base.task_id.clone(),
        library_id: base.library_id,
        status: if str_eq(local.status.as_str(), "cancelled") {
            "cancelled".to_owned()
        } else {
            "running".to_owned()
        },
        stage: local.stage.clone(),
        discovered: base.discovered.saturating_add(local.discovered),
        processed: base.processed.saturating_add(local.processed),
        succeeded: base.succeeded.saturating_add(local.succeeded),
        failed: base.failed.saturating_add(local.failed),
        skipped: base.skipped.saturating_add(local.skipped),
        missing: base.missing.saturating_add(local.missing),
        current_path: copy_optional(&local.current_path),
        error: copy_optional(&local.error),
        performance,
    }
}

/// While a scope runs, the whole scan counts what the scope has counted so
/// far on top of the finished scopes; once the scope's summary is added,
/// the whole scan holds the same counters.
pub proof fn lemma_aggregate_agrees_with_summary(
    base: ScanProgress,
    local: ScanProgress,
    library_id: i64,
    running: ScanProgress,
    summary: ScanSummary,
    finished: ScanProgress,
)
    requires
        counters_added(
            base,
            running,
            local.discovered,
            local.processed,
            local.succeeded,
            local.failed,
            local.skipped,
            local.missing,
            local.performance,
        ),
        summary.discovered == local.discovered,
        summary.processed == local.processed,
        summary.succeeded == local.succeeded,
        summary.failed == local.failed,
        summary.skipped == local.skipped,
        summary.missing == local.missing,
        summary.performance == local.performance,
        counters_added(
            base,
            finished,
            summary.discovered,
            summary.processed,
            summary.succeeded,
            summary.failed,
            summary.skipped,
            summary.missing,
            summary.performance,
        ),
    ensures
        running.discovered == finished.discovered,
        running.processed == finished.processed,
        running.succeeded == finished.succeeded,
        running.failed == finished.failed,
        running.skipped == finished.skipped,
        running.missing == finished.missing,
        running.performance == finished.performance,
{
}


// ---------------------------------------------------------------------------
// Order of imported source roots
// ---------------------------------------------------------------------------

/// The number of `/` in a text.
pub open spec fn slash_count(s: Seq<char>) -> nat
    decreases s.len(),
{
    if s.len() == 0 {
        0
    } else {
        slash_count(s.drop_last()) + if s.last() == '/' {
            1nat
        } else {
            0nat
        }
    }
}

/// Source roots are imported shallow first: fewer `/` in the identity key,
/// then by the key itself.
pub open spec fn root_le(a: Seq<char>, b: Seq<char>) -> bool {
    slash_count(a) < slash_count(b) || (slash_count(a) == slash_count(b) && lex_le(a, b))
}

/// `r` holds the keys of `keys`, each once, in import order.
pub open spec fn import_order_of(keys: Seq<Seq<char>>, r: Seq<Seq<char>>) -> bool {
    &&& forall|x: Seq<char>| #[trigger] r.contains(x) <==> keys.contains(x)
    &&& forall|i: int, j: int| 0 <= i < j < r.len() ==> r[i] != r[j]
    &&& forall|i: int, j: int| 0 <= i < j < r.len() ==> root_le(r[i], r[j])
}

proof fn lemma_root_le_facts(a: Seq<char>, b: Seq<char>, c: Seq<char>)
    ensures
        root_le(a, b) || root_le(b, a),
        root_le(a, b) && root_le(b, c) ==> root_le(a, c),
        root_le(a, b) && root_le(b, a) ==> a == b,
{
    lemma_lex_total(a, b, 0);
    if root_le(a, b) && root_le(b, c) && slash_count(a) == slash_count(b) && slash_count(b) == slash_count(c) {
        lemma_lex_transitive(a, b, c, 0);
    }
    if root_le(a, b) && root_le(b, a) {
        assert(a.subrange(0, 0) =~= b.subrange(0, 0));
        lemma_lex_antisymmetric(a, b, 0);
    }
}

fn slashes(s: &str) -> (r: usize)
    ensures
        r == slash_count(s@),
{
    let cs = chars_of(s);
    let mut n: usize = 0;
    let mut i: usize = 0;
    while i < cs.len()
        invariant
            i <= cs@.len(),
            n == slash_count(cs@.take(i as int)),
            n <= i,
        decreases cs@.len() - i,
    {
        assert(cs@.take(i + 1).drop_last() =~= cs@.take(i as int));
        if cs[i] == '/' {
            n += 1;
        }
        i += 1;
    }
    assert(cs@.take(cs@.len() as int) =~= cs@);
    n
}

fn root_before(a: &str, b: &str) -> (r: bool)
    ensures
        r == root_le(a@, b@),
{
    let (x, y) = (slashes(a), slashes(b));
    if x != y {
        x < y
    } else {
        lex_le_chars(&chars_of(a), &chars_of(b))
    }
}

proof fn lemma_insert_in_order(seen: Seq<Seq<char>>, before: Seq<Seq<char>>, key: Seq<char>, pos: int)
    requires
        import_order_of(seen, before),
        !before.contains(key),
        0 <= pos <= before.len(),
        forall|k: int| 0 <= k < pos ==> root_le(before[k], key),
        pos < before.len() ==> !root_le(before[pos], key),
    ensures
        import_order_of(seen.push(key), before.insert(pos, key)),
{
    let after = before.insert(pos, key);
    assert forall|x: Seq<char>| #[trigger] after.contains(x) <==> seen.push(key).contains(x) by {
        if after.contains(x) {
            let k = choose|k: int| 0 <= k < after.len() && after[k] == x;
            if k < pos {
                assert(before[k] == x);
                assert(before.contains(x));
            } else if k > pos {
                assert(before[k - 1] == x);
                assert(before.contains(x));
            }
            if x != key {
                assert(seen.contains(x));
                let m = choose|m: int| 0 <= m < seen.len() && seen[m] == x;
                assert(seen.push(key)[m] == x);
            } else {
                assert(seen.push(key)[seen.len() as int] == x);
            }
        }
        if seen.push(key).contains(x) {
            let m = choose|m: int| 0 <= m < seen.push(key).len() && seen.push(key)[m] == x;
            if m < seen.len() {
                assert(seen[m] == x);
                assert(seen.contains(x));
                assert(before.contains(x));
                let k = choose|k: int| 0 <= k < before.len() && before[k] == x;
                if k < pos {
                    assert(after[k] == x);
                } else {
                    assert(after[k + 1] == x);
                }
            } else {
                assert(after[pos] == x);
            }
        }
    }
    if pos < before.len() {
        lemma_root_le_facts(before[pos], key, key);
    }
    assert forall|i: int, j: int| 0 <= i < j < after.len() implies after[i] != after[j] && root_le(after[i], after[j]) by {
        if j < pos {
            assert(after[i] == before[i] && after[j] == before[j]);
        } else if j == pos {
            assert(after[i] == before[i]);
            assert(before.contains(before[i]));
        } else if i == pos {
            assert(after[j] == before[j - 1]);
            assert(before.contains(before[j - 1]));
            if j - 1 > pos {
                lemma_root_le_facts(key, before[pos], before[j - 1]);
            }
        } else if i < pos {
            assert(after[i] == before[i] && after[j] == before[j - 1]);
        } else {
            assert(after[i] == before[i - 1] && after[j] == before[j - 1]);
        }
    }
}

/// The import order is determined by the keys alone: two lists that both
/// hold the keys once each in import order are the same list.
pub proof fn lemma_import_order_is_unique(keys: Seq<Seq<char>>, r1: Seq<Seq<char>>, r2: Seq<Seq<char>>)
    requires
        import_order_of(keys, r1),
        import_order_of(keys, r2),
    ensures
        r1 == r2,
    decreases r1.len(),
{
    if r1.len() == 0 {
        if r2.len() > 0 {
            assert(r2.contains(r2[0]));
            assert(keys.contains(r2[0]));
            assert(r1.contains(r2[0]));
        }
        assert(r1 =~= r2);
    } else {
        assert(r1.contains(r1[0]));
        assert(keys.contains(r1[0]));
        assert(r2.contains(r1[0]));
        assert(r2.len() > 0);
        assert(r2.contains(r2[0]));
        assert(r1.contains(r2[0]));
        let a = choose|k: int| 0 <= k < r1.len() && r1[k] == r2[0];
        let b = choose|k: int| 0 <= k < r2.len() && r2[k] == r1[0];
        lemma_root_le_facts(r1[0], r2[0], r2[0]);
        lemma_lex_reflexive(r1[0], 0);
        lemma_lex_reflexive(r2[0], 0);
        assert(root_le(r1[0], r1[a]));
        assert(root_le(r2[0], r2[b]));
        assert(r1[0] == r2[0]);
        let t1 = r1.drop_first();
        let t2 = r2.drop_first();
        assert forall|x: Seq<char>| #[trigger] t2.contains(x) <==> t1.contains(x) by {
            if t2.contains(x) {
                let k = choose|k: int| 0 <= k < t2.len() && t2[k] == x;
                assert(r2[k + 1] == x);
                assert(r2.contains(x));
                assert(keys.contains(x));
                assert(r1.contains(x));
                let m = choose|m: int| 0 <= m < r1.len() && r1[m] == x;
                assert(m != 0);
                assert(t1[m - 1] == x);
            }
            if t1.contains(x) {
                let k = choose|k: int| 0 <= k < t1.len() && t1[k] == x;
                assert(r1[k + 1] == x);
                assert(r1.contains(x));
                assert(keys.contains(x));
                assert(r2.contains(x));
                let m = choose|m: int| 0 <= m < r2.len() && r2[m] == x;
                assert(m != 0);
                assert(t2[m - 1] == x);
            }
        }
        assert forall|i: int, j: int| 0 <= i < j < t1.len() implies t1[i] != t1[j] && root_le(t1[i], t1[j]) by {
            assert(t1[i] == r1[i + 1] && t1[j] == r1[j + 1]);
        }
        assert forall|i: int, j: int| 0 <= i < j < t2.len() implies t2[i] != t2[j] && root_le(t2[i], t2[j]) by {
            assert(t2[i] == r2[i + 1] && t2[j] == r2[j + 1]);
        }
        lemma_import_order_is_unique(t1, t1, t2);
        assert(r1 =~= seq![r1[0]] + t1);
        assert(r2 =~= seq![r2[0]] + t2);
    }
}

fn contains_key(r: &Vec<String>, key: &str) -> (found: bool)
    ensures
        found == string_views(r@).contains(key@),
{
    let mut j: usize = 0;
    while j < r.len()
        invariant
            j <= r@.len(),
            forall|k: int| 0 <= k < j ==> r@[k]@ != key@,
        decreases r@.len() - j,
    {
        if str_eq(r[j].as_str(), key) {
            assert(string_views(r@)[j as int] == key@);
            return true;
        }
        j += 1;
    }
    proof {
        if string_views(r@).contains(key@) {
            let k = choose|k: int| 0 <= k < string_views(r@).len() && string_views(r@)[k] == key@;
            assert(r@[k]@ == key@);
        }
    }
    false
}

/// The identity keys of the source roots an import finds, each once, in the
/// order they are imported: shallower keys (fewer `/`) first, then by key.
pub fn import_root_order(keys: &Vec<String>) -> (r: Vec<String>)
    ensures
        import_order_of(string_views(keys@), string_views(r@)),
{
    let mut r: Vec<String> = Vec::new();
    let mut i: usize = 0;
    assert(string_views(keys@.take(0)) =~= Seq::<Seq<char>>::empty());
    assert(string_views(r@) =~= Seq::<Seq<char>>::empty());
    while i < keys.len()
        invariant
            i <= keys@.len(),
            import_order_of(string_views(keys@.take(i as int)), string_views(r@)),
        decreases keys@.len() - i,
    {
        let ghost before = string_views(r@);
        let ghost seen = string_views(keys@.take(i as int));
        assert(string_views(keys@.take(i + 1)) =~= seen.push(keys@[i as int]@));
        let key = keys[i].clone();
        if contains_key(&r, key.as_str()) {
            assert forall|x: Seq<char>| #[trigger] before.contains(x) <==> seen.push(key@).contains(x) by {
                if seen.push(key@).contains(x) {
                    let m = choose|m: int| 0 <= m < seen.push(key@).len() && seen.push(key@)[m] == x;
                    if m < seen.len() {
                        assert(seen[m] == x);
                        assert(seen.contains(x));
                    }
                }
                if before.contains(x) {
                    assert(seen.contains(x));
                    let m = choose|m: int| 0 <= m < seen.len() && seen[m] == x;
                    assert(seen.push(key@)[m] == x);
                }
            }
        } else {
            let mut pos: usize = 0;
            while pos < r.len() && root_before(r[pos].as_str(), key.as_str())
                invariant
                    pos <= r@.len(),
                    before == string_views(r@),
                    forall|k: int| 0 <= k < pos ==> root_le(before[k], key@),
                decreases r@.len() - pos,
            {
                pos += 1;
            }
            proof {
                lemma_insert_in_order(seen, before, key@, pos as int);
            }
            r.insert(pos, key);
            assert(string_views(r@) =~= before.insert(pos as int, keys@[i as int]@));
        }
        i += 1;
    }
    assert(keys@.take(keys@.len() as int) =~= keys@);
    r
}

// ---------------------------------------------------------------------------
// Unchanged files and nested source roots
// ---------------------------------------------------------------------------

/// A file is unchanged since the last scan when its thumbnail is ready and
/// its cache file is on disk, its size and modification time are those
/// stored, and its analysis is complete at the current version.
pub open spec fn spec_unchanged(
    existing: ExistingAssetSnapshot,
    snapshot: FileSnapshot,
    cache_file_present: bool,
) -> bool {
    &&& opt_view(existing.thumbnail_status) == Some("ready"@)
    &&& existing.cache_path is Some
    &&& cache_file_present
    &&& existing.file_size == snapshot.file_size
    &&& existing.modified_at == snapshot.modified_at
    &&& existing.analysis_status@ == "completed"@
    &&& opt_view(existing.analysis_algorithm_version) == Some(ANALYSIS_VERSION@)
}

/// Whether a file can be marked as seen without processing it again, given
/// what the store holds of it, its snapshot, and whether its cache file is
/// on disk.
pub fn is_unchanged(existing: &ExistingAssetSnapshot, snapshot: &FileSnapshot, cache_file_present: bool) -> (r:
    bool)
    ensures
        r == spec_unchanged(*existing, *snapshot, cache_file_present),
{
    let ready = match &existing.thumbnail_status {
        Some(status) => str_eq(status.as_str(), "ready"),
        None => false,
    };
    let current = match &existing.analysis_algorithm_version {
        Some(version) => str_eq(version.as_str(), ANALYSIS_VERSION),
        None => false,
    };
    ready && existing.cache_path.is_some() && cache_file_present && existing.file_size == snapshot.file_size
        && existing.modified_at == snapshot.modified_at && str_eq(existing.analysis_status.as_str(), "completed")
        && current
}

/// An identity key is the root's own or lies below it: it equals the root,
/// or continues it after a `/`.
pub open spec fn same_or_descendant(root: Seq<char>, key: Seq<char>) -> bool {
    key == root || (key.len() > root.len() && key.take(root.len() as int) == root && key[root.len() as int]
        == '/')
}

pub fn is_same_or_descendant(root: &str, key: &str) -> (r: bool)
    ensures
        r == same_or_descendant(root@, key@),
{
    let (rs, ks) = (chars_of(root), chars_of(key));
    if rs.len() == ks.len() {
        return str_eq(root, key);
    }
    if ks.len() <= rs.len() || ks[rs.len()] != '/' {
        return false;
    }
    let mut i: usize = 0;
    while i < rs.len()
        invariant
            i <= rs@.len(),
            rs@.len() < ks@.len(),
            rs@ == root@,
            ks@ == key@,
            forall|k: int| 0 <= k < i ==> rs@[k] == ks@[k],
        decreases rs@.len() - i,
    {
        if rs[i] != ks[i] {
            assert(key@.take(root@.len() as int)[i as int] != root@[i as int]);
            return false;
        }
        i += 1;
    }
    assert(key@.take(root@.len() as int) =~= root@);
    true
}

/// A path is left out of a scope's walk when it is, or lies below, a source
/// root imported below the scope: the scan of that root owns it.
pub fn is_pruned_source_root(path_key: &str, descendants: &Vec<String>) -> (r: bool)
    ensures
        r == exists|i: int| 0 <= i < descendants@.len() && same_or_descendant(#[trigger] descendants@[i]@, path_key@),
{
    let mut i: usize = 0;
    while i < descendants.len()
        invariant
            i <= descendants@.len(),
            forall|k: int| 0 <= k < i ==> !same_or_descendant(#[trigger] descendants@[k]@, path_key@),
        decreases descendants@.len() - i,
    {
        if is_same_or_descendant(descendants[i].as_str(), path_key) {
            return true;
        }
        i += 1;
    }
    false
}

} // verus!
