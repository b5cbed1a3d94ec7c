//! The data model shared by the library's modules: library and scan
//! summaries, sort options and the organization-plan types.
use vstd::prelude::*;

use crate::text::str_eq;

verus! {

#[derive(Debug, Clone, PartialEq, Eq)]
pub struct LibrarySummary {
    pub id: i64,
    pub root_path: String,
    pub created_at: String,
    pub last_scan_at: Option<String>,
    pub status: String,
    pub asset_count: i64,
    pub present_count: i64,
    pub missing_count: i64,
    pub semantic_pending_count: i64,
}

#[derive(Debug, Clone, Copy, PartialEq, Eq, Default, Structural)]
pub enum SemanticMatchMode {
    #[default]
    Any,
    All,
}

#[derive(Debug, Clone, PartialEq, Eq)]
pub struct FolderSummary {
    pub relative_path: String,
    pub asset_count: i64,
}

#[derive(Debug, Clone, PartialEq, Eq)]
pub struct SemanticGroupSummary {
    pub label_id: String,
    pub display_name: String,
    pub asset_count: i64,
}

#[derive(Debug, Clone, Copy, PartialEq, Eq, Default, Structural)]
pub enum AssetSortField {
    #[default]
    FileName,
    CaptureTime,
    ModifiedTime,
    Brightness,
    Saturation,
}

/// The sort field that a client's sort key names, if any.
pub open spec fn spec_sort_field(value: Seq<char>) -> Option<AssetSortField> {
    if value == "file_name"@ {
        Some(AssetSortField::FileName)
    } else if value == "capture_time"@ {
        Some(AssetSortField::CaptureTime)
    } else if value == "modified_time"@ {
        Some(AssetSortField::ModifiedTime)
    } else if value == "brightness"@ {
        Some(AssetSortField::Brightness)
    } else if value == "saturation"@ {
        Some(AssetSortField::Saturation)
    } else {
        None
    }
}

/// The SQL ordering expression of a sort field.
pub open spec fn spec_sort_expression(field: AssetSortField) -> Seq<char> {
    match field {
        AssetSortField::FileName => "a.file_name COLLATE NOCASE"@,
        AssetSortField::CaptureTime => "CASE WHEN a.capture_time IS NULL THEN 1 ELSE 0 END, a.capture_time"@,
        AssetSortField::ModifiedTime => "a.modified_at"@,
        AssetSortField::Brightness => "CASE WHEN tf.brightness_mean IS NULL THEN 1 ELSE 0 END, tf.brightness_mean"@,
        AssetSortField::Saturation => "CASE WHEN cf.saturation_mean IS NULL THEN 1 ELSE 0 END, cf.saturation_mean"@,
    }
}

impl AssetSortField {
    pub fn parse(value: &str) -> (r: Option<Self>)
        ensures
            r == spec_sort_field(value@),
    {
        if str_eq(value, "file_name") {
            Some(Self::FileName)
        } else if str_eq(value, "capture_time") {
            Some(Self::CaptureTime)
        } else if str_eq(value, "modified_time") {
            Some(Self::ModifiedTime)
        } else if str_eq(value, "brightness") {
            Some(Self::Brightness)
        } else if str_eq(value, "saturation") {
            Some(Self::Saturation)
        } else {
            None
        }
    }

    pub fn sql_expression(self) -> (r: &'static str)
        ensures
            r@ == spec_sort_expression(self),
    {
        match self {
            Self::FileName => "a.file_name COLLATE NOCASE",
            Self::CaptureTime => "CASE WHEN a.capture_time IS NULL THEN 1 ELSE 0 END, a.capture_time",
            Self::ModifiedTime => "a.modified_at",
            Self::Brightness => "CASE WHEN tf.brightness_mean IS NULL THEN 1 ELSE 0 END, tf.brightness_mean",
            Self::Saturation => "CASE WHEN cf.saturation_mean IS NULL THEN 1 ELSE 0 END, cf.saturation_mean",
        }
    }
}

#[derive(Debug, Clone, Copy, PartialEq, Eq, Default, Structural)]
pub enum SortDirection {
    #[default]
    Asc,
    Desc,
}

pub open spec fn spec_sort_direction(value: Seq<char>) -> Option<SortDirection> {
    if value == "asc"@ {
        Some(SortDirection::Asc)
    } else if value == "desc"@ {
        Some(SortDirection::Desc)
    } else {
        None
    }
}

impl SortDirection {
    pub fn parse(value: &str) -> (r: Option<Self>)
        ensures
            r == spec_sort_direction(value@),
    {
        if str_eq(value, "asc") {
            Some(Self::Asc)
        } else if str_eq(value, "desc") {
            Some(Self::Desc)
        } else {
            None
        }
    }

    pub fn sql(self) -> (r: &'static str)
        ensures
            r@ == (match self {
                SortDirection::Asc => "ASC"@,
                SortDirection::Desc => "DESC"@,
            }),
    {
        match self {
            Self::Asc => "ASC",
            Self::Desc => "DESC",
        }
    }
}

#[derive(Debug, Clone, PartialEq, Eq)]
pub struct StartScanResponse {
    pub task_id: String,
}

#[derive(Debug, Clone, PartialEq, Eq)]
pub struct CancelScanResponse {
    pub task_id: String,
    pub accepted: bool,
}

#[derive(Debug, Clone, PartialEq, Eq)]
pub struct StartSemanticResponse {
    pub job_id: String,
}

#[derive(Debug, Clone, PartialEq, Eq)]
pub struct SemanticTaskResponse {
    pub job_id: String,
    pub accepted: bool,
}

#[derive(Debug, Clone, PartialEq, Eq)]
pub struct SemanticProgress {
    pub job_id: String,
    pub library_id: i64,
    pub status: String,
    pub total: u64,
    pub processed: u64,
    pub completed: u64,
    pub failed: u64,
    pub skipped: u64,
    pub current_asset_id: Option<i64>,
    pub current_path: Option<String>,
    pub execution_backend: Option<String>,
    pub model_name: String,
    pub model_version: String,
    pub error: Option<String>,
}

/// Time spent in each stage of a scan, in microseconds, and the number of
/// files that each outcome covered.
#[derive(Debug, Clone, Copy, PartialEq, Eq, Default, Structural)]
pub struct ScanPerformance {
    pub discovery_us: u64,
    pub ownership_lookup_us: u64,
    pub metadata_lookup_us: u64,
    pub fingerprint_us: u64,
    pub image_processing_us: u64,
    pub exif_us: u64,
    pub decode_us: u64,
    pub resize_us: u64,
    pub feature_analysis_us: u64,
    pub thumbnail_write_us: u64,
    pub database_write_us: u64,
    pub processed_files: u64,
    pub skipped_files: u64,
    pub failed_files: u64,
}

#[derive(Debug, Clone, PartialEq, Eq)]
pub struct ScanProgress {
    pub task_id: String,
    pub library_id: Option<i64>,
    pub status: String,
    pub stage: String,
    pub discovered: u64,
    pub processed: u64,
    pub succeeded: u64,
    pub failed: u64,
    pub skipped: u64,
    pub missing: u64,
    pub current_path: Option<String>,
    pub error: Option<String>,
    pub performance: ScanPerformance,
}

/// A performance record with every counter at zero.
pub open spec fn performance_is_zero(p: ScanPerformance) -> bool {
    p == ScanPerformance {
        discovery_us: 0,
        ownership_lookup_us: 0,
        metadata_lookup_us: 0,
        fingerprint_us: 0,
        image_processing_us: 0,
        exif_us: 0,
        decode_us: 0,
        resize_us: 0,
        feature_analysis_us: 0,
        thumbnail_write_us: 0,
        database_write_us: 0,
        processed_files: 0,
        skipped_files: 0,
        failed_files: 0,
    }
}

pub fn zero_performance() -> (r: ScanPerformance)
    ensures
        performance_is_zero(r),
{
    ScanPerformance {
        discovery_us: 0,
        ownership_lookup_us: 0,
        metadata_lookup_us: 0,
        fingerprint_us: 0,
        image_processing_us: 0,
        exif_us: 0,
        decode_us: 0,
        resize_us: 0,
        feature_analysis_us: 0,
        thumbnail_write_us: 0,
        database_write_us: 0,
        processed_files: 0,
        skipped_files: 0,
        failed_files: 0,
    }
}

impl ScanProgress {
    /// The progress of a scan that is just starting: running, preparing,
    /// with every counter at zero.
    pub fn starting(task_id: &str) -> (r: Self)
        ensures
            r.task_id@ == task_id@,
            r.library_id is None,
            r.status@ == "running"@,
            r.stage@ == "preparing"@,
            r.discovered == 0,
            r.processed == 0,
            r.succeeded == 0,
            r.failed == 0,
            r.skipped == 0,
            r.missing == 0,
            r.current_path is None,
            r.error is None,
            performance_is_zero(r.performance),
    {
        Self {
            task_id: task_id.to_owned(),
            library_id: None,
            status: "running".to_owned(),
            stage: "preparing".to_owned(),
            discovered: 0,
            processed: 0,
            succeeded: 0,
            failed: 0,
            skipped: 0,
            missing: 0,
            current_path: None,
            error: None,
            performance: zero_performance(),
        }
    }
}

#[derive(Debug, Clone, PartialEq, Eq)]
pub struct ScanSummary {
    pub task_id: String,
    pub library_id: i64,
    pub status: String,
    pub discovered: u64,
    pub processed: u64,
    pub succeeded: u64,
    pub failed: u64,
    pub skipped: u64,
    pub missing: u64,
    pub performance: ScanPerformance,
}

#[derive(Debug, Clone, PartialEq, Eq)]
pub struct FileSnapshot {
    pub absolute_path: String,
    pub relative_path: String,
    pub file_name: String,
    pub extension: String,
    pub file_size: i64,
    pub modified_at: i64,
}

#[derive(Debug, Clone, PartialEq, Eq)]
pub struct ExistingAssetSnapshot {
    pub id: i64,
    pub file_size: i64,
    pub modified_at: i64,
    pub analysis_status: String,
    pub analysis_algorithm_version: Option<String>,
    pub thumbnail_status: Option<String>,
    pub cache_path: Option<String>,
}

/// The source set used to generate a read-only organization preview.
#[derive(Debug, Clone, Copy, PartialEq, Eq, Default, Structural)]
pub enum OrganizationScope {
    #[default]
    All,
    Filtered,
    Selected,
}

#[derive(Debug, Clone, Copy, PartialEq, Eq, Structural)]
pub enum OrganizationLevelKind {
    Year,
    Month,
    Day,
    OriginalDirectory,
    PrimarySemantic,
    Tone,
    DominantColor,
    Saturation,
}

/// The name of a directory level kind, as rules and messages spell it.
pub open spec fn spec_level_name(kind: OrganizationLevelKind) -> Seq<char> {
    match kind {
        OrganizationLevelKind::Year => "year"@,
        OrganizationLevelKind::Month => "month"@,
        OrganizationLevelKind::Day => "day"@,
        OrganizationLevelKind::OriginalDirectory => "original_directory"@,
        OrganizationLevelKind::PrimarySemantic => "primary_semantic"@,
        OrganizationLevelKind::Tone => "tone"@,
        OrganizationLevelKind::DominantColor => "dominant_color"@,
        OrganizationLevelKind::Saturation => "saturation"@,
    }
}

impl OrganizationLevelKind {
    pub fn as_str(&self) -> (r: &'static str)
        ensures
            r@ == spec_level_name(*self),
    {
        match self {
            Self::Year => "year",
            Self::Month => "month",
            Self::Day => "day",
            Self::OriginalDirectory => "original_directory",
            Self::PrimarySemantic => "primary_semantic",
            Self::Tone => "tone",
            Self::DominantColor => "dominant_color",
            Self::Saturation => "saturation",
        }
    }

    /// Year, month and day levels come from a date.
    pub open spec fn is_date(self) -> bool {
        self == OrganizationLevelKind::Year || self == OrganizationLevelKind::Month || self
            == OrganizationLevelKind::Day
    }
}

#[derive(Debug, Clone, Copy, PartialEq, Eq, Default, Structural)]
pub enum OrganizationMissingFallback {
    ModificationTime,
    #[default]
    Unknown,
    Skip,
    Block,
}

#[derive(Debug, Clone, Copy, PartialEq, Eq, Default, Structural)]
pub enum OrganizationConflictStrategy {
    Skip,
    #[default]
    Sequence,
    ShortHash,
}

#[derive(Debug, Clone, Copy, PartialEq, Eq, Structural)]
pub struct OrganizationLevel {
    pub kind: OrganizationLevelKind,
    pub fallback: OrganizationMissingFallback,
}

#[derive(Debug, Clone, PartialEq, Eq)]
pub struct OrganizationRules {
    pub version: String,
    pub levels: Vec<OrganizationLevel>,
    pub template: String,
    pub sequence_start: u32,
    pub sequence_width: u8,
    pub missing_fallback: OrganizationMissingFallback,
    pub conflict_strategy: OrganizationConflictStrategy,
}

/// The default naming template.
pub open spec fn default_template() -> Seq<char> {
    "{capture_time:yyyyMMdd_HHmmss}_{semantic}_{original_stem}_{sequence:0000}"@
}

impl Default for OrganizationRules {
    /// Year and month folders (from the capture time, falling back to the
    /// modification time) and a primary-semantic folder, with the default
    /// naming template.
    fn default() -> (r: Self)
        ensures
            r.version@ == "organization-rules-v1"@,
            r.levels@ == seq![
                OrganizationLevel {
                    kind: OrganizationLevelKind::Year,
                    fallback: OrganizationMissingFallback::ModificationTime,
                },
                OrganizationLevel {
                    kind: OrganizationLevelKind::Month,
                    fallback: OrganizationMissingFallback::ModificationTime,
                },
                OrganizationLevel {
                    kind: OrganizationLevelKind::PrimarySemantic,
                    fallback: OrganizationMissingFallback::Unknown,
                },
            ],
            r.template@ == default_template(),
            r.sequence_start == 1,
            r.sequence_width == 4,
            r.missing_fallback == OrganizationMissingFallback::Unknown,
            r.conflict_strategy == OrganizationConflictStrategy::Sequence,
    {
        let mut levels = Vec::new();
        levels.push(
            OrganizationLevel {
                kind: OrganizationLevelKind::Year,
                fallback: OrganizationMissingFallback::ModificationTime,
            },
        );
        levels.push(
            OrganizationLevel {
                kind: OrganizationLevelKind::Month,
                fallback: OrganizationMissingFallback::ModificationTime,
            },
        );
        levels.push(
            OrganizationLevel {
                kind: OrganizationLevelKind::PrimarySemantic,
                fallback: OrganizationMissingFallback::Unknown,
            },
        );
        Self {
            version: organization_rules_version(),
            levels,
            template: "{capture_time:yyyyMMdd_HHmmss}_{semantic}_{original_stem}_{sequence:0000}".to_owned(),
            sequence_start: organization_sequence_start(),
            sequence_width: organization_sequence_width(),
            missing_fallback: OrganizationMissingFallback::Unknown,
            conflict_strategy: OrganizationConflictStrategy::Sequence,
        }
    }
}

/// The version of the rule format that rules default to.
pub fn organization_rules_version() -> (r: String)
    ensures
        r@ == "organization-rules-v1"@,
{
    "organization-rules-v1".to_owned()
}

/// The first sequence number by default.
pub fn organization_sequence_start() -> (r: u32)
    ensures
        r == 1,
{
    1
}

/// The number of sequence digits by default.
pub fn organization_sequence_width() -> (r: u8)
    ensures
        r == 4,
{
    4
}

#[derive(Debug, Clone, Copy, PartialEq, Eq, Structural)]
pub enum OrganizationItemStatus {
    Ready,
    Warning,
    Error,
    SkippedConflict,
}

#[derive(Debug, Clone, Copy, PartialEq, Eq, Structural)]
pub enum OrganizationIssueSeverity {
    Warning,
    Error,
}

#[derive(Debug, Clone, PartialEq, Eq)]
pub struct OrganizationIssue {
    pub code: String,
    pub severity: OrganizationIssueSeverity,
    pub source_path: Option<String>,
    pub target_path: Option<String>,
    pub detail: String,
}

/// One file of an organization plan. `variables` holds the naming
/// variables of the item as (name, value) pairs in ascending order of name.
#[derive(Debug, Clone, PartialEq, Eq)]
pub struct OrganizationPlanItem {
    pub ordinal: u32,
    pub asset_id: i64,
    pub source_path: String,
    pub source_relative_path: String,
    pub source_fingerprint: String,
    pub target_relative_path: String,
    pub target_path: String,
    pub file_size: u64,
    pub status: OrganizationItemStatus,
    pub variables: Vec<(String, String)>,
    pub issues: Vec<OrganizationIssue>,
}

#[derive(Debug, PartialEq, Eq)]
pub struct OrganizationTreeNode {
    pub name: String,
    pub relative_path: String,
    pub file_count: u64,
    pub byte_count: u64,
    pub children: Vec<OrganizationTreeNode>,
}

#[derive(Debug, Clone, PartialEq, Eq)]
pub struct OrganizationPlanSummary {
    pub plan_id: String,
    pub library_id: i64,
    pub source_root: String,
    pub target_root: String,
    pub scope: OrganizationScope,
    pub item_count: u64,
    pub conflict_count: u64,
    pub error_count: u64,
    pub warning_count: u64,
    pub estimated_bytes: u64,
    pub target_available_bytes: Option<u64>,
    pub generated_at: String,
    pub status: String,
    pub source_snapshot: String,
    pub rules: OrganizationRules,
}

#[derive(Debug, PartialEq, Eq)]
pub struct OrganizationPlan {
    pub summary: OrganizationPlanSummary,
    pub items: Vec<OrganizationPlanItem>,
    pub tree: OrganizationTreeNode,
}

/// A request for an organization plan: where to, over which assets, and
/// under which rules. The asset filter of a filtered scope is applied by
/// whoever loads the assets.
#[derive(Debug, Clone, PartialEq, Eq)]
pub struct OrganizationPlanRequest {
    pub library_id: i64,
    pub target_root: String,
    pub scope: OrganizationScope,
    pub selected_asset_ids: Vec<i64>,
    pub rules: OrganizationRules,
}

/// An asset as the organization planner reads it: where it is, what the
/// scan recorded of it, and its effective primary category.
#[derive(Debug, Clone, PartialEq, Eq)]
pub struct PlanAsset {
    pub id: i64,
    pub absolute_path: String,
    pub relative_path: String,
    pub file_name: String,
    pub extension: String,
    pub file_size: i64,
    pub modified_at: i64,
    pub capture_time: Option<String>,
    pub camera_make: Option<String>,
    pub camera_model: Option<String>,
    pub lens_model: Option<String>,
    pub file_status: String,
    pub tone_label: Option<String>,
    pub saturation_label: Option<String>,
    pub dominant_color_category: Option<String>,
    pub primary_category: Option<String>,
}

#[derive(Debug, Clone, PartialEq, Eq)]
pub struct OrganizationPlanRecord {
    pub plan_id: String,
    pub library_id: i64,
    pub target_root: String,
    pub scope: OrganizationScope,
    pub rules: OrganizationRules,
    pub summary: OrganizationPlanSummary,
    pub created_at: String,
    pub updated_at: String,
}

} // verus!
