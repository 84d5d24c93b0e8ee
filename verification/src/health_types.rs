//! Health and production-coverage report vocabulary.
use vstd::prelude::*;

verus! {

/// A single function that exceeds a complexity threshold.
#[derive(Debug)]
pub struct HealthFinding {
    /// Absolute file path.
    pub path: String,
    /// Function name.
    pub name: String,
    /// 1-based line number.
    pub line: u32,
    /// 0-based column.
    pub col: u32,
    /// Cyclomatic complexity.
    pub cyclomatic: u16,
    /// Cognitive complexity.
    pub cognitive: u16,
    /// Number of lines in the function.
    pub line_count: u32,
    /// Which threshold was exceeded.
    pub exceeded: ExceededThreshold,
}

/// Which complexity threshold was exceeded.
#[derive(Debug, Clone, Copy, PartialEq, Eq, Structural)]
pub enum ExceededThreshold {
    /// Only cyclomatic exceeded.
    Cyclomatic,
    /// Only cognitive exceeded.
    Cognitive,
    /// Both thresholds exceeded.
    Both,
}

/// Top-level verdict for the whole production-coverage report.
#[derive(Debug, Clone, Copy, Default, PartialEq, Eq, Structural)]
pub enum ProductionCoverageReportVerdict {
    Clean,
    HotPathChangesNeeded,
    ColdCodeDetected,
    LicenseExpiredGrace,
    #[default]
    Unknown,
}

impl ProductionCoverageReportVerdict {
    /// The kebab-case name of the verdict, as it is serialized.
    pub fn as_str(self) -> (r: &'static str)
        ensures
            r@ == match self {
                Self::Clean => "clean"@,
                Self::HotPathChangesNeeded => "hot-path-changes-needed"@,
                Self::ColdCodeDetected => "cold-code-detected"@,
                Self::LicenseExpiredGrace => "license-expired-grace"@,
                Self::Unknown => "unknown"@,
            },
    {
        match self {
            Self::Clean => "clean",
            Self::HotPathChangesNeeded => "hot-path-changes-needed",
            Self::ColdCodeDetected => "cold-code-detected",
            Self::LicenseExpiredGrace => "license-expired-grace",
            Self::Unknown => "unknown",
        }
    }
}

/// Per-finding verdict.
#[derive(Debug, Clone, Copy, PartialEq, Eq, Structural)]
pub enum ProductionCoverageVerdict {
    SafeToDelete,
    ReviewRequired,
    CoverageUnavailable,
    LowTraffic,
    Active,
    Unknown,
}

impl ProductionCoverageVerdict {
    /// The snake_case name of the verdict, as it is serialized.
    pub fn as_str(self) -> (r: &'static str)
        ensures
            r@ == match self {
                Self::SafeToDelete => "safe_to_delete"@,
                Self::ReviewRequired => "review_required"@,
                Self::CoverageUnavailable => "coverage_unavailable"@,
                Self::LowTraffic => "low_traffic"@,
                Self::Active => "active"@,
                Self::Unknown => "unknown"@,
            },
    {
        match self {
            Self::SafeToDelete => "safe_to_delete",
            Self::ReviewRequired => "review_required",
            Self::CoverageUnavailable => "coverage_unavailable",
            Self::LowTraffic => "low_traffic",
            Self::Active => "active",
            Self::Unknown => "unknown",
        }
    }

    /// The verdict in words, for human-readable output.
    pub fn human_label(self) -> (r: &'static str)
        ensures
            r@ == match self {
                Self::SafeToDelete => "safe to delete"@,
                Self::ReviewRequired => "review required"@,
                Self::CoverageUnavailable => "coverage unavailable"@,
                Self::LowTraffic => "low traffic"@,
                Self::Active => "active"@,
                Self::Unknown => "unknown"@,
            },
    {
        match self {
            Self::SafeToDelete => "safe to delete",
            Self::ReviewRequired => "review required",
            Self::CoverageUnavailable => "coverage unavailable",
            Self::LowTraffic => "low traffic",
            Self::Active => "active",
            Self::Unknown => "unknown",
        }
    }
}

/// Confidence attached to a finding.
#[derive(Debug, Clone, Copy, PartialEq, Eq, Structural)]
pub enum ProductionCoverageConfidence {
    VeryHigh,
    High,
    Medium,
    Low,
    /// No confidence at all (serialized as `none`).
    Absent,
    Unknown,
}

impl ProductionCoverageConfidence {
    /// The snake_case name of the confidence, as it is serialized.
    pub fn as_str(self) -> (r: &'static str)
        ensures
            r@ == match self {
                Self::VeryHigh => "very_high"@,
                Self::High => "high"@,
                Self::Medium => "medium"@,
                Self::Low => "low"@,
                Self::Absent => "none"@,
                Self::Unknown => "unknown"@,
            },
    {
        match self {
            Self::VeryHigh => "very_high",
            Self::High => "high",
            Self::Medium => "medium",
            Self::Low => "low",
            Self::Absent => "none",
            Self::Unknown => "unknown",
        }
    }
}

/// Watermark shown on reports produced without a current license.
#[derive(Debug, Clone, Copy, PartialEq, Eq, Structural)]
pub enum ProductionCoverageWatermark {
    TrialExpired,
    LicenseExpiredGrace,
    Unknown,
}

impl ProductionCoverageWatermark {
    /// The kebab-case name of the watermark, as it is serialized.
    pub fn as_str(self) -> (r: &'static str)
        ensures
            r@ == match self {
                Self::TrialExpired => "trial-expired"@,
                Self::LicenseExpiredGrace => "license-expired-grace"@,
                Self::Unknown => "unknown"@,
            },
    {
        match self {
            Self::TrialExpired => "trial-expired",
            Self::LicenseExpiredGrace => "license-expired-grace",
            Self::Unknown => "unknown",
        }
    }
}

/// Supporting evidence for a finding.
#[derive(Debug, Clone)]
pub struct ProductionCoverageEvidence {
    pub static_status: String,
    pub test_coverage: String,
    pub v8_tracking: String,
    pub untracked_reason: Option<String>,
    pub observation_days: u32,
    pub deployments_observed: u32,
}

/// A suggested follow-up for a finding; `kind` is serialized as `type`.
#[derive(Debug, Clone)]
pub struct ProductionCoverageAction {
    pub kind: String,
    pub description: String,
    pub auto_fixable: bool,
}

/// A coded warning attached to a report.
#[derive(Debug, Clone)]
pub struct ProductionCoverageMessage {
    pub code: String,
    pub message: String,
}

/// A function that production coverage classified.
#[derive(Debug, Clone)]
pub struct ProductionCoverageFinding {
    /// Stable content-hash ID of the form `fallow:prod:<hash>`.
    pub id: String,
    pub path: String,
    pub function: String,
    pub line: u32,
    pub verdict: ProductionCoverageVerdict,
    /// Raw V8 invocation count; `None` when the function was untracked.
    pub invocations: Option<u64>,
    pub confidence: ProductionCoverageConfidence,
    pub evidence: ProductionCoverageEvidence,
    pub actions: Vec<ProductionCoverageAction>,
}

/// A busy function worth attention when it changes.
#[derive(Debug, Clone)]
pub struct ProductionCoverageHotPath {
    /// Stable content-hash ID of the form `fallow:hot:<hash>`.
    pub id: String,
    pub path: String,
    pub function: String,
    pub line: u32,
    pub invocations: u64,
    /// Percentile rank over this response's hot-path distribution.
    pub percentile: u8,
    pub actions: Vec<ProductionCoverageAction>,
}

} // verus!
