use fallow::health_types::{
    ProductionCoverageConfidence, ProductionCoverageReportVerdict, ProductionCoverageVerdict,
    ProductionCoverageWatermark,
};

    #[test]
    fn report_verdict_display_matches_kebab_case_serde() {
        assert_eq!(ProductionCoverageReportVerdict::Clean.as_str(), "clean");
        assert_eq!(
            ProductionCoverageReportVerdict::HotPathChangesNeeded.as_str(),
            "hot-path-changes-needed",
        );
        assert_eq!(
            ProductionCoverageReportVerdict::ColdCodeDetected.as_str(),
            "cold-code-detected",
        );
        assert_eq!(
            ProductionCoverageReportVerdict::LicenseExpiredGrace.as_str(),
            "license-expired-grace",
        );
        assert_eq!(
            ProductionCoverageReportVerdict::Unknown.as_str(),
            "unknown",
        );
    }

    #[test]
    fn verdict_display_matches_snake_case_serde() {
        assert_eq!(
            ProductionCoverageVerdict::SafeToDelete.as_str(),
            "safe_to_delete",
        );
        assert_eq!(
            ProductionCoverageVerdict::ReviewRequired.as_str(),
            "review_required",
        );
        assert_eq!(
            ProductionCoverageVerdict::CoverageUnavailable.as_str(),
            "coverage_unavailable",
        );
        assert_eq!(
            ProductionCoverageVerdict::LowTraffic.as_str(),
            "low_traffic",
        );
        assert_eq!(ProductionCoverageVerdict::Active.as_str(), "active");
    }

    #[test]
    fn confidence_display_matches_snake_case_serde() {
        assert_eq!(
            ProductionCoverageConfidence::VeryHigh.as_str(),
            "very_high",
        );
        assert_eq!(ProductionCoverageConfidence::High.as_str(), "high");
        assert_eq!(ProductionCoverageConfidence::Medium.as_str(), "medium");
        assert_eq!(ProductionCoverageConfidence::Low.as_str(), "low");
        assert_eq!(ProductionCoverageConfidence::Absent.as_str(), "none");
        assert_eq!(ProductionCoverageConfidence::Unknown.as_str(), "unknown");
    }

    #[test]
    fn watermark_display_matches_kebab_case_serde() {
        assert_eq!(
            ProductionCoverageWatermark::TrialExpired.as_str(),
            "trial-expired",
        );
        assert_eq!(
            ProductionCoverageWatermark::LicenseExpiredGrace.as_str(),
            "license-expired-grace",
        );
    }

