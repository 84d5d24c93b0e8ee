use fallow::similar_code::{
    artifact_bytes, check_min_lines, ArtifactSpec, SimilarCodeExtractionLimits, SimilarCodeSourceDigest, DEFAULT_MIN_LINES,
};

#[test]
fn digest_keeps_its_bytes() {
    let mut bytes = [0u8; 32];
    bytes[0] = 7;
    bytes[31] = 9;
    let d = SimilarCodeSourceDigest::new(bytes);
    assert_eq!(d.as_bytes(), &bytes);
    assert!(SimilarCodeSourceDigest::new([0u8; 32]) < d);
}

#[test]
fn extraction_limits_default() {
    let l = SimilarCodeExtractionLimits::default();
    assert_eq!(l.max_functions, 10_000);
    assert_eq!(l.max_source_bytes_per_function, 64 * 1024);
    assert_eq!(l.max_total_source_bytes, 16 * 1024 * 1024);
}

#[test]
fn artifact_bytes_sums_sizes() {
    let a = [
        ArtifactSpec { path: "model.onnx", size: 1_000, sha256: "aa" },
        ArtifactSpec { path: "tokenizer.json", size: 234, sha256: "bb" },
    ];
    assert_eq!(artifact_bytes(&a), 1_234);
    assert_eq!(artifact_bytes(&[]), 0);
}

#[test]
fn min_lines_of_zero_fails_loud() {
    let err = check_min_lines(0).unwrap_err();
    assert!(err.contains("at least 1"));
    assert_eq!(check_min_lines(1), Ok(1));
    assert_eq!(check_min_lines(DEFAULT_MIN_LINES), Ok(3));
}
