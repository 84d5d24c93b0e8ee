use fallow::mcp_args::{
    AnalyzeParams, CheckChangedParams, FindDupesParams, FixParams, HealthParams,
    ISSUE_TYPE_FLAGS, ProjectInfoParams, VALID_DUPES_MODES, build_analyze_args,
    build_check_changed_args, build_find_dupes_args, build_fix_apply_args,
    build_fix_preview_args, build_health_args, build_project_info_args,
};

// ── Argument building: analyze ────────────────────────────────────

#[test]
fn analyze_args_minimal_produces_base_args() {
    let params = AnalyzeParams {
        root: None,
        config: None,
        production: None,
        workspace: None,
        issue_types: None,
        ..Default::default()
    };
    let args = build_analyze_args(&params).unwrap();
    assert_eq!(
        args,
        ["dead-code", "--format", "json", "--quiet", "--explain"]
    );
}

#[test]
fn analyze_args_with_all_options() {
    let params = AnalyzeParams {
        root: Some("/my/project".to_string()),
        config: Some("fallow.toml".to_string()),
        production: Some(true),
        workspace: Some("@my/pkg".to_string()),
        issue_types: Some(vec![
            "unused-files".to_string(),
            "unused-exports".to_string(),
        ]),
        ..Default::default()
    };
    let args = build_analyze_args(&params).unwrap();
    assert_eq!(
        args,
        [
            "dead-code",
            "--format",
            "json",
            "--quiet",
            "--explain",
            "--root",
            "/my/project",
            "--config",
            "fallow.toml",
            "--production",
            "--workspace",
            "@my/pkg",
            "--unused-files",
            "--unused-exports",
        ]
    );
}

#[test]
fn analyze_args_production_false_is_omitted() {
    let params = AnalyzeParams {
        root: None,
        config: None,
        production: Some(false),
        workspace: None,
        issue_types: None,
        ..Default::default()
    };
    let args = build_analyze_args(&params).unwrap();
    assert!(!args.contains(&"--production".to_string()));
}

#[test]
fn analyze_args_invalid_issue_type_returns_error() {
    let params = AnalyzeParams {
        root: None,
        config: None,
        production: None,
        workspace: None,
        issue_types: Some(vec!["nonexistent-type".to_string()]),
        ..Default::default()
    };
    let err = build_analyze_args(&params).unwrap_err();
    assert!(err.contains("Unknown issue type 'nonexistent-type'"));
    assert!(err.contains("unused-files"));
}

#[test]
fn analyze_args_all_issue_types_accepted() {
    let all_types: Vec<String> = ISSUE_TYPE_FLAGS
        .iter()
        .map(|&(name, _)| name.to_string())
        .collect();
    let params = AnalyzeParams {
        root: None,
        config: None,
        production: None,
        workspace: None,
        issue_types: Some(all_types),
        ..Default::default()
    };
    let args = build_analyze_args(&params).unwrap();
    for &(_, flag) in ISSUE_TYPE_FLAGS.iter() {
        assert!(
            args.contains(&flag.to_string()),
            "missing flag {flag} in args"
        );
    }
}

#[test]
fn analyze_args_mixed_valid_and_invalid_issue_types_fails_on_first_invalid() {
    let params = AnalyzeParams {
        root: None,
        config: None,
        production: None,
        workspace: None,
        issue_types: Some(vec![
            "unused-files".to_string(),
            "bogus".to_string(),
            "unused-deps".to_string(),
        ]),
        ..Default::default()
    };
    let err = build_analyze_args(&params).unwrap_err();
    assert!(err.contains("'bogus'"));
}

#[test]
fn analyze_args_empty_issue_types_vec_produces_no_flags() {
    let params = AnalyzeParams {
        root: None,
        config: None,
        production: None,
        workspace: None,
        issue_types: Some(vec![]),
        ..Default::default()
    };
    let args = build_analyze_args(&params).unwrap();
    assert_eq!(
        args,
        ["dead-code", "--format", "json", "--quiet", "--explain"]
    );
}

// ── Argument building: check_changed ──────────────────────────────

#[test]
fn check_changed_args_includes_since_ref() {
    let params = CheckChangedParams {
        root: None,
        since: "main".to_string(),
        config: None,
        production: None,
        workspace: None,
        ..Default::default()
    };
    let args = build_check_changed_args(params);
    assert_eq!(
        args,
        [
            "dead-code",
            "--format",
            "json",
            "--quiet",
            "--explain",
            "--changed-since",
            "main"
        ]
    );
}

#[test]
fn check_changed_args_with_all_options() {
    let params = CheckChangedParams {
        root: Some("/app".to_string()),
        since: "HEAD~5".to_string(),
        config: Some("custom.json".to_string()),
        production: Some(true),
        workspace: Some("frontend".to_string()),
        ..Default::default()
    };
    let args = build_check_changed_args(params);
    assert_eq!(
        args,
        [
            "dead-code",
            "--format",
            "json",
            "--quiet",
            "--explain",
            "--changed-since",
            "HEAD~5",
            "--root",
            "/app",
            "--config",
            "custom.json",
            "--production",
            "--workspace",
            "frontend",
        ]
    );
}

#[test]
fn check_changed_args_with_commit_sha() {
    let params = CheckChangedParams {
        root: None,
        since: "abc123def456".to_string(),
        config: None,
        production: None,
        workspace: None,
        ..Default::default()
    };
    let args = build_check_changed_args(params);
    assert!(args.contains(&"abc123def456".to_string()));
}

// ── Argument building: find_dupes ─────────────────────────────────

#[test]
fn find_dupes_args_minimal() {
    let params = FindDupesParams {
        root: None,
        mode: None,
        min_tokens: None,
        min_lines: None,
        threshold: None,
        skip_local: None,
        cross_language: None,
        top: None,
        ..Default::default()
    };
    let args = build_find_dupes_args(&params).unwrap();
    assert_eq!(args, ["dupes", "--format", "json", "--quiet", "--explain"]);
}

#[test]
fn find_dupes_args_with_all_options() {
    let params = FindDupesParams {
        root: Some("/repo".to_string()),
        mode: Some("semantic".to_string()),
        min_tokens: Some(100),
        min_lines: Some(10),
        threshold: Some(5.5_f64.to_string()),
        skip_local: Some(true),
        cross_language: Some(true),
        top: Some(5),
        ..Default::default()
    };
    let args = build_find_dupes_args(&params).unwrap();
    assert_eq!(
        args,
        [
            "dupes",
            "--format",
            "json",
            "--quiet",
            "--explain",
            "--root",
            "/repo",
            "--mode",
            "semantic",
            "--min-tokens",
            "100",
            "--min-lines",
            "10",
            "--threshold",
            "5.5",
            "--skip-local",
            "--cross-language",
            "--top",
            "5",
        ]
    );
}

#[test]
fn find_dupes_args_all_valid_modes_accepted() {
    for mode in VALID_DUPES_MODES {
        let params = FindDupesParams {
            root: None,
            mode: Some(mode.to_string()),
            min_tokens: None,
            min_lines: None,
            threshold: None,
            skip_local: None,
            cross_language: None,
            top: None,
        ..Default::default()
    };
        let args = build_find_dupes_args(&params).unwrap();
        assert!(
            args.contains(&mode.to_string()),
            "mode '{mode}' should be in args"
        );
    }
}

#[test]
fn find_dupes_args_invalid_mode_returns_error() {
    let params = FindDupesParams {
        root: None,
        mode: Some("aggressive".to_string()),
        min_tokens: None,
        min_lines: None,
        threshold: None,
        skip_local: None,
        cross_language: None,
        top: None,
        ..Default::default()
    };
    let err = build_find_dupes_args(&params).unwrap_err();
    assert!(err.contains("Invalid mode 'aggressive'"));
    assert!(err.contains("strict"));
    assert!(err.contains("mild"));
    assert!(err.contains("weak"));
    assert!(err.contains("semantic"));
}

#[test]
fn find_dupes_args_skip_local_false_is_omitted() {
    let params = FindDupesParams {
        root: None,
        mode: None,
        min_tokens: None,
        min_lines: None,
        threshold: None,
        skip_local: Some(false),
        cross_language: None,
        top: None,
        ..Default::default()
    };
    let args = build_find_dupes_args(&params).unwrap();
    assert!(!args.contains(&"--skip-local".to_string()));
}

#[test]
fn find_dupes_args_threshold_zero() {
    let params = FindDupesParams {
        root: None,
        mode: None,
        min_tokens: None,
        min_lines: None,
        threshold: Some(0.0_f64.to_string()),
        skip_local: None,
        cross_language: None,
        top: None,
        ..Default::default()
    };
    let args = build_find_dupes_args(&params).unwrap();
    assert!(args.contains(&"--threshold".to_string()));
    assert!(args.contains(&"0".to_string()));
}

// ── Argument building: fix_preview vs fix_apply ───────────────────

#[test]
fn fix_preview_args_include_dry_run() {
    let params = FixParams {
        root: None,
        config: None,
        production: None,
        ..Default::default()
    };
    let args = build_fix_preview_args(&params);
    assert!(args.contains(&"--dry-run".to_string()));
    assert!(!args.contains(&"--yes".to_string()));
    assert_eq!(args[0], "fix");
}

#[test]
fn fix_apply_args_include_yes_flag() {
    let params = FixParams {
        root: None,
        config: None,
        production: None,
        ..Default::default()
    };
    let args = build_fix_apply_args(&params);
    assert!(args.contains(&"--yes".to_string()));
    assert!(!args.contains(&"--dry-run".to_string()));
    assert_eq!(args[0], "fix");
}

#[test]
fn fix_preview_args_with_all_options() {
    let params = FixParams {
        root: Some("/app".to_string()),
        config: Some("config.json".to_string()),
        production: Some(true),
        ..Default::default()
    };
    let args = build_fix_preview_args(&params);
    assert_eq!(
        args,
        [
            "fix",
            "--dry-run",
            "--format",
            "json",
            "--quiet",
            "--root",
            "/app",
            "--config",
            "config.json",
            "--production",
        ]
    );
}

#[test]
fn fix_apply_args_with_all_options() {
    let params = FixParams {
        root: Some("/app".to_string()),
        config: Some("config.json".to_string()),
        production: Some(true),
        ..Default::default()
    };
    let args = build_fix_apply_args(&params);
    assert_eq!(
        args,
        [
            "fix",
            "--yes",
            "--format",
            "json",
            "--quiet",
            "--root",
            "/app",
            "--config",
            "config.json",
            "--production",
        ]
    );
}

// ── Argument building: project_info ───────────────────────────────

#[test]
fn project_info_args_minimal() {
    let params = ProjectInfoParams {
        root: None,
        config: None,
        ..Default::default()
    };
    let args = build_project_info_args(&params);
    assert_eq!(args, ["list", "--format", "json", "--quiet"]);
}

#[test]
fn project_info_args_with_root_and_config() {
    let params = ProjectInfoParams {
        root: Some("/workspace".to_string()),
        config: Some("fallow.toml".to_string()),
        ..Default::default()
    };
    let args = build_project_info_args(&params);
    assert_eq!(
        args,
        [
            "list",
            "--format",
            "json",
            "--quiet",
            "--root",
            "/workspace",
            "--config",
            "fallow.toml",
        ]
    );
}

// ── Argument building: health ─────────────────────────────────────

#[test]
fn health_args_minimal() {
    let params = HealthParams {
        root: None,
        max_cyclomatic: None,
        max_cognitive: None,
        top: None,
        sort: None,
        changed_since: None,
        complexity: None,
        file_scores: None,
        hotspots: None,
        targets: None,
        since: None,
        min_commits: None,
        production: None,
        workspace: None,
        save_snapshot: None,
        ..Default::default()
    };
    let args = build_health_args(&params);
    assert_eq!(args, ["health", "--format", "json", "--quiet", "--explain"]);
}

#[test]
fn health_args_with_all_options() {
    let params = HealthParams {
        root: Some("/src".to_string()),
        max_cyclomatic: Some(25),
        max_cognitive: Some(15),
        top: Some(20),
        sort: Some("cognitive".to_string()),
        changed_since: Some("develop".to_string()),
        complexity: Some(true),
        file_scores: Some(true),
        hotspots: Some(true),
        targets: None,
        since: Some("6m".to_string()),
        min_commits: Some(5),
        workspace: Some("packages/ui".to_string()),
        production: Some(true),
        save_snapshot: None,
        ..Default::default()
    };
    let args = build_health_args(&params);
    assert_eq!(
        args,
        [
            "health",
            "--format",
            "json",
            "--quiet",
            "--explain",
            "--root",
            "/src",
            "--max-cyclomatic",
            "25",
            "--max-cognitive",
            "15",
            "--top",
            "20",
            "--sort",
            "cognitive",
            "--changed-since",
            "develop",
            "--complexity",
            "--file-scores",
            "--hotspots",
            "--since",
            "6m",
            "--min-commits",
            "5",
            "--workspace",
            "packages/ui",
            "--production",
        ]
    );
}

#[test]
fn health_args_partial_options() {
    let params = HealthParams {
        root: None,
        max_cyclomatic: Some(10),
        max_cognitive: None,
        top: None,
        sort: Some("cyclomatic".to_string()),
        changed_since: None,
        complexity: None,
        file_scores: None,
        hotspots: None,
        targets: None,
        since: None,
        min_commits: None,
        workspace: None,
        production: None,
        save_snapshot: None,
        ..Default::default()
    };
    let args = build_health_args(&params);
    assert_eq!(
        args,
        [
            "health",
            "--format",
            "json",
            "--quiet",
            "--explain",
            "--max-cyclomatic",
            "10",
            "--sort",
            "cyclomatic",
        ]
    );
}

// ── All tools produce --format json --quiet ───────────────────────

#[test]
fn all_arg_builders_include_format_json_and_quiet() {
    let analyze = build_analyze_args(&AnalyzeParams {
        root: None,
        config: None,
        production: None,
        workspace: None,
        issue_types: None,
        ..Default::default()
    })
    .unwrap();

    let check_changed = build_check_changed_args(CheckChangedParams {
        root: None,
        since: "main".to_string(),
        config: None,
        production: None,
        workspace: None,
        ..Default::default()
    });

    let dupes = build_find_dupes_args(&FindDupesParams {
        root: None,
        mode: None,
        min_tokens: None,
        min_lines: None,
        threshold: None,
        skip_local: None,
        cross_language: None,
        top: None,
        ..Default::default()
    })
    .unwrap();

    let fix_preview = build_fix_preview_args(&FixParams {
        root: None,
        config: None,
        production: None,
        ..Default::default()
    });

    let fix_apply = build_fix_apply_args(&FixParams {
        root: None,
        config: None,
        production: None,
        ..Default::default()
    });

    let project_info = build_project_info_args(&ProjectInfoParams {
        root: None,
        config: None,
        ..Default::default()
    });

    let health = build_health_args(&HealthParams {
        root: None,
        max_cyclomatic: None,
        max_cognitive: None,
        top: None,
        sort: None,
        changed_since: None,
        complexity: None,
        file_scores: None,
        hotspots: None,
        targets: None,
        since: None,
        min_commits: None,
        workspace: None,
        production: None,
        save_snapshot: None,
        ..Default::default()
    });

    for (name, args) in [
        ("analyze", &analyze),
        ("check_changed", &check_changed),
        ("find_dupes", &dupes),
        ("fix_preview", &fix_preview),
        ("fix_apply", &fix_apply),
        ("project_info", &project_info),
        ("health", &health),
    ] {
        assert!(
            args.contains(&"--format".to_string()),
            "{name} missing --format"
        );
        assert!(args.contains(&"json".to_string()), "{name} missing json");
        assert!(
            args.contains(&"--quiet".to_string()),
            "{name} missing --quiet"
        );
    }
}

// ── Correct subcommand for each tool ──────────────────────────────

#[test]
fn each_tool_uses_correct_subcommand() {
    let analyze = build_analyze_args(&AnalyzeParams {
        root: None,
        config: None,
        production: None,
        workspace: None,
        issue_types: None,
        ..Default::default()
    })
    .unwrap();
    assert_eq!(analyze[0], "dead-code");

    let changed = build_check_changed_args(CheckChangedParams {
        root: None,
        since: "x".to_string(),
        config: None,
        production: None,
        workspace: None,
        ..Default::default()
    });
    assert_eq!(changed[0], "dead-code");

    let dupes = build_find_dupes_args(&FindDupesParams {
        root: None,
        mode: None,
        min_tokens: None,
        min_lines: None,
        threshold: None,
        skip_local: None,
        cross_language: None,
        top: None,
        ..Default::default()
    })
    .unwrap();
    assert_eq!(dupes[0], "dupes");

    let preview = build_fix_preview_args(&FixParams {
        root: None,
        config: None,
        production: None,
        ..Default::default()
    });
    assert_eq!(preview[0], "fix");

    let apply = build_fix_apply_args(&FixParams {
        root: None,
        config: None,
        production: None,
        ..Default::default()
    });
    assert_eq!(apply[0], "fix");

    let info = build_project_info_args(&ProjectInfoParams {
        root: None,
        config: None,
        ..Default::default()
    });
    assert_eq!(info[0], "list");

    let health = build_health_args(&HealthParams {
        root: None,
        max_cyclomatic: None,
        max_cognitive: None,
        top: None,
        sort: None,
        changed_since: None,
        complexity: None,
        file_scores: None,
        hotspots: None,
        targets: None,
        since: None,
        min_commits: None,
        workspace: None,
        production: None,
        save_snapshot: None,
        ..Default::default()
    });
    assert_eq!(health[0], "health");
}

// ── Explain flag presence ────────────────────────────────────────

#[test]
fn tools_with_explain_include_flag() {
    let analyze = build_analyze_args(&AnalyzeParams {
        root: None,
        config: None,
        production: None,
        workspace: None,
        issue_types: None,
        ..Default::default()
    })
    .unwrap();
    assert!(
        analyze.contains(&"--explain".to_string()),
        "analyze should include --explain"
    );

    let check_changed = build_check_changed_args(CheckChangedParams {
        root: None,
        since: "main".to_string(),
        config: None,
        production: None,
        workspace: None,
        ..Default::default()
    });
    assert!(
        check_changed.contains(&"--explain".to_string()),
        "check_changed should include --explain"
    );

    let dupes = build_find_dupes_args(&FindDupesParams {
        root: None,
        mode: None,
        min_tokens: None,
        min_lines: None,
        threshold: None,
        skip_local: None,
        cross_language: None,
        top: None,
        ..Default::default()
    })
    .unwrap();
    assert!(
        dupes.contains(&"--explain".to_string()),
        "find_dupes should include --explain"
    );

    let health = build_health_args(&HealthParams {
        root: None,
        max_cyclomatic: None,
        max_cognitive: None,
        top: None,
        sort: None,
        changed_since: None,
        complexity: None,
        file_scores: None,
        hotspots: None,
        targets: None,
        since: None,
        min_commits: None,
        workspace: None,
        production: None,
        save_snapshot: None,
        ..Default::default()
    });
    assert!(
        health.contains(&"--explain".to_string()),
        "health should include --explain"
    );
}

#[test]
fn fix_tools_do_not_include_explain() {
    let preview = build_fix_preview_args(&FixParams {
        root: None,
        config: None,
        production: None,
        ..Default::default()
    });
    assert!(
        !preview.contains(&"--explain".to_string()),
        "fix_preview should not include --explain"
    );

    let apply = build_fix_apply_args(&FixParams {
        root: None,
        config: None,
        production: None,
        ..Default::default()
    });
    assert!(
        !apply.contains(&"--explain".to_string()),
        "fix_apply should not include --explain"
    );
}

#[test]
fn project_info_does_not_include_explain() {
    let args = build_project_info_args(&ProjectInfoParams {
        root: None,
        config: None,
        ..Default::default()
    });
    assert!(
        !args.contains(&"--explain".to_string()),
        "project_info should not include --explain"
    );
}


// ── Edge cases: special characters in arguments ───────────────────

#[test]
fn analyze_args_with_spaces_in_paths() {
    let params = AnalyzeParams {
        root: Some("/path/with spaces/project".to_string()),
        config: Some("my config.json".to_string()),
        workspace: Some("my package".to_string()),
        ..Default::default()
    };
    let args = build_analyze_args(&params).unwrap();
    assert!(args.contains(&"/path/with spaces/project".to_string()));
    assert!(args.contains(&"my config.json".to_string()));
    assert!(args.contains(&"my package".to_string()));
}

#[test]
fn check_changed_args_with_special_ref() {
    let params = CheckChangedParams {
        since: "origin/feature/my-branch".to_string(),
        root: None,
        config: None,
        production: None,
        workspace: None,
        baseline: None,
        save_baseline: None,
        no_cache: None,
        threads: None,
        ..Default::default()
    };
    let args = build_check_changed_args(params);
    assert!(args.contains(&"origin/feature/my-branch".to_string()));
}

#[test]
fn health_args_boundary_values() {
    let params = HealthParams {
        max_cyclomatic: Some(0),
        max_cognitive: Some(u16::MAX),
        top: Some(0),
        ..Default::default()
    };
    let args = build_health_args(&params);
    assert!(args.contains(&"0".to_string()));
    assert!(args.contains(&"65535".to_string()));
}

#[test]
fn health_args_file_scores_flag() {
    let params = HealthParams {
        file_scores: Some(true),
        ..Default::default()
    };
    let args = build_health_args(&params);
    assert!(args.contains(&"--file-scores".to_string()));
}

// ── Additional arg builder coverage: boolean false omission ───────

#[test]
fn check_changed_args_production_false_is_omitted() {
    let params = CheckChangedParams {
        since: "main".to_string(),
        production: Some(false),
        root: None,
        config: None,
        workspace: None,
        baseline: None,
        save_baseline: None,
        no_cache: None,
        threads: None,
        ..Default::default()
    };
    let args = build_check_changed_args(params);
    assert!(!args.contains(&"--production".to_string()));
}

#[test]
fn find_dupes_args_cross_language_false_is_omitted() {
    let params = FindDupesParams {
        cross_language: Some(false),
        ..Default::default()
    };
    let args = build_find_dupes_args(&params).unwrap();
    assert!(!args.contains(&"--cross-language".to_string()));
}

#[test]
fn fix_preview_args_production_false_is_omitted() {
    let params = FixParams {
        production: Some(false),
        ..Default::default()
    };
    let args = build_fix_preview_args(&params);
    assert!(!args.contains(&"--production".to_string()));
}

#[test]
fn fix_apply_args_production_false_is_omitted() {
    let params = FixParams {
        production: Some(false),
        ..Default::default()
    };
    let args = build_fix_apply_args(&params);
    assert!(!args.contains(&"--production".to_string()));
}

#[test]
fn health_args_boolean_flags_false_are_omitted() {
    let params = HealthParams {
        complexity: Some(false),
        file_scores: Some(false),
        hotspots: Some(false),
        production: Some(false),
        no_cache: Some(false),
        ..Default::default()
    };
    let args = build_health_args(&params);
    assert!(!args.contains(&"--complexity".to_string()));
    assert!(!args.contains(&"--file-scores".to_string()));
    assert!(!args.contains(&"--hotspots".to_string()));
    assert!(!args.contains(&"--production".to_string()));
    assert!(!args.contains(&"--no-cache".to_string()));
}

// ── Additional arg builder coverage: isolated optional params ─────

#[test]
fn health_args_complexity_flag_only() {
    let params = HealthParams {
        complexity: Some(true),
        ..Default::default()
    };
    let args = build_health_args(&params);
    assert!(args.contains(&"--complexity".to_string()));
    assert!(!args.contains(&"--file-scores".to_string()));
    assert!(!args.contains(&"--hotspots".to_string()));
}

#[test]
fn health_args_hotspots_flag_only() {
    let params = HealthParams {
        hotspots: Some(true),
        ..Default::default()
    };
    let args = build_health_args(&params);
    assert!(args.contains(&"--hotspots".to_string()));
    assert!(!args.contains(&"--complexity".to_string()));
    assert!(!args.contains(&"--file-scores".to_string()));
}

#[test]
fn health_args_since_and_min_commits() {
    let params = HealthParams {
        since: Some("90d".to_string()),
        min_commits: Some(10),
        ..Default::default()
    };
    let args = build_health_args(&params);
    assert!(args.contains(&"--since".to_string()));
    assert!(args.contains(&"90d".to_string()));
    assert!(args.contains(&"--min-commits".to_string()));
    assert!(args.contains(&"10".to_string()));
}

#[test]
fn health_args_workspace_and_production() {
    let params = HealthParams {
        workspace: Some("@scope/pkg".to_string()),
        production: Some(true),
        ..Default::default()
    };
    let args = build_health_args(&params);
    assert!(args.contains(&"--workspace".to_string()));
    assert!(args.contains(&"@scope/pkg".to_string()));
    assert!(args.contains(&"--production".to_string()));
}

#[test]
fn find_dupes_args_individual_numeric_params() {
    let params = FindDupesParams {
        min_tokens: Some(75),
        ..Default::default()
    };
    let args = build_find_dupes_args(&params).unwrap();
    assert!(args.contains(&"--min-tokens".to_string()));
    assert!(args.contains(&"75".to_string()));
    assert!(!args.contains(&"--min-lines".to_string()));
    assert!(!args.contains(&"--threshold".to_string()));
    assert!(!args.contains(&"--top".to_string()));
}

#[test]
fn find_dupes_args_top_only() {
    let params = FindDupesParams {
        top: Some(3),
        ..Default::default()
    };
    let args = build_find_dupes_args(&params).unwrap();
    assert!(args.contains(&"--top".to_string()));
    assert!(args.contains(&"3".to_string()));
}

#[test]
fn check_changed_args_only_root() {
    let params = CheckChangedParams {
        root: Some("/workspace".to_string()),
        since: "HEAD~1".to_string(),
        config: None,
        production: None,
        workspace: None,
        baseline: None,
        save_baseline: None,
        no_cache: None,
        threads: None,
        ..Default::default()
    };
    let args = build_check_changed_args(params);
    assert!(args.contains(&"--root".to_string()));
    assert!(args.contains(&"/workspace".to_string()));
    assert!(!args.contains(&"--config".to_string()));
    assert!(!args.contains(&"--production".to_string()));
    assert!(!args.contains(&"--workspace".to_string()));
}

#[test]
fn project_info_args_only_root() {
    let params = ProjectInfoParams {
        root: Some("/app".to_string()),
        ..Default::default()
    };
    let args = build_project_info_args(&params);
    assert!(args.contains(&"--root".to_string()));
    assert!(args.contains(&"/app".to_string()));
    assert!(!args.contains(&"--config".to_string()));
}

#[test]
fn project_info_args_only_config() {
    let params = ProjectInfoParams {
        config: Some(".fallowrc.json".to_string()),
        ..Default::default()
    };
    let args = build_project_info_args(&params);
    assert!(args.contains(&"--config".to_string()));
    assert!(args.contains(&".fallowrc.json".to_string()));
    assert!(!args.contains(&"--root".to_string()));
}

// ── Global flags: baseline and threads in isolation ───────────────

#[test]
fn analyze_args_baseline_only() {
    let params = AnalyzeParams {
        baseline: Some("baseline.json".to_string()),
        ..Default::default()
    };
    let args = build_analyze_args(&params).unwrap();
    assert!(args.contains(&"--baseline".to_string()));
    assert!(args.contains(&"baseline.json".to_string()));
    assert!(!args.contains(&"--save-baseline".to_string()));
}

#[test]
fn analyze_args_threads_only() {
    let params = AnalyzeParams {
        threads: Some(16),
        ..Default::default()
    };
    let args = build_analyze_args(&params).unwrap();
    assert!(args.contains(&"--threads".to_string()));
    assert!(args.contains(&"16".to_string()));
}

#[test]
fn find_dupes_args_config_and_workspace() {
    let params = FindDupesParams {
        config: Some("custom.toml".to_string()),
        workspace: Some("libs/core".to_string()),
        ..Default::default()
    };
    let args = build_find_dupes_args(&params).unwrap();
    assert!(args.contains(&"--config".to_string()));
    assert!(args.contains(&"custom.toml".to_string()));
    assert!(args.contains(&"--workspace".to_string()));
    assert!(args.contains(&"libs/core".to_string()));
}

#[test]
fn fix_args_workspace_only() {
    let params = FixParams {
        workspace: Some("@my/pkg".to_string()),
        ..Default::default()
    };
    let preview = build_fix_preview_args(&params);
    assert!(preview.contains(&"--workspace".to_string()));
    assert!(preview.contains(&"@my/pkg".to_string()));

    let apply = build_fix_apply_args(&params);
    assert!(apply.contains(&"--workspace".to_string()));
    assert!(apply.contains(&"@my/pkg".to_string()));
}

#[test]
fn health_args_config_only() {
    let params = HealthParams {
        config: Some("health.toml".to_string()),
        ..Default::default()
    };
    let args = build_health_args(&params);
    assert!(args.contains(&"--config".to_string()));
    assert!(args.contains(&"health.toml".to_string()));
}

#[test]
fn health_args_baseline_and_save_baseline() {
    let params = HealthParams {
        baseline: Some("old.json".to_string()),
        save_baseline: Some("new.json".to_string()),
        ..Default::default()
    };
    let args = build_health_args(&params);
    assert!(args.contains(&"--baseline".to_string()));
    assert!(args.contains(&"old.json".to_string()));
    assert!(args.contains(&"--save-baseline".to_string()));
    assert!(args.contains(&"new.json".to_string()));
}


#[test]
fn issue_type_flags_are_complete() {
    assert_eq!(ISSUE_TYPE_FLAGS.len(), 10);
    for &(name, flag) in ISSUE_TYPE_FLAGS.iter() {
        assert!(
            flag.starts_with("--"),
            "flag for {name} should start with --"
        );
    }
}


#[test]
fn fix_apply_is_the_preview_confirmed() {
    let params = FixParams {
        root: Some("/p".to_string()),
        config: None,
        production: Some(true),
        workspace: Some("web".to_string()),
        no_cache: None,
        threads: Some(4),
    };
    let mut preview = build_fix_preview_args(&params);
    assert_eq!(preview[1], "--dry-run");
    preview[1] = "--yes".to_string();
    assert_eq!(build_fix_apply_args(&params), preview);
}
