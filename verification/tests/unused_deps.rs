use fallow::unused_deps::{find_dep_line_in_json, is_builtin_module, is_implicit_dependency, is_path_alias};


    #[test]
    fn builtin_module_subpaths() {
        assert!(is_builtin_module("fs/promises"));
        assert!(is_builtin_module(
            "stream/consumers"
        ));
        assert!(is_builtin_module(
            "node:fs/promises"
        ));
        assert!(is_builtin_module(
            "readline/promises"
        ));
    }

    #[test]
    fn builtin_module_cloudflare_workers() {
        assert!(is_builtin_module(
            "cloudflare:workers"
        ));
        assert!(is_builtin_module(
            "cloudflare:sockets"
        ));
    }

    #[test]
    fn builtin_module_deno_std() {
        assert!(is_builtin_module("std"));
        assert!(is_builtin_module("std/path"));
    }

    // ---- is_implicit_dependency tests (used in find_unused_dependencies) ----

    #[test]
    fn implicit_dep_react_dom() {
        assert!(is_implicit_dependency(
            "react-dom"
        ));
        assert!(is_implicit_dependency(
            "react-dom/client"
        ));
    }

    #[test]
    fn implicit_dep_next_packages() {
        assert!(is_implicit_dependency(
            "@next/font"
        ));
        assert!(is_implicit_dependency(
            "@next/mdx"
        ));
        assert!(is_implicit_dependency(
            "@next/bundle-analyzer"
        ));
        assert!(is_implicit_dependency(
            "@next/env"
        ));
    }

    #[test]
    fn implicit_dep_websocket_addons() {
        assert!(is_implicit_dependency(
            "utf-8-validate"
        ));
        assert!(is_implicit_dependency(
            "bufferutil"
        ));
    }

    // ---- is_path_alias tests (used in find_unlisted_dependencies) ----

    #[test]
    fn path_alias_not_reported_as_unlisted() {
        // These should be detected as path aliases and skipped
        assert!(is_path_alias("@/components/Foo"));
        assert!(is_path_alias("~/utils/helper"));
        assert!(is_path_alias("#internal/auth"));
        assert!(is_path_alias(
            "@Components/Button"
        ));
    }

    #[test]
    fn scoped_npm_packages_not_path_aliases() {
        assert!(!is_path_alias("@angular/core"));
        assert!(!is_path_alias("@emotion/react"));
        assert!(!is_path_alias("@nestjs/common"));
    }

    // ---- find_dep_line_in_json tests ----

    #[test]
    fn find_dep_line_finds_dependency_key() {
        let content = r#"{
  "name": "my-app",
  "dependencies": {
    "react": "^18.0.0",
    "lodash": "^4.17.21"
  }
}"#;
        assert_eq!(find_dep_line_in_json(content, "lodash"), 5);
        assert_eq!(find_dep_line_in_json(content, "react"), 4);
    }

    #[test]
    fn find_dep_line_returns_1_when_not_found() {
        let content = r#"{ "dependencies": {} }"#;
        assert_eq!(find_dep_line_in_json(content, "missing"), 1);
    }

    #[test]
    fn find_dep_line_handles_scoped_packages() {
        let content = r#"{
  "devDependencies": {
    "@typescript-eslint/parser": "^6.0.0"
  }
}"#;
        assert_eq!(
            find_dep_line_in_json(content, "@typescript-eslint/parser"),
            3
        );
    }

    #[test]
    fn find_dep_line_skips_line_comments() {
        let content = r#"{
  // "lodash": "old version",
  "dependencies": {
    "lodash": "^4.17.21"
  }
}"#;
        assert_eq!(find_dep_line_in_json(content, "lodash"), 4);
    }

    #[test]
    fn find_dep_line_skips_block_comments() {
        let content = r#"{
  /* "lodash": "old" */
  "dependencies": {
    "lodash": "^4.17.21"
  }
}"#;
        assert_eq!(find_dep_line_in_json(content, "lodash"), 4);
    }

    // ---- find_dep_line_in_json: multi-line block comment coverage ----

    #[test]
    fn find_dep_line_skips_multiline_block_comment() {
        let content = r#"{
  /*
    "lodash": "commented out",
    "react": "also commented"
  */
  "dependencies": {
    "lodash": "^4.17.21"
  }
}"#;
        // "lodash" inside the multi-line block comment is skipped; real one is on line 7
        assert_eq!(find_dep_line_in_json(content, "lodash"), 7);
    }

    #[test]
    fn find_dep_line_after_block_comment_end_on_same_line() {
        // Single-line block comment: the remainder after `*/` is scanned for the dep key.
        let content = r#"{
  /* comment */ "lodash": "^4.17.21"
}"#;
        assert_eq!(find_dep_line_in_json(content, "lodash"), 2);
    }

    #[test]
    fn find_dep_line_dep_inside_and_after_block_comment() {
        // The dep name appears inside the comment AND as a real key after it.
        // Must match the post-comment occurrence, not the in-comment one.
        let content = "{\n  /* \"lodash\": \"old\" */ \"lodash\": \"^4.17.21\"\n}";
        assert_eq!(find_dep_line_in_json(content, "lodash"), 2);
    }

    #[test]
    fn find_dep_line_minimal_block_comment() {
        // Minimal block comment `/**/` followed by a dep key.
        let content = "{\n  /**/ \"lodash\": \"^4.17.21\"\n}";
        assert_eq!(find_dep_line_in_json(content, "lodash"), 2);
    }

    #[test]
    fn find_dep_line_multiline_block_comment_end_with_dep_on_remainder() {
        // Tests the branch where a multi-line block comment ends and the dep key
        // appears on the remainder of the same line after "*/"
        let content = "{\n  /* start of comment\n  end */ \"lodash\": \"^4.17.21\"\n}";
        // Line 1: {
        // Line 2: /* start of comment    <-- sets in_block_comment = true
        // Line 3: end */ "lodash": "^4.17.21"  <-- comment ends, remainder has dep
        assert_eq!(find_dep_line_in_json(content, "lodash"), 3);
    }

    #[test]
    fn find_dep_line_block_comment_end_without_dep_on_remainder() {
        // Block comment ends but the remainder does NOT have the dep key
        let content =
            "{\n  /* start\n  end */ \"other\": \"1.0.0\",\n  \"lodash\": \"^4.17.21\"\n}";
        // The dep "lodash" is on line 4, after the block comment ends on line 3
        assert_eq!(find_dep_line_in_json(content, "lodash"), 4);
    }

    #[test]
    fn find_dep_line_value_not_key_is_not_matched() {
        // "lodash" appears as a VALUE, not a key -- should not match
        let content = r#"{
  "dependencies": {
    "my-lodash-wrapper": "lodash"
  }
}"#;
        // "lodash" appears in the value but NOT as a key (not followed by ":")
        // "my-lodash-wrapper" IS a key.
        assert_eq!(find_dep_line_in_json(content, "lodash"), 1);
        assert_eq!(find_dep_line_in_json(content, "my-lodash-wrapper"), 3);
    }

    #[test]
    fn find_dep_line_empty_content() {
        assert_eq!(find_dep_line_in_json("", "lodash"), 1);
    }

    #[test]
    fn find_dep_line_multiple_dep_sections() {
        let content = r#"{
  "dependencies": {
    "react": "^18.0.0"
  },
  "devDependencies": {
    "react": "^18.0.0"
  }
}"#;
        // Should find the FIRST occurrence (line 3)
        assert_eq!(find_dep_line_in_json(content, "react"), 3);
    }

