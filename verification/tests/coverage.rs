use fallow::coverage::{
    CoverageSetupContext, FrameworkKind, Lockfiles, PackageManager, PackageManifest,
    detect_framework, detect_package_manager, display_relative, package_manager_from_field,
    recipe_contents,
};

#[test]
fn detect_framework_recognizes_nuxt_projects() {
    let package_json = PackageManifest {
        name: Some("demo".to_string()),
        dependency_names: vec!["nuxt".to_string()],
        script_names: vec![],
    };
    assert_eq!(detect_framework(Some(&package_json)), FrameworkKind::Nuxt);
}

#[test]
fn detect_package_manager_prefers_package_manager_field() {
    let from_field = package_manager_from_field("bun@1.2.0");
    let lockfiles = Lockfiles { pnpm_lock: true, ..Default::default() };
    assert_eq!(detect_package_manager(from_field, lockfiles), Some(PackageManager::Bun));
}

    #[test]
    fn recipe_contents_uses_detected_package_manager_scripts() {
        let context = CoverageSetupContext {
            framework: FrameworkKind::SvelteKit,
            package_manager: Some(PackageManager::Pnpm),
            has_build_script: true,
            has_start_script: false,
            has_preview_script: true,
        };

        let recipe = recipe_contents(&context);

        assert!(recipe.contains("`pnpm build`"));
        assert!(recipe.contains("`NODE_V8_COVERAGE=./coverage pnpm preview`"));
    }

    #[test]
    fn recipe_contents_mentions_upload_inventory_ci_step() {
        let context = CoverageSetupContext {
            framework: FrameworkKind::SvelteKit,
            package_manager: Some(PackageManager::Pnpm),
            has_build_script: true,
            has_start_script: false,
            has_preview_script: true,
        };
        let recipe = recipe_contents(&context);
        // Without this line the trial user finishes setup, wires the beacon,
        // and has no idea the dashboard's Untracked filter needs a second
        // CI step. Regression test for BLOCK 2 from the public-readiness
        // panel (2026-04-22).
        assert!(
            recipe.contains("fallow coverage upload-inventory"),
            "recipe missing upload-inventory CI instruction:\n{recipe}"
        );
        assert!(recipe.contains("FALLOW_API_KEY"));
    }

    #[test]
    fn recipe_contents_mentions_upload_inventory_without_build_script() {
        let context = CoverageSetupContext {
            framework: FrameworkKind::PlainNode,
            package_manager: Some(PackageManager::Npm),
            has_build_script: false,
            has_start_script: false,
            has_preview_script: false,
        };
        let recipe = recipe_contents(&context);
        assert!(recipe.contains("fallow coverage upload-inventory"));
    }

