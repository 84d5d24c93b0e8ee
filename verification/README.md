# fallow

A dead-code and dependency analyzer for JavaScript and TypeScript projects,
whose analysis core is verified with Verus.

## Layout

- `src/` — the verified library. Every function carries a contract that
  Verus proves; calls into outside crates (regex, globset, fixedbitset) go
  through a few trusted wrappers whose contracts state what those crates
  document.
  - `discover`, `graph`, `resolve`, `analysis`, `dependency_usage`,
    `unused_deps`: entry points, the module graph and its reachability,
    unused files, exports, members, dependencies, unlisted dependencies,
    unresolved imports, duplicate exports, and the whole run (`analyze`).
  - `cache`: the module cache and its stored form.
  - `baseline`, `check`, `watch`, `init`, `migrate`, `fix`: the command-line
    commands' decisions (baselines, changed files, exit codes, watch steps,
    the default configuration, knip configuration migration, taking unused
    dependencies out of package.json).
  - `diagnostics`, `scoping`, `source_edit`: editor diagnostics, quick fixes
    and the removal of unused `export` keywords.
  - `health`, `health_types`: complexity findings.
  - `coverage`, `setup_flow`, `api`: production-coverage onboarding, its
    setup steps, and the cloud API's messages and URLs.
  - `sfc_scan`, `sfc_pattern`, `sfc_template`: template scanning for Vue and
    Svelte single-file components.
  - `plugins`, `workspace`, `mcp_args`, `similar_code`, `text`,
    `regex_support`: plugins, monorepo workspaces, MCP tool arguments,
    similar-code types, and string helpers.
- `tests/` — tests of the library.
- `app/` — the `fallow` command line and language server: argument handling,
  file system, git, watching and editor I/O around the library.
