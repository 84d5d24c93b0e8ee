//! Production-coverage onboarding: detecting the project shape and writing
//! the collection recipe.
use vstd::prelude::*;

use crate::text::{join, join_strs, push_str, str_chars, str_eq, str_views, to_owned_string, starts_with};

verus! {

/// Documentation page for production coverage.
pub const COVERAGE_DOCS_URL: &'static str = "https://docs.fallow.tools/analysis/production-coverage";

/// Subcommands for `fallow coverage`.
#[derive(Debug, Clone)]
pub enum CoverageSubcommand {
    /// Resumable first-run setup flow.
    Setup(SetupArgs),
    /// Upload a static function inventory to fallow cloud.
    UploadInventory,
}

/// Arguments for `fallow coverage setup`.
#[derive(Debug, Clone, Copy, Default)]
pub struct SetupArgs {
    /// Accept all prompts automatically.
    pub yes: bool,
    /// Print instructions instead of prompting.
    pub non_interactive: bool,
}

/// The application framework a project is built on.
#[derive(Debug, Clone, Copy, PartialEq, Eq, Structural)]
pub enum FrameworkKind {
    NextJs,
    NestJs,
    Nuxt,
    SvelteKit,
    Astro,
    Remix,
    PlainNode,
    Other,
}

impl FrameworkKind {
    /// How the project is described to the user.
    pub fn label(self) -> (r: &'static str)
        ensures
            r@ == match self {
                Self::NextJs => "Next.js project"@,
                Self::NestJs => "NestJS project"@,
                Self::Nuxt => "Nuxt app"@,
                Self::SvelteKit => "SvelteKit app"@,
                Self::Astro => "Astro app"@,
                Self::Remix => "Remix app"@,
                Self::PlainNode => "Node service"@,
                Self::Other => "custom project"@,
            },
    {
        match self {
            Self::NextJs => "Next.js project",
            Self::NestJs => "NestJS project",
            Self::Nuxt => "Nuxt app",
            Self::SvelteKit => "SvelteKit app",
            Self::Astro => "Astro app",
            Self::Remix => "Remix app",
            Self::PlainNode => "Node service",
            Self::Other => "custom project",
        }
    }
}

/// The package manager a project uses.
#[derive(Debug, Clone, Copy, PartialEq, Eq, Structural)]
pub enum PackageManager {
    Npm,
    Pnpm,
    Yarn,
    Bun,
}

pub open spec fn pm_program(pm: PackageManager) -> Seq<char> {
    match pm {
        PackageManager::Npm => "npm"@,
        PackageManager::Pnpm => "pnpm"@,
        PackageManager::Yarn => "yarn"@,
        PackageManager::Bun => "bun"@,
    }
}

pub open spec fn pm_install_args(pm: PackageManager) -> Seq<Seq<char>> {
    match pm {
        PackageManager::Npm => seq!["install"@, "--save-dev"@, "@fallow-cli/fallow-cov"@],
        PackageManager::Pnpm => seq!["add"@, "-D"@, "@fallow-cli/fallow-cov"@],
        PackageManager::Yarn => seq!["add"@, "-D"@, "@fallow-cli/fallow-cov"@],
        PackageManager::Bun => seq!["add"@, "-d"@, "@fallow-cli/fallow-cov"@],
    }
}

pub open spec fn run_script_spec(pm: PackageManager, script: Seq<char>) -> Seq<char> {
    match pm {
        PackageManager::Npm => "npm run "@ + script,
        PackageManager::Pnpm => "pnpm "@ + script,
        PackageManager::Yarn => "yarn "@ + script,
        PackageManager::Bun => "bun run "@ + script,
    }
}

pub open spec fn exec_binary_spec(pm: PackageManager, binary: Seq<char>, args: Seq<Seq<char>>) -> Seq<char> {
    let suffix = if args.len() == 0 { seq![] } else { " "@ + join(args, " "@) };
    match pm {
        PackageManager::Npm => "npx "@ + binary + suffix,
        PackageManager::Pnpm => "pnpm exec "@ + binary + suffix,
        PackageManager::Yarn => "yarn "@ + binary + suffix,
        PackageManager::Bun => "bunx "@ + binary + suffix,
    }
}

impl PackageManager {
    /// The package manager's command name.
    pub fn label(self) -> (r: &'static str)
        ensures
            r@ == pm_program(self),
    {
        match self {
            Self::Npm => "npm",
            Self::Pnpm => "pnpm",
            Self::Yarn => "yarn",
            Self::Bun => "bun",
        }
    }

    /// Program and arguments that install the coverage sidecar as a dev dependency.
    pub fn install_args(self) -> (r: (&'static str, Vec<&'static str>))
        ensures
            r.0@ == pm_program(self),
            str_views(r.1@) == pm_install_args(self),
    {
        let r = match self {
            Self::Npm => ("npm", vec!["install", "--save-dev", "@fallow-cli/fallow-cov"]),
            Self::Pnpm => ("pnpm", vec!["add", "-D", "@fallow-cli/fallow-cov"]),
            Self::Yarn => ("yarn", vec!["add", "-D", "@fallow-cli/fallow-cov"]),
            Self::Bun => ("bun", vec!["add", "-d", "@fallow-cli/fallow-cov"]),
        };
        assert(str_views(r.1@) =~= pm_install_args(self));
        r
    }

    /// The install command as one line.
    pub fn install_command(self) -> (r: String)
        ensures
            r@ == pm_program(self) + " "@ + join(pm_install_args(self), " "@),
    {
        let (program, args) = self.install_args();
        let mut r = to_owned_string(program);
        push_str(&mut r, " ");
        let joined = join_strs(args.as_slice(), " ");
        push_str(&mut r, joined.as_str());
        r
    }

    /// The command that runs a package script.
    pub fn run_script(self, script: &str) -> (r: String)
        ensures
            r@ == run_script_spec(self, script@),
    {
        let mut r = match self {
            Self::Npm => to_owned_string("npm run "),
            Self::Pnpm => to_owned_string("pnpm "),
            Self::Yarn => to_owned_string("yarn "),
            Self::Bun => to_owned_string("bun run "),
        };
        push_str(&mut r, script);
        r
    }

    /// The command that runs a locally installed binary with arguments.
    pub fn exec_binary(self, binary: &str, args: &[&str]) -> (r: String)
        ensures
            r@ == exec_binary_spec(self, binary@, str_views(args@)),
    {
        let mut r = match self {
            Self::Npm => to_owned_string("npx "),
            Self::Pnpm => to_owned_string("pnpm exec "),
            Self::Yarn => to_owned_string("yarn "),
            Self::Bun => to_owned_string("bunx "),
        };
        push_str(&mut r, binary);
        if args.len() > 0 {
            push_str(&mut r, " ");
            let joined = join_strs(args, " ");
            push_str(&mut r, joined.as_str());
        }
        proof {
            if args@.len() == 0 {
                assert(r@ =~= r@ + Seq::<char>::empty());
            }
        }
        r
    }
}

/// What setup knows about the project it runs in.
#[derive(Debug, Clone)]
pub struct CoverageSetupContext {
    pub framework: FrameworkKind,
    pub package_manager: Option<PackageManager>,
    pub has_build_script: bool,
    pub has_start_script: bool,
    pub has_preview_script: bool,
}

pub open spec fn runner(c: CoverageSetupContext) -> PackageManager {
    match c.package_manager {
        Some(pm) => pm,
        None => PackageManager::Npm,
    }
}

/// The build command: the `build` script when there is one, else the
/// framework's own build binary (none for NestJS, plain Node and others).
pub open spec fn build_command_spec(c: CoverageSetupContext) -> Option<Seq<char>> {
    let pm = runner(c);
    if c.has_build_script {
        Some(run_script_spec(pm, "build"@))
    } else {
        match c.framework {
            FrameworkKind::NextJs => Some(exec_binary_spec(pm, "next"@, seq!["build"@])),
            FrameworkKind::Nuxt => Some(exec_binary_spec(pm, "nuxi"@, seq!["build"@])),
            FrameworkKind::Astro => Some(exec_binary_spec(pm, "astro"@, seq!["build"@])),
            FrameworkKind::Remix => Some(exec_binary_spec(pm, "remix"@, seq!["build"@])),
            FrameworkKind::SvelteKit => Some(exec_binary_spec(pm, "vite"@, seq!["build"@])),
            _ => None,
        }
    }
}

/// The command that starts the built app.
pub open spec fn run_command_spec(c: CoverageSetupContext) -> Seq<char> {
    let pm = runner(c);
    if c.has_preview_script && (c.framework == FrameworkKind::Nuxt
        || c.framework == FrameworkKind::SvelteKit || c.framework == FrameworkKind::Astro) {
        run_script_spec(pm, "preview"@)
    } else if c.has_start_script {
        run_script_spec(pm, "start"@)
    } else {
        match c.framework {
            FrameworkKind::NextJs => exec_binary_spec(pm, "next"@, seq!["start"@]),
            FrameworkKind::Nuxt => exec_binary_spec(pm, "nuxi"@, seq!["preview"@]),
            FrameworkKind::Astro => exec_binary_spec(pm, "astro"@, seq!["preview"@]),
            FrameworkKind::SvelteKit => exec_binary_spec(pm, "vite"@, seq!["preview"@]),
            FrameworkKind::Remix => "node ./build/index.js"@,
            FrameworkKind::NestJs => "node dist/main.js"@,
            _ => "node dist/server.js"@,
        }
    }
}

impl CoverageSetupContext {
    /// The package manager that runs scripts (npm when none was detected).
    pub fn script_runner(&self) -> (r: PackageManager)
        ensures
            r == runner(*self),
    {
        match self.package_manager {
            Some(pm) => pm,
            None => PackageManager::Npm,
        }
    }

    /// The command that builds the app, if one is known.
    pub fn build_command(&self) -> (r: Option<String>)
        ensures
            match r {
                Some(s) => build_command_spec(*self) == Some(s@),
                None => build_command_spec(*self) is None,
            },
    {
        let pm = self.script_runner();
        if self.has_build_script {
            return Some(pm.run_script("build"));
        }
        let build: [&str; 1] = ["build"];
        proof { assert(str_views(build@) =~= seq!["build"@]); }
        match self.framework {
            FrameworkKind::NextJs => Some(pm.exec_binary("next", &build)),
            FrameworkKind::Nuxt => Some(pm.exec_binary("nuxi", &build)),
            FrameworkKind::Astro => Some(pm.exec_binary("astro", &build)),
            FrameworkKind::Remix => Some(pm.exec_binary("remix", &build)),
            FrameworkKind::SvelteKit => Some(pm.exec_binary("vite", &build)),
            FrameworkKind::NestJs | FrameworkKind::PlainNode | FrameworkKind::Other => None,
        }
    }

    /// The command that runs the built app.
    pub fn run_command(&self) -> (r: String)
        ensures
            r@ == run_command_spec(*self),
    {
        let pm = self.script_runner();
        if self.has_preview_script
            && (self.framework == FrameworkKind::Nuxt || self.framework == FrameworkKind::SvelteKit
                || self.framework == FrameworkKind::Astro)
        {
            return pm.run_script("preview");
        }
        if self.has_start_script {
            return pm.run_script("start");
        }
        let start: [&str; 1] = ["start"];
        let preview: [&str; 1] = ["preview"];
        proof {
            assert(str_views(start@) =~= seq!["start"@]);
            assert(str_views(preview@) =~= seq!["preview"@]);
        }
        match self.framework {
            FrameworkKind::NextJs => pm.exec_binary("next", &start),
            FrameworkKind::Nuxt => pm.exec_binary("nuxi", &preview),
            FrameworkKind::Astro => pm.exec_binary("astro", &preview),
            FrameworkKind::SvelteKit => pm.exec_binary("vite", &preview),
            FrameworkKind::Remix => to_owned_string("node ./build/index.js"),
            FrameworkKind::NestJs => to_owned_string("node dist/main.js"),
            FrameworkKind::PlainNode | FrameworkKind::Other => to_owned_string("node dist/server.js"),
        }
    }
}

/// What a package.json tells setup: the package name, the names of all its
/// dependencies (of every kind) and the names of its scripts.
#[derive(Debug, Clone)]
pub struct PackageManifest {
    pub name: Option<String>,
    pub dependency_names: Vec<String>,
    pub script_names: Vec<String>,
}

pub open spec fn any_dep_eq(deps: Seq<String>, n: Seq<char>) -> bool {
    exists|i: int| 0 <= i < deps.len() && deps[i]@ == n
}

pub open spec fn any_dep_prefix(deps: Seq<String>, p: Seq<char>) -> bool {
    exists|i: int| 0 <= i < deps.len() && starts_with(deps[i]@, p)
}

/// The framework of a project, from the first rule that its dependencies meet.
pub open spec fn detect_framework_spec(pkg: Option<PackageManifest>) -> FrameworkKind {
    match pkg {
        None => FrameworkKind::Other,
        Some(p) => {
            let d = p.dependency_names@;
            if any_dep_eq(d, "next"@) {
                FrameworkKind::NextJs
            } else if any_dep_prefix(d, "@nestjs/"@) {
                FrameworkKind::NestJs
            } else if any_dep_eq(d, "nuxt"@) || any_dep_eq(d, "nuxi"@) {
                FrameworkKind::Nuxt
            } else if any_dep_eq(d, "@sveltejs/kit"@) {
                FrameworkKind::SvelteKit
            } else if any_dep_eq(d, "astro"@) {
                FrameworkKind::Astro
            } else if any_dep_eq(d, "remix"@) || any_dep_prefix(d, "@remix-run/"@) {
                FrameworkKind::Remix
            } else if p.name is Some {
                FrameworkKind::PlainNode
            } else {
                FrameworkKind::Other
            }
        },
    }
}

fn has_dep(deps: &Vec<String>, name: &str) -> (r: bool)
    ensures
        r == any_dep_eq(deps@, name@),
{
    let mut i: usize = 0;
    while i < deps.len()
        invariant
            i <= deps@.len(),
            forall|j: int| 0 <= j < i ==> deps@[j]@ != name@,
        decreases deps.len() - i,
    {
        if str_eq(deps[i].as_str(), name) {
            return true;
        }
        i = i + 1;
    }
    false
}

fn has_dep_prefix(deps: &Vec<String>, prefix: &str) -> (r: bool)
    ensures
        r == any_dep_prefix(deps@, prefix@),
{
    let mut i: usize = 0;
    while i < deps.len()
        invariant
            i <= deps@.len(),
            forall|j: int| 0 <= j < i ==> !starts_with(#[trigger] deps@[j]@, prefix@),
        decreases deps.len() - i,
    {
        if crate::text::str_starts_with(deps[i].as_str(), prefix) {
            return true;
        }
        i = i + 1;
    }
    false
}

/// Detect the framework from the project's package.json.
pub fn detect_framework(package_json: Option<&PackageManifest>) -> (r: FrameworkKind)
    ensures
        r == detect_framework_spec(match package_json { Some(p) => Some(*p), None => None }),
{
    let Some(p) = package_json else {
        return FrameworkKind::Other;
    };
    let d = &p.dependency_names;
    if has_dep(d, "next") {
        FrameworkKind::NextJs
    } else if has_dep_prefix(d, "@nestjs/") {
        FrameworkKind::NestJs
    } else if has_dep(d, "nuxt") || has_dep(d, "nuxi") {
        FrameworkKind::Nuxt
    } else if has_dep(d, "@sveltejs/kit") {
        FrameworkKind::SvelteKit
    } else if has_dep(d, "astro") {
        FrameworkKind::Astro
    } else if has_dep(d, "remix") || has_dep_prefix(d, "@remix-run/") {
        FrameworkKind::Remix
    } else if p.name.is_some() {
        FrameworkKind::PlainNode
    } else {
        FrameworkKind::Other
    }
}

/// The package manager named by a `packageManager` field (`pnpm@9.1.0`):
/// the part before the first `@`, when it is npm, pnpm, yarn or bun.
pub open spec fn pm_from_field_spec(field: Seq<char>) -> Option<PackageManager> {
    let name = crate::unused_deps::segment_before(field, '@');
    if name == "npm"@ { Some(PackageManager::Npm) }
    else if name == "pnpm"@ { Some(PackageManager::Pnpm) }
    else if name == "yarn"@ { Some(PackageManager::Yarn) }
    else if name == "bun"@ { Some(PackageManager::Bun) }
    else { None }
}

/// Parse the package manager from the value of a `packageManager` field.
pub fn package_manager_from_field(field: &str) -> (r: Option<PackageManager>)
    ensures
        r == pm_from_field_spec(field@),
{
    let v = str_chars(field);
    let name = crate::unused_deps::before_char(&v, '@');
    let n = crate::text::string_from_chars(&name);
    if str_eq(n.as_str(), "npm") { Some(PackageManager::Npm) }
    else if str_eq(n.as_str(), "pnpm") { Some(PackageManager::Pnpm) }
    else if str_eq(n.as_str(), "yarn") { Some(PackageManager::Yarn) }
    else if str_eq(n.as_str(), "bun") { Some(PackageManager::Bun) }
    else { None }
}

/// Which lockfiles exist in the project root.
#[derive(Debug, Clone, Copy, Default)]
pub struct Lockfiles {
    pub bun_lockb: bool,
    pub bun_lock: bool,
    pub pnpm_lock: bool,
    pub yarn_lock: bool,
    pub package_lock: bool,
    pub npm_shrinkwrap: bool,
}

/// The package manager: the `packageManager` field wins; otherwise the first
/// lockfile found among bun, pnpm, yarn and npm.
pub open spec fn detect_package_manager_spec(from_field: Option<PackageManager>, l: Lockfiles) -> Option<PackageManager> {
    if from_field is Some {
        from_field
    } else if l.bun_lockb || l.bun_lock {
        Some(PackageManager::Bun)
    } else if l.pnpm_lock {
        Some(PackageManager::Pnpm)
    } else if l.yarn_lock {
        Some(PackageManager::Yarn)
    } else if l.package_lock || l.npm_shrinkwrap {
        Some(PackageManager::Npm)
    } else {
        None
    }
}

/// Decide the package manager from the `packageManager` field and the lockfiles present.
pub fn detect_package_manager(from_field: Option<PackageManager>, lockfiles: Lockfiles) -> (r: Option<PackageManager>)
    ensures
        r == detect_package_manager_spec(from_field, lockfiles),
{
    if from_field.is_some() {
        from_field
    } else if lockfiles.bun_lockb || lockfiles.bun_lock {
        Some(PackageManager::Bun)
    } else if lockfiles.pnpm_lock {
        Some(PackageManager::Pnpm)
    } else if lockfiles.yarn_lock {
        Some(PackageManager::Yarn)
    } else if lockfiles.package_lock || lockfiles.npm_shrinkwrap {
        Some(PackageManager::Npm)
    } else {
        None
    }
}

/// Setup context for a project from its manifest and package manager.
pub fn detect_setup_context(package_json: Option<&PackageManifest>, package_manager: Option<PackageManager>) -> (r: CoverageSetupContext)
    ensures
        r.framework == detect_framework_spec(match package_json { Some(p) => Some(*p), None => None }),
        r.package_manager == package_manager,
        r.has_build_script == (package_json matches Some(p) && any_dep_eq(p.script_names@, "build"@)),
        r.has_start_script == (package_json matches Some(p) && any_dep_eq(p.script_names@, "start"@)),
        r.has_preview_script == (package_json matches Some(p) && any_dep_eq(p.script_names@, "preview"@)),
{
    let framework = detect_framework(package_json);
    let (b, s, pv) = match package_json {
        Some(p) => (has_dep(&p.script_names, "build"), has_dep(&p.script_names, "start"), has_dep(&p.script_names, "preview")),
        None => (false, false, false),
    };
    CoverageSetupContext {
        framework,
        package_manager,
        has_build_script: b,
        has_start_script: s,
        has_preview_script: pv,
    }
}

pub open spec fn recipe_title(f: FrameworkKind) -> Seq<char> {
    match f {
        FrameworkKind::NextJs => "Next.js"@,
        FrameworkKind::NestJs => "NestJS"@,
        FrameworkKind::Nuxt => "Nuxt"@,
        FrameworkKind::SvelteKit => "SvelteKit"@,
        FrameworkKind::Astro => "Astro"@,
        FrameworkKind::Remix => "Remix"@,
        FrameworkKind::PlainNode => "Node service"@,
        FrameworkKind::Other => "custom project"@,
    }
}

/// The closing step that points CI at the inventory upload.
pub open spec fn upload_step(n: Seq<char>) -> Seq<char> {
    n + ". In CI, after the build, run `fallow coverage upload-inventory` with `FALLOW_API_KEY` set. The upload is what enables the dashboard's Untracked filter (functions that exist but runtime coverage never parsed). Runtime coverage alone only answers `called` vs `never_called`; the static inventory adds the third state."@
}

/// The lines of the recipe for a project matched to a framework.
pub open spec fn recipe_lines(c: CoverageSetupContext) -> Seq<Seq<char>> {
    let head = seq!["# Collect production coverage for "@ + recipe_title(c.framework), seq![],
        "1. Remove any old dump directory: `rm -rf ./coverage`"@];
    let start = "NODE_V8_COVERAGE=./coverage "@ + run_command_spec(c) + "`"@;
    match build_command_spec(c) {
        Some(b) => head + seq![
            "2. Build the app: `"@ + b + "`"@,
            "3. Start the app with V8 coverage enabled: `"@ + start,
            "4. Exercise the routes or jobs you care about."@,
            "5. Stop the app and run: `fallow coverage setup`"@,
            upload_step("6"@),
            seq![]],
        None => head + seq![
            "2. Start the app with V8 coverage enabled: `"@ + start,
            "3. Exercise the app traffic you want to analyze."@,
            "4. Stop the process and run: `fallow coverage setup`"@,
            upload_step("5"@),
            seq![]],
    }
}

/// The markdown recipe that explains how to collect coverage for a project.
pub open spec fn recipe_spec(c: CoverageSetupContext) -> Seq<char> {
    if c.framework == FrameworkKind::Other {
        "# Collect production coverage\n\nThis project was not matched to a built-in recipe.\nSee "@
            + COVERAGE_DOCS_URL@ + " for framework-specific instructions.\n"@
    } else {
        join(recipe_lines(c), "\n"@)
    }
}

fn push_line(lines: &mut Vec<String>, s: String)
    ensures
        crate::text::views(final(lines)@) == crate::text::views(old(lines)@).push(s@),
{
    lines.push(s);
    assert(crate::text::views(lines@) =~= crate::text::views(old(lines)@).push(s@));
}

fn join_lines(lines: &Vec<String>) -> (r: String)
    ensures
        r@ == join(crate::text::views(lines@), "\n"@),
{
    let mut r = String::new();
    let mut i: usize = 0;
    while i < lines.len()
        invariant
            i <= lines@.len(),
            r@ == join(crate::text::views(lines@.take(i as int)), "\n"@),
        decreases lines.len() - i,
    {
        let ghost before = r@;
        if i > 0 {
            push_str(&mut r, "\n");
        }
        push_str(&mut r, lines[i].as_str());
        proof {
            let a = crate::text::views(lines@.take(i + 1));
            assert(a.drop_last() =~= crate::text::views(lines@.take(i as int)));
            if i == 0 {
                assert(r@ =~= before + lines@[0]@);
            }
        }
        i = i + 1;
    }
    assert(lines@.take(lines@.len() as int) =~= lines@);
    r
}

fn concat2(a: &str, b: &str) -> (r: String)
    ensures
        r@ == a@ + b@,
{
    let mut r = to_owned_string(a);
    push_str(&mut r, b);
    r
}

fn concat3(a: &str, b: &str, c: &str) -> (r: String)
    ensures
        r@ == a@ + b@ + c@,
{
    let mut r = to_owned_string(a);
    push_str(&mut r, b);
    push_str(&mut r, c);
    r
}

/// The markdown recipe for collecting production coverage.
pub fn recipe_contents(context: &CoverageSetupContext) -> (r: String)
    ensures
        r@ == recipe_spec(*context),
{
    let title = match context.framework {
        FrameworkKind::NextJs => "Next.js",
        FrameworkKind::NestJs => "NestJS",
        FrameworkKind::Nuxt => "Nuxt",
        FrameworkKind::SvelteKit => "SvelteKit",
        FrameworkKind::Astro => "Astro",
        FrameworkKind::Remix => "Remix",
        FrameworkKind::PlainNode => "Node service",
        FrameworkKind::Other => {
            return concat3(
                "# Collect production coverage\n\nThis project was not matched to a built-in recipe.\nSee ",
                COVERAGE_DOCS_URL,
                " for framework-specific instructions.\n",
            );
        },
    };
    let mut lines: Vec<String> = Vec::new();
    push_line(&mut lines, concat2("# Collect production coverage for ", title));
    push_line(&mut lines, String::new());
    push_line(&mut lines, to_owned_string("1. Remove any old dump directory: `rm -rf ./coverage`"));
    let run = context.run_command();
    let start = concat3("NODE_V8_COVERAGE=./coverage ", run.as_str(), "`");
    let ghost head = crate::text::views(lines@);
    match context.build_command() {
        Some(build) => {
            push_line(&mut lines, concat3("2. Build the app: `", build.as_str(), "`"));
            push_line(&mut lines, concat2("3. Start the app with V8 coverage enabled: `", start.as_str()));
            push_line(&mut lines, to_owned_string("4. Exercise the routes or jobs you care about."));
            push_line(&mut lines, to_owned_string("5. Stop the app and run: `fallow coverage setup`"));
            push_line(&mut lines, upload_step_text("6"));
        },
        None => {
            push_line(&mut lines, concat2("2. Start the app with V8 coverage enabled: `", start.as_str()));
            push_line(&mut lines, to_owned_string("3. Exercise the app traffic you want to analyze."));
            push_line(&mut lines, to_owned_string("4. Stop the process and run: `fallow coverage setup`"));
            push_line(&mut lines, upload_step_text("5"));
        },
    }
    push_line(&mut lines, String::new());
    assert(crate::text::views(lines@) =~= recipe_lines(*context));
    join_lines(&lines)
}

fn upload_step_text(n: &str) -> (r: String)
    ensures
        r@ == upload_step(n@),
{
    concat2(n, ". In CI, after the build, run `fallow coverage upload-inventory` with `FALLOW_API_KEY` set. The upload is what enables the dashboard's Untracked filter (functions that exist but runtime coverage never parsed). Runtime coverage alone only answers `called` vs `never_called`; the static inventory adds the third state.")
}

/// `path` shown relative to `root` as `./rest` when `path` lies under `root`
/// (component-wise: equal, or followed by `/`), else `path` unchanged.
pub open spec fn display_relative_spec(root: Seq<char>, path: Seq<char>) -> Seq<char> {
    let r = if root.len() > 1 && root.last() == '/' { root.drop_last() } else { root };
    if path == r {
        "./"@
    } else if starts_with(path, r) && path.len() > r.len() && (path[r.len() as int] == '/' || r == "/"@) {
        let rest = if r == "/"@ { path.skip(1) } else { path.skip(r.len() as int + 1) };
        "./"@ + rest
    } else {
        path
    }
}

/// Show `path` relative to `root` when it lies under it.
pub fn display_relative(root: &str, path: &str) -> (r: String)
    ensures
        r@ == display_relative_spec(root@, path@),
{
    let rv0 = str_chars(root);
    let pv = str_chars(path);
    let rv = if rv0.len() > 1 && rv0[rv0.len() - 1] == '/' {
        crate::text::sub_vec(&rv0, 0, rv0.len() - 1)
    } else {
        crate::text::sub_vec(&rv0, 0, rv0.len())
    };
    proof {
        if rv0@.len() > 1 && rv0@.last() == '/' {
            assert(rv@ =~= rv0@.drop_last());
        } else {
            assert(rv@ =~= rv0@);
        }
    }
    let slash: Vec<char> = vec!['/'];
    assert(slash@ =~= "/"@) by { reveal_strlit("/"); }
    let is_root = crate::text::chars_eq(&rv, &slash);
    if crate::text::chars_eq(&pv, &rv) {
        return to_owned_string("./");
    }
    if crate::text::chars_start_with(&pv, &rv) && pv.len() > rv.len() && (pv[rv.len()] == '/' || is_root) {
        let from = if is_root { 1 } else { rv.len() + 1 };
        let mut r = to_owned_string("./");
        crate::text::push_chars(&mut r, &pv, from, pv.len());
        proof {
            if is_root { assert(pv@.subrange(1, pv@.len() as int) =~= pv@.skip(1)); }
            else { assert(pv@.subrange(rv@.len() as int + 1, pv@.len() as int) =~= pv@.skip(rv@.len() as int + 1)); }
        }
        return r;
    }
    crate::text::string_from_chars(&pv)
}

} // verus!
