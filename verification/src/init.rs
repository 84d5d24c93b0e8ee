//! `fallow init`: which configuration file to write, and with what.
use vstd::prelude::*;

verus! {

/// The configuration files whose presence makes `init` refuse, in the order
/// in which they are looked for.
pub const EXISTING_CONFIG_NAMES: [&'static str; 3] = [".fallowrc.json", "fallow.toml", ".fallow.toml"];

/// The JSON configuration that `init` writes by default.
pub const DEFAULT_JSON_CONFIG: &'static str = "{\n  \"$schema\": \"https://raw.githubusercontent.com/fallow-rs/fallow/main/schema.json\",\n  \"rules\": {}\n}\n";

/// The TOML configuration that `init` writes when asked for TOML.
pub const DEFAULT_TOML_CONFIG: &'static str = "# fallow.toml - Codebase analysis configuration
# See https://docs.fallow.tools for documentation

# Additional entry points (beyond auto-detected ones)
# entry = [\"src/workers/*.ts\"]

# Patterns to ignore
# ignorePatterns = [\"**/*.generated.ts\"]

# Dependencies to ignore (always considered used)
# ignoreDependencies = [\"autoprefixer\"]

# Per-issue-type severity: \"error\" (fail CI), \"warn\" (report only), \"off\" (ignore)
# All default to \"error\" when omitted.
# [rules]
# unused-files = \"error\"
# unused-exports = \"warn\"
# unused-types = \"off\"
# unresolved-imports = \"error\"
";

/// What `init` does.
#[derive(Debug, PartialEq, Eq)]
pub enum InitPlan {
    /// A configuration file of this name exists already: nothing is written.
    AlreadyExists(&'static str),
    /// Write this file at the project root.
    Write { file_name: &'static str, contents: &'static str },
}

/// The first configuration file that exists, by the order of
/// [`EXISTING_CONFIG_NAMES`] (`exists[k]` tells whether the k-th does).
pub open spec fn first_existing(exists: [bool; 3]) -> Option<int> {
    if exists[0] {
        Some(0)
    } else if exists[1] {
        Some(1)
    } else if exists[2] {
        Some(2)
    } else {
        None
    }
}

/// Decide what `init` does: refuse when a configuration file exists
/// already, else write the TOML configuration to `fallow.toml` when asked
/// for TOML and the JSON one to `.fallowrc.json` otherwise.
pub fn plan_init(exists: [bool; 3], use_toml: bool) -> (r: InitPlan)
    ensures
        match first_existing(exists) {
            Some(k) => r == InitPlan::AlreadyExists(EXISTING_CONFIG_NAMES[k]),
            None => if use_toml {
                r == (InitPlan::Write { file_name: "fallow.toml", contents: DEFAULT_TOML_CONFIG })
            } else {
                r == (InitPlan::Write { file_name: ".fallowrc.json", contents: DEFAULT_JSON_CONFIG })
            },
        },
{
    let mut k: usize = 0;
    while k < 3
        invariant
            k <= 3,
            forall|q: int| 0 <= q < k ==> !exists[q],
        decreases 3 - k,
    {
        if exists[k] {
            return InitPlan::AlreadyExists(EXISTING_CONFIG_NAMES[k]);
        }
        k = k + 1;
    }
    if use_toml {
        InitPlan::Write { file_name: "fallow.toml", contents: DEFAULT_TOML_CONFIG }
    } else {
        InitPlan::Write { file_name: ".fallowrc.json", contents: DEFAULT_JSON_CONFIG }
    }
}

} // verus!
