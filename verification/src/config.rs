//! Run configuration: the validator naming pattern, the source-file
//! glob, the output path, and the import-resolution switches.

use vstd::prelude::*;

use crate::text::{replace_all, spec_replace};

verus! {

/// Configuration of one generator run. Field defaults mirror
/// [`Config::default`].
pub struct Config {
    /// Naming convention for validator functions; the placeholder
    /// `%(type)` stands for the target interface name.
    pub validator_pattern: String,
    /// Glob over the files that seed traversal.
    pub source_files: String,
    /// Path of the generated validator module.
    pub validator_file: String,
    /// Append `.js` to intra-module import paths in the output.
    pub use_js_extensions: bool,
    /// Follow bare (package) import specifiers during traversal.
    pub follow_external_imports: bool,
    /// Top-level package names whose imports are never followed.
    pub exclude_packages: Vec<String>,
    /// Custom export conditions, tried before the built-in ones.
    pub conditions: Vec<String>,
}

pub fn default_validator_pattern() -> (r: String)
    ensures
        r@ == "validate%(type)"@,
{
    "validate%(type)".to_owned()
}

pub fn default_source_files() -> (r: String)
    ensures
        r@ == "src/**/*.ts"@,
{
    "src/**/*.ts".to_owned()
}

pub fn default_validator_file() -> (r: String)
    ensures
        r@ == "src/validators.ts"@,
{
    "src/validators.ts".to_owned()
}

pub fn default_use_js_extensions() -> (r: bool)
    ensures
        r == false,
{
    false
}

pub fn default_follow_external_imports() -> (r: bool)
    ensures
        r == true,
{
    true
}

impl Default for Config {
    fn default() -> (r: Self)
        ensures
            r.validator_pattern@ == "validate%(type)"@,
            r.source_files@ == "src/**/*.ts"@,
            r.validator_file@ == "src/validators.ts"@,
            r.use_js_extensions == false,
            r.follow_external_imports == true,
            r.exclude_packages@ == Seq::<String>::empty(),
            r.conditions@ == Seq::<String>::empty(),
    {
        Config {
            validator_pattern: default_validator_pattern(),
            source_files: default_source_files(),
            validator_file: default_validator_file(),
            use_js_extensions: default_use_js_extensions(),
            follow_external_imports: default_follow_external_imports(),
            exclude_packages: Vec::new(),
            conditions: Vec::new(),
        }
    }
}

impl Config {
    /// The regular expression recognizing validator call names: the
    /// pattern with every `%(type)` placeholder expanded to a group
    /// capturing an interface name.
    pub fn get_pattern_regex(&self) -> (r: String)
        ensures
            r@ == spec_replace(self.validator_pattern@, "%(type)"@, "([A-Z][a-zA-Z]+)"@),
    {
        replace_all(self.validator_pattern.as_str(), "%(type)", "([A-Z][a-zA-Z]+)")
    }
}

} // verus!
