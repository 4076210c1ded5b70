use bagsakan::config::{
    default_follow_external_imports, default_source_files, default_use_js_extensions,
    default_validator_file, default_validator_pattern,
};
use bagsakan::Config;

#[test]
fn default_config_values() {
    let c = Config::default();
    assert_eq!(c.validator_pattern, "validate%(type)");
    assert_eq!(c.source_files, "src/**/*.ts");
    assert_eq!(c.validator_file, "src/validators.ts");
    assert_eq!(c.use_js_extensions, false);
    assert_eq!(c.follow_external_imports, true);
    assert!(c.exclude_packages.is_empty());
    assert!(c.conditions.is_empty());
}

#[test]
fn default_helpers_agree() {
    assert_eq!(default_validator_pattern(), "validate%(type)");
    assert_eq!(default_source_files(), "src/**/*.ts");
    assert_eq!(default_validator_file(), "src/validators.ts");
    assert_eq!(default_use_js_extensions(), false);
    assert_eq!(default_follow_external_imports(), true);
}

#[test]
fn pattern_regex_expands_placeholder() {
    let c = Config::default();
    assert_eq!(c.get_pattern_regex(), "validate([A-Z][a-zA-Z]+)");
}

#[test]
fn pattern_regex_expands_every_placeholder() {
    let mut c = Config::default();
    c.validator_pattern = "is%(type)Or%(type)".to_string();
    assert_eq!(c.get_pattern_regex(), "is([A-Z][a-zA-Z]+)Or([A-Z][a-zA-Z]+)");
}

#[test]
fn pattern_regex_without_placeholder_unchanged() {
    let mut c = Config::default();
    c.validator_pattern = "checkIt".to_string();
    assert_eq!(c.get_pattern_regex(), "checkIt");
}
