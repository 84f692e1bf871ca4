use rfmt::config::{Config, IndentStyle};
use rfmt::error::RfmtError;

#[test]
fn test_default_config() {
    let config = Config::default();
    assert_eq!(config.version, "1.0");
    assert_eq!(config.formatting.line_length, 100);
    assert_eq!(config.formatting.indent_width, 2);
    assert!(matches!(config.formatting.indent_style, IndentStyle::Spaces));
}

#[test]
fn test_indent_string_spaces() {
    let config = Config::default();
    assert_eq!(config.indent_string(), "  ");
}

#[test]
fn test_indent_string_tabs() {
    let mut config = Config::default();
    config.formatting.indent_style = IndentStyle::Tabs;
    assert_eq!(config.indent_string(), "\t");
}

#[test]
fn test_should_include_basic() {
    let config = Config::default();
    assert!(config.should_include("lib/foo.rb"));
    assert!(!config.should_include("vendor/gem/foo.rb"));
}

#[test]
fn test_should_include_with_exclude() {
    let mut config = Config::default();
    config.exclude.push("test/**/*".to_string());
    assert!(!config.should_include("test/foo.rb"));
}

#[test]
fn matches_glob_shapes() {
    assert!(Config::matches_glob("lib/a/b.rb", "**/*.rb"));
    assert!(!Config::matches_glob("lib/a/b.py", "**/*.rb"));
    assert!(Config::matches_glob("vendor/x/y", "vendor/**"));
    assert!(Config::matches_glob("foo.rb", "*.rb"));
    assert!(Config::matches_glob("foobar", "foo*"));
    assert!(Config::matches_glob("foo_x.rb", "foo*.rb"));
    assert!(!Config::matches_glob("bar.rb", "foo*.rb"));
    assert!(Config::matches_glob("exact.rb", "exact.rb"));
    assert!(!Config::matches_glob("exact.rbx", "exact.rb"));
    assert!(!Config::matches_glob("a/b/c", "a/**/b/**/c"));
    assert!(!Config::matches_glob("abc", "a*b*c"));
}

#[test]
fn should_include_without_patterns_takes_everything() {
    let mut config = Config::default();
    config.includes.clear();
    config.exclude.clear();
    assert!(config.should_include("anything.txt"));
}

#[test]
fn validate_reports_each_problem() {
    let mut config = Config::default();
    assert!(config.validate("cfg.yml").is_ok());

    config.formatting.line_length = 30;
    match config.validate("cfg.yml") {
        Err(RfmtError::ConfigError { message, file, .. }) => {
            assert_eq!(message, "Invalid line_length: 30. Must be between 40 and 500");
            assert_eq!(file, "cfg.yml");
        }
        _ => panic!("expected a configuration error"),
    }

    config.formatting.line_length = 600;
    assert!(config.validate("cfg.yml").is_err());

    config.formatting.line_length = 100;
    config.formatting.indent_width = 10;
    match config.validate("cfg.yml") {
        Err(RfmtError::ConfigError { message, .. }) => {
            assert_eq!(message, "Invalid indent_width: 10. Must be between 1 and 8");
        }
        _ => panic!("expected a configuration error"),
    }

    config.formatting.indent_width = 2;
    config.exclude.push(String::new());
    match config.validate("cfg.yml") {
        Err(RfmtError::ConfigError { message, .. }) => {
            assert_eq!(message, "Empty pattern in 'exclude' list");
        }
        _ => panic!("expected a configuration error"),
    }
}
