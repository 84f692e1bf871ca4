use rfmt::limits::{MemoryTracker, RecursionTracker, TimeoutGuard};
use rfmt::policy::{
    check_recursion_depth, validate_encoding, validate_file_extension, validate_source_size, SecurityPolicy,
};
use std::time::Duration;

#[test]
fn test_check_recursion_depth_ok() {
    let result = check_recursion_depth(10, 100);
    assert!(result.is_ok());
}

#[test]
fn test_check_recursion_depth_exceeded() {
    let result = check_recursion_depth(150, 100);
    assert!(result.is_err());
}

#[test]
fn test_timeout_guard_not_expired() {
    let guard = TimeoutGuard::new(10, "test");
    let result = guard.check();
    assert!(result.is_ok());
    assert!(guard.elapsed() < Duration::from_secs(1));
}

#[test]
fn test_memory_tracker_basic() {
    let tracker = MemoryTracker::new(1024 * 1024 * 100, 0);
    let result = tracker.check(0);
    assert!(result.is_ok());
}

#[test]
fn test_recursion_tracker() {
    let mut tracker = RecursionTracker::new(10);
    assert_eq!(tracker.depth(), 0);

    let guard1 = tracker.enter().unwrap();
    assert_eq!(tracker.depth(), 1);

    let guard2 = tracker.enter().unwrap();
    assert_eq!(tracker.depth(), 2);
    tracker.leave(guard2);

    assert_eq!(tracker.depth(), 1);
    tracker.leave(guard1);

    assert_eq!(tracker.depth(), 0);
}

#[test]
fn test_recursion_tracker_exceeds_limit() {
    let mut tracker = RecursionTracker::new(2);

    let _guard1 = tracker.enter().unwrap();
    let _guard2 = tracker.enter().unwrap();
    let result = tracker.enter();

    assert!(result.is_err());
}

#[test]
fn test_timeout_guard_remaining_time() {
    let guard = TimeoutGuard::new(10, "test");
    let remaining = guard.remaining();
    assert!(remaining.as_secs() <= 10);
    assert!(remaining.as_secs() >= 9);
}

#[test]
fn timeout_guard_verdicts() {
    let guard = TimeoutGuard::new(2, "walk");
    assert!(guard.check_at(2_000_000_000).is_ok());
    assert!(guard.check_at(2_000_000_001).is_err());
    assert_eq!(guard.remaining_at(500_000_000), (1, 500_000_000));
    assert_eq!(guard.remaining_at(5_000_000_000), (0, 0));
}

#[test]
fn memory_tracker_verdicts() {
    let tracker = MemoryTracker::new(100, 1000);
    assert_eq!(tracker.current_delta(1050), 50);
    assert_eq!(tracker.current_delta(900), 0);
    assert!(tracker.check(1100).is_ok());
    assert!(tracker.check(1101).is_err());
}

#[test]
fn test_default_policy() {
    let policy = SecurityPolicy::default();
    assert_eq!(policy.max_file_size, 10 * 1024 * 1024);
    assert_eq!(policy.timeout_seconds, 30);
    assert_eq!(policy.max_recursion_depth, 1000);
    assert!(!policy.allow_symlinks);
}

#[test]
fn test_strict_policy() {
    let policy = SecurityPolicy::strict();
    assert_eq!(policy.max_file_size, 5 * 1024 * 1024);
    assert_eq!(policy.timeout_seconds, 15);
    assert_eq!(policy.max_recursion_depth, 500);
    assert!(!policy.allow_symlinks);
}

#[test]
fn test_permissive_policy() {
    let policy = SecurityPolicy::permissive();
    assert_eq!(policy.max_file_size, 50 * 1024 * 1024);
    assert_eq!(policy.timeout_seconds, 120);
    assert_eq!(policy.max_recursion_depth, 5000);
    assert!(policy.allow_symlinks);
}

#[test]
fn policy_limits_apply() {
    let policy = SecurityPolicy::strict();
    assert!(policy.check_recursion_depth(500).is_ok());
    assert!(policy.check_recursion_depth(501).is_err());
    assert!(policy.validate_source_size("x").is_ok());
}

#[test]
fn test_validate_file_extension_rb() {
    assert!(validate_file_extension("test.rb").is_ok());
}

#[test]
fn test_validate_file_extension_rake() {
    assert!(validate_file_extension("test.rake").is_ok());
}

#[test]
fn test_validate_file_extension_gemfile() {
    assert!(validate_file_extension("Gemfile").is_ok());
}

#[test]
fn test_validate_file_extension_invalid() {
    let result = validate_file_extension("test.txt");
    assert!(result.is_err());
}

#[test]
fn file_extension_edge_cases() {
    assert!(validate_file_extension("dir/config.ru").is_ok());
    assert!(validate_file_extension("a/b/Rakefile").is_ok());
    assert!(validate_file_extension(".rb").is_err());
    assert!(validate_file_extension("lib/").is_err());
    assert!(validate_file_extension("").is_err());
    assert!(validate_file_extension("notes").is_err());
    assert!(validate_file_extension("x.tar.rb").is_ok());
}

#[test]
fn test_validate_source_size_ok() {
    let source = "class Foo\nend\n";
    let result = validate_source_size(source, 1024);
    assert!(result.is_ok());
}

#[test]
fn test_validate_source_size_too_large() {
    let source = "a".repeat(1000);
    let result = validate_source_size(&source, 100);
    assert!(result.is_err());
}

#[test]
fn test_validate_encoding_ok() {
    let source = "class Foo\n  # 日本語コメント\nend\n";
    let result = validate_encoding(source);
    assert!(result.is_ok());
}

#[test]
fn test_validate_encoding_null_byte() {
    let source = "class Foo\0end";
    let result = validate_encoding(source);
    assert!(result.is_err());
}

#[test]
fn recursion_depth_error_message() {
    match check_recursion_depth(3, 2) {
        Err(rfmt::error::RfmtError::InternalError { message, .. }) => {
            assert_eq!(message, "Maximum recursion depth (2) exceeded. Current depth: 3");
        }
        _ => panic!("expected an internal error"),
    }
}

#[test]
fn source_size_error_explains_sizes() {
    match validate_source_size("abcd", 3) {
        Err(rfmt::error::RfmtError::UnsupportedFeature { feature, explanation }) => {
            assert_eq!(feature, "Large source code");
            assert_eq!(
                explanation,
                "Source code size (4 bytes) exceeds maximum (3 bytes). This limit prevents resource exhaustion."
            );
        }
        _ => panic!("expected an unsupported-feature error"),
    }
    assert!(validate_source_size("abc", 3).is_ok());
}

#[test]
fn default_policy_threads_within_bounds() {
    let policy = SecurityPolicy::new();
    assert!(policy.max_threads >= 1 && policy.max_threads <= 4);
    assert!(SecurityPolicy::permissive().max_threads >= 1);
}
