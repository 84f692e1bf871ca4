use rfmt::diagnostics::{DebugContext, DebugInfo, ErrorContext, ErrorHandler};
use rfmt::error::{ErrorRecovery, RecoveryStrategy, RfmtError};

#[test]
fn test_debug_context_creation() {
    let ctx = DebugContext::new("test_phase");
    assert_eq!(ctx.phase(), "test_phase");
    assert_eq!(ctx.checkpoint_count(), 0);
}

#[test]
fn test_checkpoint() {
    let mut ctx = DebugContext::new("test");

    ctx.checkpoint("first");
    assert_eq!(ctx.checkpoint_count(), 1);

    ctx.checkpoint("second");
    assert_eq!(ctx.checkpoint_count(), 2);
}

#[test]
fn test_multiple_phases() {
    let ctx1 = DebugContext::new("phase1");
    let ctx2 = DebugContext::new("phase2");

    assert_eq!(ctx1.phase(), "phase1");
    assert_eq!(ctx2.phase(), "phase2");
}

#[test]
fn test_error_context_creation() {
    let context = ErrorContext::new().with_file("test.rb".to_string()).with_location(10, 5);

    assert_eq!(context.file, Some("test.rb".to_string()));
    assert_eq!(context.line, Some(10));
    assert_eq!(context.column, Some(5));
}

#[test]
fn test_metadata() {
    let mut context = ErrorContext::new();
    context.add_metadata("phase", "parsing");
    context.add_metadata("node_type", "class");

    assert_eq!(context.metadata.get("phase"), Some(&"parsing".to_string()));
    assert_eq!(context.metadata.get("node_type"), Some(&"class".to_string()));
}

#[test]
fn test_error_handler_creation() {
    let handler = ErrorHandler::new(RecoveryStrategy::Skip);
    assert_eq!(handler.error_count(), 0);
    assert!(!handler.has_errors());
}

#[test]
fn test_handle_with_skip_strategy() {
    let mut handler = ErrorHandler::new(RecoveryStrategy::Skip);
    let error = RfmtError::FormatError("test error".to_string());

    let result = handler.handle(error);
    assert_eq!(result, Some(String::new()));
    assert_eq!(handler.error_count(), 1);
    assert!(handler.has_errors());
}

#[test]
fn test_handle_with_abort_strategy() {
    let mut handler = ErrorHandler::new(RecoveryStrategy::Abort);
    let error = RfmtError::FormatError("test error".to_string());

    let result = handler.handle(error);
    assert_eq!(result, None);
    assert_eq!(handler.error_count(), 1);
}

#[test]
fn test_max_errors_limit() {
    let mut handler = ErrorHandler::new(RecoveryStrategy::Skip).with_max_errors(3);

    for i in 0..2 {
        let error = RfmtError::FormatError(format!("error {}", i));
        let result = handler.handle(error);
        assert!(result.is_some(), "Error {} should be handled", i);
    }

    let error = RfmtError::FormatError("error 2".to_string());
    let result = handler.handle(error);
    assert!(result.is_none(), "Should abort at max errors");
    assert_eq!(handler.error_count(), 3);
}

#[test]
fn test_error_report() {
    let mut handler = ErrorHandler::new(RecoveryStrategy::Skip);

    let error1 = RfmtError::FormatError("first error".to_string());
    let error2 = RfmtError::PrismError("second error".to_string());

    handler.handle(error1);
    handler.handle(error2);

    let report = handler.report();
    assert!(report.contains("Encountered 2 error(s)"));
    assert!(report.contains("first error"));
    assert!(report.contains("second error"));
    assert!(report.contains("[E008]"));
    assert!(report.contains("[E007]"));
}

#[test]
fn test_clear_errors() {
    let mut handler = ErrorHandler::new(RecoveryStrategy::Skip);
    let error = RfmtError::FormatError("test".to_string());

    handler.handle(error);
    assert!(handler.has_errors());

    handler.clear();
    assert!(!handler.has_errors());
    assert_eq!(handler.error_count(), 0);
}

#[test]
fn test_recovery_strategies() {
    let strategies = vec![
        (RecoveryStrategy::Skip, Some(String::new())),
        (RecoveryStrategy::PreserveOriginal, Some(String::from("/* preserved */"))),
        (RecoveryStrategy::MinimalFormat, Some(String::from("/* minimal */"))),
        (RecoveryStrategy::Abort, None),
    ];

    for (strategy, expected) in strategies {
        let mut handler = ErrorHandler::new(strategy);
        let error = RfmtError::FormatError("test".to_string());
        let result = handler.handle(error);
        assert_eq!(result, expected, "Strategy {:?} failed", strategy);
    }
}

#[test]
fn report_lists_entries_in_order() {
    let mut handler = ErrorHandler::new(RecoveryStrategy::Skip);
    assert_eq!(handler.report(), "No errors encountered.");
    handler.handle(RfmtError::FormatError("boom".to_string()));
    assert_eq!(
        handler.report(),
        "Encountered 1 error(s):\n\n1. [E008] Format error: boom\n   Help: https://rfmt.dev/errors/E008\n\n"
    );
}

#[test]
fn error_codes_and_messages() {
    let e = RfmtError::ConfigError {
        message: "bad".to_string(),
        file: "x.yml".to_string(),
        suggestion: "fix".to_string(),
    };
    assert_eq!(e.error_code(), "E002");
    assert_eq!(e.help_url(), "https://rfmt.dev/errors/E002");
    assert_eq!(e.user_message(), "Configuration error: bad\nFile: x.yml\n\nSuggestion: fix");
    assert_eq!(e.to_text(), "Configuration error: bad\nFile: x.yml\nSuggestion: fix");
    let p = RfmtError::ParseError {
        file: "a.rb".to_string(),
        line: 3,
        column: 7,
        message: "oops".to_string(),
        snippet: "s".to_string(),
    };
    assert_eq!(p.user_message(), "Parse error in a.rb:3:7\noops\n\nCode:\ns");
    assert_eq!(RfmtError::InternalError { message: "m".to_string(), backtrace: String::new() }.error_code(), "E999");
}

#[test]
fn error_recovery_choices() {
    assert_eq!(ErrorRecovery::with_skip().strategy, RecoveryStrategy::Skip);
    assert_eq!(ErrorRecovery::with_preserve().strategy, RecoveryStrategy::PreserveOriginal);
    assert_eq!(ErrorRecovery::new(RecoveryStrategy::Abort).strategy, RecoveryStrategy::Abort);
}

#[test]
fn debug_info_report_lines() {
    let info = DebugInfo {
        version: "0.2.0".to_string(),
        ruby_version: "3.3".to_string(),
        platform: "linux".to_string(),
        config: "default".to_string(),
    };
    let info = info.with_config("custom".to_string());
    assert_eq!(info.config, "custom");
    assert_eq!(info.report(), "rfmt version: 0.2.0\nRuby version: 3.3\nPlatform: linux\nConfig: custom");
}

#[test]
fn test_generate_snippet() {
    let source = "line 1\nline 2\nline 3\nline 4\nline 5\n";
    let context = ErrorContext::new().with_source(source.to_string()).with_location(3, 6);

    let snippet = context.generate_snippet(1).unwrap();

    assert!(snippet.contains("   2 | line 2"));
    assert!(snippet.contains("   3 | line 3"));
    assert!(snippet.contains("   4 | line 4"));
    assert!(snippet.contains("     |      ^"));
}

#[test]
fn test_generate_snippet_at_file_start() {
    let source = "line 1\nline 2\nline 3\n";
    let context = ErrorContext::new().with_source(source.to_string()).with_location(1, 3);

    let snippet = context.generate_snippet(2).unwrap();

    assert!(snippet.contains("   1 | line 1"));
    assert!(snippet.contains("     |   ^"));
}

#[test]
fn snippet_exact_rows() {
    let context = ErrorContext::new().with_source("a\r\nb\nc".to_string()).with_location(2, 1);
    assert_eq!(context.generate_snippet(0).unwrap(), "   2 | b\n     | ^\n");
    assert_eq!(context.generate_snippet(5).unwrap(), "   1 | a\n   2 | b\n     | ^\n   3 | c\n");
    assert_eq!(ErrorContext::new().with_location(1, 1).generate_snippet(1), None);
}
