//! Errors that the library reports, and what a caller may do about them.

use vstd::prelude::*;
use vstd::string::StringExecFns;

verus! {

/// Everything that can go wrong, one variant per cause.
#[derive(Debug, Clone)]
pub enum RfmtError {
    ParseError { file: String, line: usize, column: usize, message: String, snippet: String },
    ConfigError { message: String, file: String, suggestion: String },
    PrismError(String),
    IoError { file: String, message: String },
    FormattingError { message: String, node_type: String, location: String },
    RuleError { rule: String, message: String },
    FormatError(String),
    InternalError { message: String, backtrace: String },
    UnsupportedFeature { feature: String, explanation: String },
}

/// The decimal digits of `n`.
pub open spec fn decimal(n: nat) -> Seq<char>
    decreases n,
{
    if n < 10 {
        seq![digit_char(n)]
    } else {
        decimal(n / 10).push(digit_char(n % 10))
    }
}

/// The digit character of `d` (below ten).
pub open spec fn digit_char(d: nat) -> char {
    if d == 0 { '0' } else if d == 1 { '1' } else if d == 2 { '2' } else if d == 3 { '3' }
    else if d == 4 { '4' } else if d == 5 { '5' } else if d == 6 { '6' } else if d == 7 { '7' }
    else if d == 8 { '8' } else { '9' }
}

/// Relies on `usize`'s `ToString`: the decimal digits of `n`, without sign
/// or padding.
#[verifier::external_body]
pub(crate) fn decimal_text(n: usize) -> (r: String)
    ensures
        r@ == decimal(n as nat),
{
    n.to_string()
}

/// Relies on `u64`'s `ToString`: the decimal digits of `n`.
#[verifier::external_body]
pub(crate) fn decimal_text_u64(n: u64) -> (r: String)
    ensures
        r@ == decimal(n as nat),
{
    n.to_string()
}

/// The diagnostic code of an error.
pub open spec fn code_of(e: RfmtError) -> Seq<char> {
    match e {
        RfmtError::ParseError { .. } => "E001"@,
        RfmtError::ConfigError { .. } => "E002"@,
        RfmtError::IoError { .. } => "E003"@,
        RfmtError::FormattingError { .. } => "E004"@,
        RfmtError::RuleError { .. } => "E005"@,
        RfmtError::UnsupportedFeature { .. } => "E006"@,
        RfmtError::PrismError(_) => "E007"@,
        RfmtError::FormatError(_) => "E008"@,
        RfmtError::InternalError { .. } => "E999"@,
    }
}

/// The one-paragraph description of an error.
pub open spec fn display_of(e: RfmtError) -> Seq<char> {
    match e {
        RfmtError::ParseError { file, line, column, message, snippet } =>
            "Parse error in "@ + file@ + ":"@ + decimal(line as nat) + ":"@ + decimal(column as nat) + "\n"@
                + message@ + "\n"@ + snippet@,
        RfmtError::ConfigError { message, file, suggestion } =>
            "Configuration error: "@ + message@ + "\nFile: "@ + file@ + "\nSuggestion: "@ + suggestion@,
        RfmtError::PrismError(m) => "Prism integration error: "@ + m@,
        RfmtError::IoError { file, message } => "IO error for file "@ + file@ + ": "@ + message@,
        RfmtError::FormattingError { message, node_type, location } =>
            "Formatting error: "@ + message@ + "\nNode: "@ + node_type@ + " at "@ + location@,
        RfmtError::RuleError { rule, message } => "Formatting rule error in "@ + rule@ + ": "@ + message@,
        RfmtError::FormatError(m) => "Format error: "@ + m@,
        RfmtError::InternalError { message, .. } => "Internal error: "@ + message@ + "\nPlease report this as a bug"@,
        RfmtError::UnsupportedFeature { feature, explanation } =>
            "Unsupported feature: "@ + feature@ + "\n"@ + explanation@,
    }
}

/// The message shown to a user for an error.
pub open spec fn user_message_of(e: RfmtError) -> Seq<char> {
    match e {
        RfmtError::ParseError { file, line, column, message, snippet } =>
            "Parse error in "@ + file@ + ":"@ + decimal(line as nat) + ":"@ + decimal(column as nat) + "\n"@
                + message@ + "\n\nCode:\n"@ + snippet@,
        RfmtError::ConfigError { message, file, suggestion } =>
            "Configuration error: "@ + message@ + "\nFile: "@ + file@ + "\n\nSuggestion: "@ + suggestion@,
        RfmtError::FormattingError { message, node_type, location } =>
            "Formatting error: "@ + message@ + "\nNode type: "@ + node_type@ + "\nLocation: "@ + location@,
        RfmtError::InternalError { message, backtrace } =>
            "Internal error: "@ + message@ + "\n\nBacktrace:\n"@ + backtrace@
                + "\n\nPlease report this as a bug at: https://github.com/fujitanisora/rfmt/issues"@,
        RfmtError::UnsupportedFeature { feature, explanation } =>
            "Unsupported feature: "@ + feature@ + "\n\n"@ + explanation@,
        _ => display_of(e),
    }
}

impl RfmtError {
    /// The one-paragraph description of the error.
    pub fn to_text(&self) -> (r: String)
        ensures
            r@ == display_of(*self),
    {
        match self {
            RfmtError::ParseError { file, line, column, message, snippet } => {
                String::from_str("Parse error in ").concat(file.as_str()).concat(":")
                    .concat(decimal_text(*line).as_str()).concat(":").concat(decimal_text(*column).as_str())
                    .concat("\n").concat(message.as_str()).concat("\n").concat(snippet.as_str())
            },
            RfmtError::ConfigError { message, file, suggestion } => {
                String::from_str("Configuration error: ").concat(message.as_str()).concat("\nFile: ")
                    .concat(file.as_str()).concat("\nSuggestion: ").concat(suggestion.as_str())
            },
            RfmtError::PrismError(m) => String::from_str("Prism integration error: ").concat(m.as_str()),
            RfmtError::IoError { file, message } => {
                String::from_str("IO error for file ").concat(file.as_str()).concat(": ").concat(message.as_str())
            },
            RfmtError::FormattingError { message, node_type, location } => {
                String::from_str("Formatting error: ").concat(message.as_str()).concat("\nNode: ")
                    .concat(node_type.as_str()).concat(" at ").concat(location.as_str())
            },
            RfmtError::RuleError { rule, message } => {
                String::from_str("Formatting rule error in ").concat(rule.as_str()).concat(": ").concat(message.as_str())
            },
            RfmtError::FormatError(m) => String::from_str("Format error: ").concat(m.as_str()),
            RfmtError::InternalError { message, .. } => {
                String::from_str("Internal error: ").concat(message.as_str()).concat("\nPlease report this as a bug")
            },
            RfmtError::UnsupportedFeature { feature, explanation } => {
                String::from_str("Unsupported feature: ").concat(feature.as_str()).concat("\n").concat(explanation.as_str())
            },
        }
    }

    /// The message to show a user.
    pub fn user_message(&self) -> (r: String)
        ensures
            r@ == user_message_of(*self),
    {
        match self {
            RfmtError::ParseError { file, line, column, message, snippet } => {
                String::from_str("Parse error in ").concat(file.as_str()).concat(":")
                    .concat(decimal_text(*line).as_str()).concat(":").concat(decimal_text(*column).as_str())
                    .concat("\n").concat(message.as_str()).concat("\n\nCode:\n").concat(snippet.as_str())
            },
            RfmtError::ConfigError { message, file, suggestion } => {
                String::from_str("Configuration error: ").concat(message.as_str()).concat("\nFile: ")
                    .concat(file.as_str()).concat("\n\nSuggestion: ").concat(suggestion.as_str())
            },
            RfmtError::FormattingError { message, node_type, location } => {
                String::from_str("Formatting error: ").concat(message.as_str()).concat("\nNode type: ")
                    .concat(node_type.as_str()).concat("\nLocation: ").concat(location.as_str())
            },
            RfmtError::InternalError { message, backtrace } => {
                String::from_str("Internal error: ").concat(message.as_str()).concat("\n\nBacktrace:\n")
                    .concat(backtrace.as_str())
                    .concat("\n\nPlease report this as a bug at: https://github.com/fujitanisora/rfmt/issues")
            },
            RfmtError::UnsupportedFeature { feature, explanation } => {
                String::from_str("Unsupported feature: ").concat(feature.as_str()).concat("\n\n")
                    .concat(explanation.as_str())
            },
            _ => self.to_text(),
        }
    }

    /// The diagnostic code, for the documentation.
    pub fn error_code(&self) -> (r: &'static str)
        ensures
            r@ == code_of(*self),
    {
        match self {
            RfmtError::ParseError { .. } => "E001",
            RfmtError::ConfigError { .. } => "E002",
            RfmtError::IoError { .. } => "E003",
            RfmtError::FormattingError { .. } => "E004",
            RfmtError::RuleError { .. } => "E005",
            RfmtError::PrismError(_) => "E007",
            RfmtError::FormatError(_) => "E008",
            RfmtError::UnsupportedFeature { .. } => "E006",
            RfmtError::InternalError { .. } => "E999",
        }
    }

    /// The page that documents the error.
    pub fn help_url(&self) -> (r: String)
        ensures
            r@ == "https://rfmt.dev/errors/"@ + code_of(*self),
    {
        String::from_str("https://rfmt.dev/errors/").concat(self.error_code())
    }
}

/// What to do with a construct that could not be handled.
#[derive(Debug, Clone, Copy, PartialEq, Eq, Structural)]
pub enum RecoveryStrategy {
    /// Leave the construct out.
    Skip,
    /// Keep the construct's text as written in the source.
    PreserveOriginal,
    /// Apply minimal formatting only.
    MinimalFormat,
    /// Stop processing.
    Abort,
}

/// A recovery choice.
#[derive(Debug, Clone, Copy, PartialEq, Eq, Structural)]
pub struct ErrorRecovery {
    pub strategy: RecoveryStrategy,
}

impl ErrorRecovery {
    /// Recovery by `strategy`.
    pub fn new(strategy: RecoveryStrategy) -> (r: ErrorRecovery)
        ensures
            r.strategy == strategy,
    {
        ErrorRecovery { strategy }
    }

    /// Recovery by leaving the construct out.
    pub fn with_skip() -> (r: ErrorRecovery)
        ensures
            r.strategy == RecoveryStrategy::Skip,
    {
        ErrorRecovery::new(RecoveryStrategy::Skip)
    }

    /// Recovery by keeping the text as written in the source.
    pub fn with_preserve() -> (r: ErrorRecovery)
        ensures
            r.strategy == RecoveryStrategy::PreserveOriginal,
    {
        ErrorRecovery::new(RecoveryStrategy::PreserveOriginal)
    }
}

} // verus!
