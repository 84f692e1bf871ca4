//! Error collection, error context, and run diagnostics.

use crate::ast::Metadata;
use crate::emitter::{find_in, slice_fits, utf8_text};
use crate::error::{code_of, decimal, decimal_text, user_message_of, RecoveryStrategy, RfmtError};
use crate::layout::find_byte;
use crate::text::{lemma_append_valid, lemma_ascii_byte, push_all, push_range, slice_ok};
use crate::limits::{elapsed_since, instant_now};
use std::time::{Duration, Instant};
use vstd::prelude::*;
use vstd::string::StringExecFns;
use vstd::utf8::{decode_utf8, encode_utf8, valid_utf8};

verus! {

/// The number of errors an `ErrorHandler` accepts when none is given.
pub const DEFAULT_MAX_ERRORS: usize = 100;

/// One entry of an error report, for the error at `i`.
pub open spec fn report_entry(e: RfmtError, i: nat) -> Seq<char> {
    decimal(i + 1) + ". ["@ + code_of(e) + "] "@ + user_message_of(e) + "\n   Help: "@
        + ("https://rfmt.dev/errors/"@ + code_of(e)) + "\n\n"@
}

/// The entries for the first `k` errors.
pub open spec fn report_entries(errs: Seq<RfmtError>, k: int) -> Seq<char>
    decreases k,
{
    if k <= 0 {
        Seq::empty()
    } else {
        report_entries(errs, k - 1) + report_entry(errs[k - 1], (k - 1) as nat)
    }
}

/// The report for a list of errors.
pub open spec fn report_of(errs: Seq<RfmtError>) -> Seq<char> {
    if errs.len() == 0 {
        "No errors encountered."@
    } else {
        "Encountered "@ + decimal(errs.len()) + " error(s):\n\n"@ + report_entries(errs, errs.len() as int)
    }
}

/// What recovery by `s` puts in place of a failed construct; `None` stops.
pub open spec fn recovery_text(s: RecoveryStrategy) -> Option<Seq<char>> {
    match s {
        RecoveryStrategy::Skip => Some(Seq::empty()),
        RecoveryStrategy::PreserveOriginal => Some("/* preserved */"@),
        RecoveryStrategy::MinimalFormat => Some("/* minimal */"@),
        RecoveryStrategy::Abort => None,
    }
}

/// Collects errors and decides how to go on after each.
pub struct ErrorHandler {
    strategy: RecoveryStrategy,
    errors: Vec<RfmtError>,
    max_errors: usize,
}

impl ErrorHandler {
    /// The errors collected so far.
    pub closed spec fn spec_errors(&self) -> Seq<RfmtError> {
        self.errors@
    }

    /// The strategy in use.
    pub closed spec fn spec_strategy(&self) -> RecoveryStrategy {
        self.strategy
    }

    /// The number of errors at which handling stops.
    pub closed spec fn spec_max_errors(&self) -> usize {
        self.max_errors
    }

    /// A handler with no errors, stopping at the hundredth.
    pub fn new(strategy: RecoveryStrategy) -> (r: ErrorHandler)
        ensures
            r.spec_errors().len() == 0,
            r.spec_strategy() == strategy,
            r.spec_max_errors() == DEFAULT_MAX_ERRORS,
    {
        ErrorHandler { strategy, errors: Vec::new(), max_errors: DEFAULT_MAX_ERRORS }
    }

    /// The same handler, stopping at `max` errors.
    pub fn with_max_errors(self, max: usize) -> (r: ErrorHandler)
        ensures
            r.spec_errors() == self.spec_errors(),
            r.spec_strategy() == self.spec_strategy(),
            r.spec_max_errors() == max,
    {
        ErrorHandler { max_errors: max, ..self }
    }

    /// Records `error`; then stops (`None`) once the limit is reached, and
    /// otherwise returns what the strategy puts in place.
    pub fn handle(&mut self, error: RfmtError) -> (r: Option<String>)
        ensures
            final(self).spec_errors() == old(self).spec_errors().push(error),
            final(self).spec_strategy() == old(self).spec_strategy(),
            final(self).spec_max_errors() == old(self).spec_max_errors(),
            final(self).spec_errors().len() >= old(self).spec_max_errors() ==> r is None,
            final(self).spec_errors().len() < old(self).spec_max_errors() ==> match recovery_text(old(self).spec_strategy()) {
                Some(t) => r matches Some(s) && s@ == t,
                None => r is None,
            },
    {
        self.errors.push(error);
        if self.errors.len() >= self.max_errors {
            return None;
        }
        match self.strategy {
            RecoveryStrategy::Skip => Some(String::new()),
            RecoveryStrategy::PreserveOriginal => Some(String::from_str("/* preserved */")),
            RecoveryStrategy::MinimalFormat => Some(String::from_str("/* minimal */")),
            RecoveryStrategy::Abort => None,
        }
    }

    /// Whether any error was recorded.
    pub fn has_errors(&self) -> (r: bool)
        ensures
            r == (self.spec_errors().len() > 0),
    {
        self.errors.len() > 0
    }

    /// The recorded errors.
    pub fn errors(&self) -> (r: &[RfmtError])
        ensures
            r@ == self.spec_errors(),
    {
        self.errors.as_slice()
    }

    /// The number of recorded errors.
    pub fn error_count(&self) -> (r: usize)
        ensures
            r == self.spec_errors().len(),
    {
        self.errors.len()
    }

    /// A report of every recorded error with its code, message and help
    /// page.
    pub fn report(&self) -> (r: String)
        ensures
            r@ == report_of(self.spec_errors()),
    {
        let n = self.errors.len();
        if n == 0 {
            return String::from_str("No errors encountered.");
        }
        let mut out = String::from_str("Encountered ").concat(decimal_text(n).as_str()).concat(" error(s):\n\n");
        let ghost head = out@;
        let mut i: usize = 0;
        while i < n
            invariant
                n == self.errors@.len(),
                i <= n,
                out@ == head + report_entries(self.errors@, i as int),
            decreases n - i,
        {
            let e = &self.errors[i];
            out = out.concat(decimal_text(i + 1).as_str()).concat(". [").concat(e.error_code()).concat("] ")
                .concat(e.user_message().as_str()).concat("\n   Help: ").concat(e.help_url().as_str())
                .concat("\n\n");
            assert(out@ =~= head + report_entries(self.errors@, i + 1));
            i += 1;
        }
        out
    }

    /// Forgets the recorded errors.
    pub fn clear(&mut self)
        ensures
            final(self).spec_errors().len() == 0,
            final(self).spec_strategy() == old(self).spec_strategy(),
            final(self).spec_max_errors() == old(self).spec_max_errors(),
    {
        self.errors.clear();
    }
}

impl Default for ErrorHandler {
    fn default() -> (r: ErrorHandler)
        ensures
            r.spec_errors().len() == 0,
            r.spec_strategy() == RecoveryStrategy::Abort,
    {
        ErrorHandler::new(RecoveryStrategy::Abort)
    }
}

/// Versions, platform and configuration of a run, for bug reports.
#[derive(Debug, Clone)]
pub struct DebugInfo {
    pub version: String,
    pub ruby_version: String,
    pub platform: String,
    pub config: String,
}

impl DebugInfo {
    /// The four facts, one per line.
    pub fn report(&self) -> (r: String)
        ensures
            r@ == "rfmt version: "@ + self.version@ + "\nRuby version: "@ + self.ruby_version@ + "\nPlatform: "@
                + self.platform@ + "\nConfig: "@ + self.config@,
    {
        String::from_str("rfmt version: ").concat(self.version.as_str()).concat("\nRuby version: ")
            .concat(self.ruby_version.as_str()).concat("\nPlatform: ").concat(self.platform.as_str())
            .concat("\nConfig: ").concat(self.config.as_str())
    }

    /// The same facts with `config` as the configuration.
    pub fn with_config(self, config: String) -> (r: DebugInfo)
        ensures
            r.version == self.version,
            r.ruby_version == self.ruby_version,
            r.platform == self.platform,
            r.config == config,
    {
        DebugInfo { config, ..self }
    }
}

/// Timing of one phase of a run, with named checkpoints.
pub struct DebugContext {
    phase: String,
    start_time: Instant,
    checkpoints: Vec<(String, Instant)>,
}

impl DebugContext {
    /// The phase's name.
    pub closed spec fn spec_phase(&self) -> Seq<char> {
        self.phase@
    }

    /// The checkpoint names, in order.
    pub closed spec fn spec_checkpoints(&self) -> Seq<Seq<char>> {
        self.checkpoints@.map_values(|c: (String, Instant)| c.0@)
    }

    /// Starts timing `phase`.
    pub fn new(phase: &str) -> (r: DebugContext)
        ensures
            r.spec_phase() == phase@,
            r.spec_checkpoints().len() == 0,
    {
        DebugContext { phase: String::from_str(phase), start_time: instant_now(), checkpoints: Vec::new() }
    }

    /// Records checkpoint `name` now.
    pub fn checkpoint(&mut self, name: &str)
        ensures
            final(self).spec_phase() == old(self).spec_phase(),
            final(self).spec_checkpoints() == old(self).spec_checkpoints().push(name@),
    {
        let ghost before = self.checkpoints@;
        self.checkpoints.push((String::from_str(name), instant_now()));
        assert(self.checkpoints@.map_values(|c: (String, Instant)| c.0@)
            =~= before.map_values(|c: (String, Instant)| c.0@).push(name@));
    }

    /// Ends the phase.
    pub fn complete(self) {
    }

    /// The phase's name.
    pub fn phase(&self) -> (r: &str)
        ensures
            r@ == self.spec_phase(),
    {
        self.phase.as_str()
    }

    /// Time since the phase started.
    pub fn elapsed(&self) -> Duration {
        elapsed_since(&self.start_time)
    }

    /// The number of checkpoints recorded.
    pub fn checkpoint_count(&self) -> (r: usize)
        ensures
            r == self.spec_checkpoints().len(),
    {
        self.checkpoints.len()
    }
}

/// The lines of `b` from position `from` on, as byte ranges, split the way
/// `str::lines` splits: at each `\n`, dropping a `\r` just before it, with
/// no empty line after a final `\n`.
pub open spec fn line_ranges(b: Seq<u8>, from: int) -> Seq<(int, int)>
    decreases b.len() - from,
{
    if from < 0 || from >= b.len() {
        Seq::empty()
    } else {
        let nlp = find_byte(b, from, b.len() as int, 10u8);
        let end = if nlp < b.len() && nlp > from && b[nlp - 1] == 13u8 { nlp - 1 } else { nlp };
        if nlp < from {
            Seq::empty()
        } else if nlp >= b.len() {
            seq![(from, end)]
        } else {
            seq![(from, end)] + line_ranges(b, nlp + 1)
        }
    }
}

/// `n` spaces.
pub open spec fn spaces(n: nat) -> Seq<u8> {
    Seq::new(n, |i: int| 32u8)
}

/// The line number `n` right-aligned in four columns.
pub open spec fn padded(n: nat) -> Seq<u8> {
    let d = encode_utf8(decimal(n));
    if d.len() < 4 { spaces((4 - d.len()) as nat) + d } else { d }
}

/// One snippet row: the numbered line, then the caret line when it is the
/// error line.
pub open spec fn snippet_row(b: Seq<u8>, range: (int, int), i: int, err: nat, col: nat) -> Seq<u8> {
    let text = if slice_ok(b, range.0, range.1) { b.subrange(range.0, range.1) } else { Seq::empty() };
    let row = padded((i + 1) as nat) + encode_utf8(" | "@) + text + seq![10u8];
    let mark = if i + 1 == err {
        encode_utf8("     | "@) + spaces(if col >= 1 { (col - 1) as nat } else { 0 }) + encode_utf8("^\n"@)
    } else {
        Seq::empty()
    };
    row + mark
}

/// The snippet rows for lines `start..k` of `b`, marking line `err`
/// (counted from one) with a caret under column `col`.
pub open spec fn snippet_rows(b: Seq<u8>, lines: Seq<(int, int)>, start: int, k: int, err: nat, col: nat) -> Seq<u8>
    decreases k - start,
{
    if k <= start {
        Seq::empty()
    } else {
        snippet_rows(b, lines, start, k - 1, err, col) + snippet_row(b, lines[k - 1], k - 1, err, col)
    }
}

/// The snippet bytes for source bytes `b` around line `err`, column `col`,
/// with `ctx` lines of context on each side.
pub open spec fn snippet_bytes(b: Seq<u8>, err: nat, col: nat, ctx: nat) -> Seq<u8> {
    let lines = line_ranges(b, 0);
    let start: int = if err >= ctx + 1 { err - (ctx + 1) } else { 0 };
    let end: int = if err + ctx < lines.len() { (err + ctx) as int } else { lines.len() as int };
    snippet_rows(b, lines, start, end, err, col)
}

/// Where an error happened: file, source text, position and free-form
/// facts.
#[derive(Debug, Clone)]
pub struct ErrorContext {
    pub file: Option<String>,
    pub source: Option<String>,
    pub line: Option<usize>,
    pub column: Option<usize>,
    pub metadata: Metadata,
}

impl ErrorContext {
    /// A context that knows nothing yet.
    pub fn new() -> (r: ErrorContext)
        ensures
            r.file is None,
            r.source is None,
            r.line is None,
            r.column is None,
            r.metadata.entries@.len() == 0,
    {
        ErrorContext { file: None, source: None, line: None, column: None, metadata: Metadata::new() }
    }

    /// The same context in `file`.
    pub fn with_file(self, file: String) -> (r: ErrorContext)
        ensures
            r == (ErrorContext { file: Some(file), ..self }),
    {
        ErrorContext { file: Some(file), ..self }
    }

    /// The same context over source text `source`.
    pub fn with_source(self, source: String) -> (r: ErrorContext)
        ensures
            r == (ErrorContext { source: Some(source), ..self }),
    {
        ErrorContext { source: Some(source), ..self }
    }

    /// The same context at `line` and `column`.
    pub fn with_location(self, line: usize, column: usize) -> (r: ErrorContext)
        ensures
            r == (ErrorContext { line: Some(line), column: Some(column), ..self }),
    {
        ErrorContext { line: Some(line), column: Some(column), ..self }
    }

    /// Records the fact `value` under `key`.
    pub fn add_metadata(&mut self, key: &str, value: &str)
        ensures
            final(self).metadata.value(key@) == Some(value@),
            forall|k: Seq<char>| k != key@ ==> final(self).metadata.value(k) == old(self).metadata.value(k),
            final(self).file == old(self).file,
            final(self).line == old(self).line,
            final(self).column == old(self).column,
    {
        self.metadata.insert(String::from_str(key), String::from_str(value));
    }
}

/// Appends `n` spaces.
fn push_spaces(out: &mut Vec<u8>, n: usize)
    ensures
        final(out)@ == old(out)@ + spaces(n as nat),
        valid_utf8(old(out)@) ==> valid_utf8(final(out)@),
{
    let ghost start = out@;
    let mut p: usize = 0;
    while p < n
        invariant
            p <= n,
            out@ == start + spaces(p as nat),
            valid_utf8(start) ==> valid_utf8(out@),
        decreases n - p,
    {
        let ghost prev = out@;
        out.push(32u8);
        proof {
            assert(spaces((p + 1) as nat) =~= spaces(p as nat) + seq![32u8]);
            assert(out@ =~= prev + seq![32u8]);
            if valid_utf8(start) {
                lemma_ascii_byte(32u8);
                lemma_append_valid(prev, seq![32u8]);
            }
        }
        p += 1;
    }
}

/// Appends the caret line that points at column `col`.
fn push_caret(out: &mut Vec<u8>, col: usize)
    requires
        valid_utf8(old(out)@),
    ensures
        final(out)@ == old(out)@ + (encode_utf8("     | "@) + spaces(if col >= 1 { (col - 1) as nat } else { 0 })
            + encode_utf8("^\n"@)),
        valid_utf8(final(out)@),
{
    let ghost start = out@;
    proof {
        vstd::utf8::encode_utf8_valid_utf8("     | "@);
        vstd::utf8::encode_utf8_valid_utf8("^\n"@);
    }
    push_all(out, "     | ".as_bytes());
    let pad = if col >= 1 { col - 1 } else { 0 };
    push_spaces(out, pad);
    push_all(out, "^\n".as_bytes());
    assert(out@ =~= start + (encode_utf8("     | "@) + spaces(pad as nat) + encode_utf8("^\n"@)));
}

/// Appends line number `n`, right-aligned in four columns.
fn push_number(out: &mut Vec<u8>, n: usize)
    requires
        valid_utf8(old(out)@),
    ensures
        final(out)@ == old(out)@ + padded(n as nat),
        valid_utf8(final(out)@),
{
    let ghost start = out@;
    let num = decimal_text(n);
    let digits = num.as_str().as_bytes();
    proof {
        vstd::utf8::encode_utf8_valid_utf8(decimal(n as nat));
    }
    if digits.len() < 4 {
        push_spaces(out, 4 - digits.len());
    } else {
        assert(out@ =~= start + Seq::<u8>::empty());
    }
    push_all(out, digits);
    assert(out@ =~= start + padded(n as nat));
}

/// Appends source bytes `[ls, le)` of `b` when they can be taken as text,
/// then a newline.
fn push_line_text(out: &mut Vec<u8>, b: &[u8], ls: usize, le: usize)
    requires
        ls <= le <= b@.len(),
        valid_utf8(b@),
        valid_utf8(old(out)@),
    ensures
        final(out)@ == old(out)@ + (if slice_ok(b@, ls as int, le as int) {
            b@.subrange(ls as int, le as int)
        } else {
            Seq::<u8>::empty()
        }) + seq![10u8],
        valid_utf8(final(out)@),
{
    let ghost start = out@;
    if slice_fits(b, ls, le) {
        push_range(out, b, ls, le);
    } else {
        assert(out@ =~= start + Seq::<u8>::empty());
    }
    let ghost before_nl = out@;
    out.push(10u8);
    proof {
        lemma_ascii_byte(10u8);
        lemma_append_valid(before_nl, seq![10u8]);
        assert(out@ =~= before_nl + seq![10u8]);
    }
}

/// Appends the snippet row for line `i` (from zero), bytes `[ls, le)` of `b`.
fn push_row(out: &mut Vec<u8>, b: &[u8], ls: usize, le: usize, i: usize, err: usize, col: usize)
    requires
        ls <= le <= b@.len(),
        i < usize::MAX,
        valid_utf8(b@),
        valid_utf8(old(out)@),
    ensures
        final(out)@ == old(out)@ + snippet_row(b@, (ls as int, le as int), i as int, err as nat, col as nat),
        valid_utf8(final(out)@),
{
    let ghost start = out@;
    push_number(out, i + 1);
    proof {
        vstd::utf8::encode_utf8_valid_utf8(" | "@);
    }
    push_all(out, " | ".as_bytes());
    push_line_text(out, b, ls, le);
    let ghost row_end = out@;
    if i + 1 == err {
        push_caret(out, col);
    }
    assert(out@ =~= start + snippet_row(b@, (ls as int, le as int), i as int, err as nat, col as nat));
}

impl ErrorContext {
    /// The lines around the error position, numbered, with a caret under
    /// the error column; `None` exactly when source, line or column is
    /// unknown.
    pub fn generate_snippet(&self, context_lines: usize) -> (r: Option<String>)
        ensures
            match (self.source, self.line, self.column) {
                (Some(src), Some(l), Some(c)) => {
                    let out = snippet_bytes(encode_utf8(src@), l as nat, c as nat, context_lines as nat);
                    &&& valid_utf8(out)
                    &&& r matches Some(s) && s@ == decode_utf8(out)
                },
                _ => r is None,
            },
    {
        let source = match &self.source {
            Some(s) => s,
            None => return None,
        };
        let error_line = match self.line {
            Some(l) => l,
            None => return None,
        };
        let column = match self.column {
            Some(c) => c,
            None => return None,
        };
        let b = source.as_str().as_bytes();
        let ghost bs = b@;
        let mut lines: Vec<(usize, usize)> = Vec::new();
        let mut pos: usize = 0;
        while pos < b.len()
            invariant
                pos <= b@.len(),
                bs == b@,
                forall|i: int| 0 <= i < lines@.len() ==> (#[trigger] lines@[i]).0 <= lines@[i].1 <= b@.len(),
                lines@.map_values(|x: (usize, usize)| (x.0 as int, x.1 as int)) + line_ranges(bs, pos as int)
                    == line_ranges(bs, 0),
            decreases b@.len() - pos,
        {
            let nlp = find_in(b, pos, b.len(), 10u8);
            let end = if nlp < b.len() && nlp > pos && b[nlp - 1] == 13u8 { nlp - 1 } else { nlp };
            let ghost before = lines@;
            lines.push((pos, end));
            assert(lines@.map_values(|x: (usize, usize)| (x.0 as int, x.1 as int))
                =~= before.map_values(|x: (usize, usize)| (x.0 as int, x.1 as int)) + seq![(pos as int, end as int)]);
            pos = if nlp < b.len() { nlp + 1 } else { b.len() };
        }
        let ghost lr = line_ranges(bs, 0);
        assert(lines@.map_values(|x: (usize, usize)| (x.0 as int, x.1 as int)) =~= lr);
        let n = lines.len();
        let start = if error_line >= context_lines && error_line - context_lines >= 1 {
            error_line - context_lines - 1
        } else {
            0
        };
        let end = if error_line < n && n - error_line > context_lines { error_line + context_lines } else { n };
        let mut out: Vec<u8> = Vec::new();
        proof {
            vstd::utf8::encode_utf8_valid_utf8(source@);
            assert(out@ =~= Seq::<u8>::empty());
            assert(valid_utf8(Seq::<u8>::empty())) by {
                vstd::utf8::encode_utf8_valid_utf8(Seq::<char>::empty());
                assert(encode_utf8(Seq::<char>::empty()) =~= Seq::<u8>::empty());
            }
        }
        let mut i = start;
        while i < end
            invariant
                end <= n,
                n == lines@.len(),
                bs == b@,
                forall|j: int| 0 <= j < lines@.len() ==> (#[trigger] lines@[j]).0 <= lines@[j].1 <= b@.len(),
                lines@.map_values(|x: (usize, usize)| (x.0 as int, x.1 as int)) == lr,
                start <= i,
                i <= end || i == start,
                valid_utf8(out@),
                valid_utf8(b@),
                out@ == snippet_rows(bs, lr, start as int, i as int, error_line as nat, column as nat),
            decreases end - i,
        {
            let (ls, le) = lines[i];
            assert(lr[i as int] == (ls as int, le as int));
            push_row(&mut out, b, ls, le, i, error_line, column);
            i += 1;
        }
        assert(start as int == if error_line >= context_lines + 1 { error_line - (context_lines + 1) } else { 0 });
        utf8_text(out)
    }
}

impl Default for ErrorContext {
    fn default() -> (r: ErrorContext)
        ensures
            r.file is None,
            r.line is None,
    {
        ErrorContext::new()
    }
}

} // verus!
