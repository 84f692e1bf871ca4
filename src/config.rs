//! Style configuration. Only the indent unit and width reach the emitter;
//! the other options are carried for constructs outside it.

use crate::emitter::find_in;
use crate::layout::find_byte;
use crate::text::bytes_eq;
use crate::error::{decimal, decimal_text, RfmtError};
use vstd::prelude::*;
use vstd::string::StringExecFns;
use vstd::utf8::encode_utf8;

verus! {

/// Line width when none is configured.
pub fn default_line_length() -> (r: usize)
    ensures
        r == 100,
{
    100
}

/// Indent width when none is configured.
pub fn default_indent_width() -> (r: usize)
    ensures
        r == 2,
{
    2
}

/// Whether one indent level is a run of spaces or a tab.
#[derive(Debug, Clone, Copy, PartialEq, Eq, Structural)]
pub enum IndentStyle {
    Spaces,
    Tabs,
}

impl Default for IndentStyle {
    fn default() -> (r: IndentStyle)
        ensures
            r == IndentStyle::Spaces,
    {
        IndentStyle::Spaces
    }
}

/// Preferred string quote.
#[derive(Debug, Clone, Copy, PartialEq, Eq, Structural)]
pub enum QuoteStyle {
    Double,
    Single,
    Consistent,
}

impl Default for QuoteStyle {
    fn default() -> (r: QuoteStyle)
        ensures
            r == QuoteStyle::Double,
    {
        QuoteStyle::Double
    }
}

/// Preferred hash literal syntax.
#[derive(Debug, Clone, Copy, PartialEq, Eq, Structural)]
pub enum HashSyntax {
    Ruby19,
    HashRockets,
    Consistent,
}

impl Default for HashSyntax {
    fn default() -> (r: HashSyntax)
        ensures
            r == HashSyntax::Ruby19,
    {
        HashSyntax::Ruby19
    }
}

/// Preferred trailing-comma placement.
#[derive(Debug, Clone, Copy, PartialEq, Eq, Structural)]
pub enum TrailingComma {
    Always,
    Never,
    Multiline,
}

impl Default for TrailingComma {
    fn default() -> (r: TrailingComma)
        ensures
            r == TrailingComma::Multiline,
    {
        TrailingComma::Multiline
    }
}

/// Options of the front-end parser.
#[derive(Debug, Clone)]
pub struct ParserConfig {
    pub version: String,
    pub error_tolerance: bool,
    pub encoding: String,
}

impl Default for ParserConfig {
    fn default() -> (r: ParserConfig)
        ensures
            r.version@ == "latest"@,
            r.error_tolerance,
            r.encoding@ == "UTF-8"@,
    {
        ParserConfig {
            version: String::from_str("latest"),
            error_tolerance: true,
            encoding: String::from_str("UTF-8"),
        }
    }
}

/// Literal-style preferences.
#[derive(Debug, Clone, Copy, PartialEq, Eq, Structural)]
pub struct StyleConfig {
    pub quotes: QuoteStyle,
    pub hash_syntax: HashSyntax,
    pub trailing_comma: TrailingComma,
}

impl Default for StyleConfig {
    fn default() -> (r: StyleConfig)
        ensures
            r == (StyleConfig {
                quotes: QuoteStyle::Double,
                hash_syntax: HashSyntax::Ruby19,
                trailing_comma: TrailingComma::Multiline,
            }),
    {
        StyleConfig {
            quotes: QuoteStyle::Double,
            hash_syntax: HashSyntax::Ruby19,
            trailing_comma: TrailingComma::Multiline,
        }
    }
}

/// Layout options.
#[derive(Debug, Clone, Copy, PartialEq, Eq, Structural)]
pub struct FormattingConfig {
    pub line_length: usize,
    pub indent_style: IndentStyle,
    pub indent_width: usize,
    pub quote_style: QuoteStyle,
    pub style: StyleConfig,
}

impl Default for FormattingConfig {
    fn default() -> (r: FormattingConfig)
        ensures
            r.line_length == 100,
            r.indent_style == IndentStyle::Spaces,
            r.indent_width == 2,
            r.quote_style == QuoteStyle::Double,
    {
        FormattingConfig {
            line_length: default_line_length(),
            indent_style: IndentStyle::Spaces,
            indent_width: default_indent_width(),
            quote_style: QuoteStyle::Double,
            style: StyleConfig::default(),
        }
    }
}

/// The whole configuration.
#[derive(Debug, Clone)]
pub struct Config {
    pub version: String,
    pub parser: ParserConfig,
    pub formatting: FormattingConfig,
    pub includes: Vec<String>,
    pub exclude: Vec<String>,
}

/// The characters of one indent level.
pub open spec fn indent_unit(f: FormattingConfig) -> Seq<char> {
    match f.indent_style {
        IndentStyle::Spaces => Seq::new(f.indent_width as nat, |i: int| ' '),
        IndentStyle::Tabs => seq!['\t'],
    }
}

/// A `**` starts at position `i` of `p`.
pub open spec fn pair_at(p: Seq<u8>, i: int) -> bool {
    0 <= i && i + 1 < p.len() && p[i] == 42u8 && p[i + 1] == 42u8
}

/// First position at or after `from` where `**` starts, or the length.
pub open spec fn find_pair(p: Seq<u8>, from: int) -> int
    decreases p.len() - from,
{
    if from < 0 || from + 1 >= p.len() {
        p.len() as int
    } else if pair_at(p, from) {
        from
    } else {
        find_pair(p, from + 1)
    }
}

/// `p` without its leading `b` bytes.
pub open spec fn strip_leading(p: Seq<u8>, b: u8) -> Seq<u8>
    decreases p.len(),
{
    if p.len() > 0 && p[0] == b { strip_leading(p.subrange(1, p.len() as int), b) } else { p }
}

/// `a` begins with `pre`.
pub open spec fn starts_with(a: Seq<u8>, pre: Seq<u8>) -> bool {
    pre.len() <= a.len() && a.subrange(0, pre.len() as int) == pre
}

/// `a` ends with `suf`.
pub open spec fn ends_with(a: Seq<u8>, suf: Seq<u8>) -> bool {
    suf.len() <= a.len() && a.subrange(a.len() - suf.len(), a.len() as int) == suf
}

/// Whether `path` matches the simple glob `pat`: one `**` (a prefix, then
/// any depth, then a suffix or `*` and an ending), one `*` (a prefix and an
/// ending), or no wildcard (equality). Other shapes match nothing.
pub open spec fn glob_matches(path: Seq<u8>, pat: Seq<u8>) -> bool {
    let i = find_pair(pat, 0);
    if i < pat.len() {
        if find_pair(pat, i + 2) < pat.len() {
            false
        } else {
            let prefix = pat.subrange(0, i);
            let suffix = strip_leading(pat.subrange(i + 2, pat.len() as int), 47u8);
            if prefix.len() > 0 && !starts_with(path, prefix) {
                false
            } else if suffix.len() == 0 {
                true
            } else if suffix[0] == 42u8 {
                ends_with(path, strip_leading(suffix, 42u8))
            } else {
                ends_with(path, suffix)
            }
        }
    } else {
        let j = find_byte(pat, 0, pat.len() as int, 42u8);
        if j < pat.len() {
            if find_byte(pat, j + 1, pat.len() as int, 42u8) < pat.len() {
                false
            } else {
                let prefix = pat.subrange(0, j);
                let suffix = pat.subrange(j + 1, pat.len() as int);
                if prefix.len() == 0 {
                    ends_with(path, suffix)
                } else if suffix.len() == 0 {
                    starts_with(path, prefix)
                } else {
                    starts_with(path, prefix) && ends_with(path, suffix)
                }
            }
        } else {
            path == pat
        }
    }
}

/// Some pattern of `pats` matches `path`.
pub open spec fn any_matches(path: Seq<u8>, pats: Seq<String>) -> bool {
    exists|i: int| 0 <= i < pats.len() && glob_matches(path, encode_utf8(#[trigger] pats[i]@))
}

/// First position at or after `from` where `**` starts, or the length.
fn find_pair_in(p: &[u8], from: usize) -> (r: usize)
    ensures
        r as int == find_pair(p@, from as int),
        r < p@.len() ==> r + 1 < p@.len(),
{
    let mut i = from;
    while i < p.len() && i + 1 < p.len() && !(p[i] == 42u8 && p[i + 1] == 42u8)
        invariant
            from <= i,
            find_pair(p@, i as int) == find_pair(p@, from as int),
        decreases p@.len() - i,
    {
        i += 1;
    }
    if i < p.len() && i + 1 < p.len() { i } else { p.len() }
}

/// Position after the leading `b` bytes of `p[from..]`.
fn skip_leading(p: &[u8], from: usize, b: u8) -> (r: usize)
    requires
        from <= p@.len(),
    ensures
        from <= r <= p@.len(),
        p@.subrange(r as int, p@.len() as int) == strip_leading(p@.subrange(from as int, p@.len() as int), b),
{
    let mut i = from;
    while i < p.len() && p[i] == b
        invariant
            from <= i <= p@.len(),
            strip_leading(p@.subrange(i as int, p@.len() as int), b)
                == strip_leading(p@.subrange(from as int, p@.len() as int), b),
        decreases p@.len() - i,
    {
        assert(p@.subrange(i as int, p@.len() as int).subrange(1, p@.len() - i) =~= p@.subrange(i + 1, p@.len() as int));
        i += 1;
    }
    i
}

/// `a` begins with `p[s..e]`.
fn starts_with_range(a: &[u8], p: &[u8], s: usize, e: usize) -> (r: bool)
    requires
        s <= e <= p@.len(),
    ensures
        r == starts_with(a@, p@.subrange(s as int, e as int)),
{
    let n = e - s;
    if n > a.len() {
        return false;
    }
    let mut i: usize = 0;
    while i < n
        invariant
            n == e - s,
            n <= a@.len(),
            s <= e <= p@.len(),
            i <= n,
            forall|k: int| 0 <= k < i ==> a@[k] == p@[s + k],
        decreases n - i,
    {
        if a[i] != p[s + i] {
            assert(a@.subrange(0, n as int)[i as int] != p@.subrange(s as int, e as int)[i as int]);
            return false;
        }
        i += 1;
    }
    assert(a@.subrange(0, n as int) =~= p@.subrange(s as int, e as int));
    true
}

/// `a` ends with `p[s..e]`.
fn ends_with_range(a: &[u8], p: &[u8], s: usize, e: usize) -> (r: bool)
    requires
        s <= e <= p@.len(),
    ensures
        r == ends_with(a@, p@.subrange(s as int, e as int)),
{
    let n = e - s;
    if n > a.len() {
        return false;
    }
    let alen = a.len();
    let off = alen - n;
    let mut i: usize = 0;
    while i < n
        invariant
            n == e - s,
            n <= a@.len(),
            off == a@.len() - n,
            off + n == a@.len(),
            alen == a@.len(),
            s <= e <= p@.len(),
            i <= n,
            forall|k: int| 0 <= k < i ==> #[trigger] a@.subrange(off as int, a@.len() as int)[k] == p@.subrange(s as int, e as int)[k],
        decreases n - i,
    {
        assert(off + i < a@.len());
        if a[off + i] != p[s + i] {
            assert(a@.subrange(off as int, a@.len() as int)[i as int] != p@.subrange(s as int, e as int)[i as int]);
            return false;
        }
        i += 1;
    }
    assert(a@.subrange(off as int, a@.len() as int) =~= p@.subrange(s as int, e as int));
    true
}

impl Default for Config {
    fn default() -> (r: Config)
        ensures
            r.version@ == "1.0"@,
            r.formatting.line_length == 100,
            r.formatting.indent_style == IndentStyle::Spaces,
            r.formatting.indent_width == 2,
            r.formatting.quote_style == QuoteStyle::Double,
            r.parser.version@ == "latest"@,
            r.parser.error_tolerance,
            r.parser.encoding@ == "UTF-8"@,
            r.includes@.len() == 2,
            r.includes@[0]@ == "**/*.rb"@,
            r.includes@[1]@ == "**/*.rake"@,
            r.exclude@.len() == 3,
            r.exclude@[0]@ == "vendor/**/*"@,
            r.exclude@[1]@ == "tmp/**/*"@,
            r.exclude@[2]@ == "node_modules/**/*"@,
    {
        let mut includes: Vec<String> = Vec::new();
        includes.push(String::from_str("**/*.rb"));
        includes.push(String::from_str("**/*.rake"));
        let mut exclude: Vec<String> = Vec::new();
        exclude.push(String::from_str("vendor/**/*"));
        exclude.push(String::from_str("tmp/**/*"));
        exclude.push(String::from_str("node_modules/**/*"));
        Config {
            version: String::from_str("1.0"),
            parser: ParserConfig::default(),
            formatting: FormattingConfig::default(),
            includes,
            exclude,
        }
    }
}

/// The first problem `validate` reports for a configuration, if any, as
/// (message, suggestion).
pub open spec fn config_problem(c: Config) -> Option<(Seq<char>, Seq<char>)> {
    if c.formatting.line_length < 40 || c.formatting.line_length > 500 {
        Some((
            "Invalid line_length: "@ + decimal(c.formatting.line_length as nat) + ". Must be between 40 and 500"@,
            "Use a value between 40 and 500, commonly 80, 100, or 120"@,
        ))
    } else if c.formatting.indent_width < 1 || c.formatting.indent_width > 8 {
        Some((
            "Invalid indent_width: "@ + decimal(c.formatting.indent_width as nat) + ". Must be between 1 and 8"@,
            "Use 2 for Ruby (standard), or 4 for other preferences"@,
        ))
    } else if exists|i: int| 0 <= i < c.includes@.len() && (#[trigger] c.includes@[i])@.len() == 0 {
        Some(("Empty pattern in 'include' list"@, "Remove empty patterns or use valid glob patterns"@))
    } else if exists|i: int| 0 <= i < c.exclude@.len() && (#[trigger] c.exclude@[i])@.len() == 0 {
        Some(("Empty pattern in 'exclude' list"@, "Remove empty patterns or use valid glob patterns"@))
    } else {
        None
    }
}

impl Config {
    /// Checks the option values: line length within 40..=500, indent width
    /// within 1..=8, no empty glob pattern. The error names `file`.
    pub fn validate(&self, file: &str) -> (r: Result<(), RfmtError>)
        ensures
            match config_problem(*self) {
                None => r is Ok,
                Some((m, s)) => r matches Err(RfmtError::ConfigError { message, file: f, suggestion })
                    && message@ == m && f@ == file@ && suggestion@ == s,
            },
    {
        let ll = self.formatting.line_length;
        if ll < 40 || ll > 500 {
            return Err(RfmtError::ConfigError {
                message: String::from_str("Invalid line_length: ").concat(decimal_text(ll).as_str())
                    .concat(". Must be between 40 and 500"),
                file: String::from_str(file),
                suggestion: String::from_str("Use a value between 40 and 500, commonly 80, 100, or 120"),
            });
        }
        let iw = self.formatting.indent_width;
        if iw < 1 || iw > 8 {
            return Err(RfmtError::ConfigError {
                message: String::from_str("Invalid indent_width: ").concat(decimal_text(iw).as_str())
                    .concat(". Must be between 1 and 8"),
                file: String::from_str(file),
                suggestion: String::from_str("Use 2 for Ruby (standard), or 4 for other preferences"),
            });
        }
        let mut i: usize = 0;
        while i < self.includes.len()
            invariant
                40 <= self.formatting.line_length <= 500,
                1 <= self.formatting.indent_width <= 8,
                i <= self.includes@.len(),
                forall|k: int| 0 <= k < i ==> (#[trigger] self.includes@[k])@.len() != 0,
            decreases self.includes@.len() - i,
        {
            if self.includes[i].as_str().is_empty() {
                assert(self.includes@[i as int]@.len() == 0);
                return Err(RfmtError::ConfigError {
                    message: String::from_str("Empty pattern in 'include' list"),
                    file: String::from_str(file),
                    suggestion: String::from_str("Remove empty patterns or use valid glob patterns"),
                });
            }
            i += 1;
        }
        let mut j: usize = 0;
        while j < self.exclude.len()
            invariant
                40 <= self.formatting.line_length <= 500,
                1 <= self.formatting.indent_width <= 8,
                j <= self.exclude@.len(),
                forall|k: int| 0 <= k < self.includes@.len() ==> (#[trigger] self.includes@[k])@.len() != 0,
                forall|k: int| 0 <= k < j ==> (#[trigger] self.exclude@[k])@.len() != 0,
            decreases self.exclude@.len() - j,
        {
            if self.exclude[j].as_str().is_empty() {
                assert(self.exclude@[j as int]@.len() == 0);
                return Err(RfmtError::ConfigError {
                    message: String::from_str("Empty pattern in 'exclude' list"),
                    file: String::from_str(file),
                    suggestion: String::from_str("Remove empty patterns or use valid glob patterns"),
                });
            }
            j += 1;
        }
        Ok(())
    }

    /// Whether `path` matches the simple glob `pattern` (see
    /// [`glob_matches`]).
    pub fn matches_glob(path: &str, pattern: &str) -> (r: bool)
        ensures
            r == glob_matches(encode_utf8(path@), encode_utf8(pattern@)),
    {
        let a = path.as_bytes();
        let p = pattern.as_bytes();
        let n = p.len();
        let i = find_pair_in(p, 0);
        if i < n {
            if find_pair_in(p, i + 2) < n {
                return false;
            }
            let t = skip_leading(p, i + 2, 47u8);
            if i > 0 && !starts_with_range(a, p, 0, i) {
                return false;
            }
            if t == n {
                return true;
            }
            if p[t] == 42u8 {
                let u = skip_leading(p, t, 42u8);
                proof {
                    let suffix = p@.subrange(t as int, n as int);
                    assert(suffix[0] == 42u8);
                }
                return ends_with_range(a, p, u, n);
            }
            ends_with_range(a, p, t, n)
        } else {
            let j = find_in(p, 0, n, 42u8);
            if j < n {
                if find_in(p, j + 1, n, 42u8) < n {
                    return false;
                }
                if j == 0 {
                    ends_with_range(a, p, 1, n)
                } else if j + 1 == n {
                    starts_with_range(a, p, 0, j)
                } else {
                    starts_with_range(a, p, 0, j) && ends_with_range(a, p, j + 1, n)
                }
            } else {
                let r = bytes_eq(a, p);
                r
            }
        }
    }

    /// Whether a file should be formatted: no exclude pattern matches it,
    /// and some include pattern does (every file when there are none).
    pub fn should_include(&self, path: &str) -> (r: bool)
        ensures
            r == (!any_matches(encode_utf8(path@), self.exclude@)
                && (self.includes@.len() == 0 || any_matches(encode_utf8(path@), self.includes@))),
    {
        let mut i: usize = 0;
        while i < self.exclude.len()
            invariant
                i <= self.exclude@.len(),
                forall|k: int| 0 <= k < i ==> !glob_matches(encode_utf8(path@), encode_utf8(#[trigger] self.exclude@[k]@)),
            decreases self.exclude@.len() - i,
        {
            if Config::matches_glob(path, self.exclude[i].as_str()) {
                assert(glob_matches(encode_utf8(path@), encode_utf8(self.exclude@[i as int]@)));
                return false;
            }
            i += 1;
        }
        if self.includes.len() == 0 {
            return true;
        }
        let mut j: usize = 0;
        while j < self.includes.len()
            invariant
                j <= self.includes@.len(),
                forall|k: int| 0 <= k < self.exclude@.len() ==> !glob_matches(encode_utf8(path@), encode_utf8(#[trigger] self.exclude@[k]@)),
                forall|k: int| 0 <= k < j ==> !glob_matches(encode_utf8(path@), encode_utf8(#[trigger] self.includes@[k]@)),
            decreases self.includes@.len() - j,
        {
            if Config::matches_glob(path, self.includes[j].as_str()) {
                assert(glob_matches(encode_utf8(path@), encode_utf8(self.includes@[j as int]@)));
                return true;
            }
            j += 1;
        }
        false
    }

    /// The text of one indent level: `indent_width` spaces, or one tab.
    pub fn indent_string(&self) -> (r: String)
        ensures
            r@ == indent_unit(self.formatting),
    {
        match self.formatting.indent_style {
            IndentStyle::Spaces => {
                let mut s = String::new();
                let mut i: usize = 0;
                while i < self.formatting.indent_width
                    invariant
                        i <= self.formatting.indent_width,
                        s@ =~= Seq::new(i as nat, |k: int| ' '),
                    decreases self.formatting.indent_width - i,
                {
                    s.append(" ");
                    proof { reveal_strlit(" "); }
                    i += 1;
                }
                s
            },
            IndentStyle::Tabs => {
                proof { reveal_strlit("\t"); }
                String::from_str("\t")
            },
        }
    }
}

} // verus!
