//! Limits and input checks applied around a formatting run.

use crate::error::{decimal, decimal_text, decimal_text_u64, RfmtError};
use vstd::prelude::*;
use vstd::string::StringExecFns;
use vstd::utf8::encode_utf8;

verus! {

/// Relies on `num_cpus::get`: the number of CPUs available to this
/// process, which its documentation promises is at least one.
#[verifier::external_body]
fn available_cpus() -> (r: usize)
    ensures
        r >= 1,
{
    num_cpus::get()
}

/// Relies on `std::backtrace::Backtrace::capture`, rendered as text; what it
/// holds depends on the environment.
#[verifier::external_body]
fn backtrace_text() -> (r: String) {
    std::backtrace::Backtrace::capture().to_string()
}

/// Limits for one run.
#[derive(Debug, Clone, Copy, PartialEq, Eq, Structural)]
pub struct SecurityPolicy {
    /// Largest accepted file, in bytes.
    pub max_file_size: u64,
    /// Largest accepted memory growth, in bytes.
    pub max_memory_usage: usize,
    /// Longest accepted run, in seconds.
    pub timeout_seconds: u64,
    /// Deepest accepted tree nesting.
    pub max_recursion_depth: usize,
    /// Most worker threads.
    pub max_threads: usize,
    /// Whether symbolic links are followed.
    pub allow_symlinks: bool,
}

impl Default for SecurityPolicy {
    fn default() -> (r: SecurityPolicy)
        ensures
            r.max_file_size == 10 * 1024 * 1024,
            r.max_memory_usage == 100 * 1024 * 1024,
            r.timeout_seconds == 30,
            r.max_recursion_depth == 1000,
            1 <= r.max_threads <= 4,
            !r.allow_symlinks,
    {
        let cpus = available_cpus();
        SecurityPolicy {
            max_file_size: 10 * 1024 * 1024,
            max_memory_usage: 100 * 1024 * 1024,
            timeout_seconds: 30,
            max_recursion_depth: 1000,
            max_threads: if cpus < 4 { cpus } else { 4 },
            allow_symlinks: false,
        }
    }
}

impl SecurityPolicy {
    /// The default limits.
    pub fn new() -> (r: SecurityPolicy)
        ensures
            r.max_file_size == 10 * 1024 * 1024,
            r.max_memory_usage == 100 * 1024 * 1024,
            r.timeout_seconds == 30,
            r.max_recursion_depth == 1000,
            1 <= r.max_threads <= 4,
            !r.allow_symlinks,
    {
        SecurityPolicy::default()
    }

    /// Tighter limits.
    pub fn strict() -> (r: SecurityPolicy)
        ensures
            r == (SecurityPolicy {
                max_file_size: 5242880u64,
                max_memory_usage: 52428800usize,
                timeout_seconds: 15,
                max_recursion_depth: 500,
                max_threads: 2,
                allow_symlinks: false,
            }),
    {
        SecurityPolicy {
            max_file_size: 5 * 1024 * 1024,
            max_memory_usage: 50 * 1024 * 1024,
            timeout_seconds: 15,
            max_recursion_depth: 500,
            max_threads: 2,
            allow_symlinks: false,
        }
    }

    /// Relaxed limits, with one thread per available CPU.
    pub fn permissive() -> (r: SecurityPolicy)
        ensures
            r.max_file_size == 50 * 1024 * 1024,
            r.max_memory_usage == 500 * 1024 * 1024,
            r.timeout_seconds == 120,
            r.max_recursion_depth == 5000,
            r.max_threads >= 1,
            r.allow_symlinks,
    {
        SecurityPolicy {
            max_file_size: 50 * 1024 * 1024,
            max_memory_usage: 500 * 1024 * 1024,
            timeout_seconds: 120,
            max_recursion_depth: 5000,
            max_threads: available_cpus(),
            allow_symlinks: true,
        }
    }

    /// Whether nesting depth `depth` is within the policy.
    pub fn check_recursion_depth(&self, depth: usize) -> (r: Result<(), RfmtError>)
        ensures
            r is Ok <==> depth <= self.max_recursion_depth,
    {
        check_recursion_depth(depth, self.max_recursion_depth)
    }

    /// Whether source text of this size is within the policy.
    pub fn validate_source_size(&self, source: &str) -> (r: Result<(), RfmtError>)
        ensures
            r is Ok <==> encode_utf8(source@).len() <= self.max_file_size,
    {
        validate_source_size(source, self.max_file_size)
    }
}

/// Fails when nesting depth `current_depth` is beyond `max_depth`.
pub fn check_recursion_depth(current_depth: usize, max_depth: usize) -> (r: Result<(), RfmtError>)
    ensures
        r is Ok <==> current_depth <= max_depth,
        r matches Err(RfmtError::InternalError { message, .. }) ==> message@ == "Maximum recursion depth ("@
            + decimal(max_depth as nat) + ") exceeded. Current depth: "@ + decimal(current_depth as nat),
        r is Err ==> r matches Err(RfmtError::InternalError { .. }),
{
    if current_depth > max_depth {
        return Err(RfmtError::InternalError {
            message: String::from_str("Maximum recursion depth (").concat(decimal_text(max_depth).as_str())
                .concat(") exceeded. Current depth: ").concat(decimal_text(current_depth).as_str()),
            backtrace: backtrace_text(),
        });
    }
    Ok(())
}

/// Fails when `source` holds more than `max_size` bytes.
pub fn validate_source_size(source: &str, max_size: u64) -> (r: Result<(), RfmtError>)
    ensures
        r is Ok <==> encode_utf8(source@).len() <= max_size,
        r matches Err(e) ==> e matches RfmtError::UnsupportedFeature { feature, explanation }
            && feature@ == "Large source code"@
            && explanation@ == "Source code size ("@ + decimal(encode_utf8(source@).len()) + " bytes) exceeds maximum ("@
                + decimal(max_size as nat) + " bytes). This limit prevents resource exhaustion."@,
{
    let size = source.as_bytes().len() as u64;
    if size > max_size {
        return Err(RfmtError::UnsupportedFeature {
            feature: String::from_str("Large source code"),
            explanation: String::from_str("Source code size (").concat(decimal_text_u64(size).as_str())
                .concat(" bytes) exceeds maximum (").concat(decimal_text_u64(max_size).as_str())
                .concat(" bytes). This limit prevents resource exhaustion."),
        });
    }
    Ok(())
}

/// Fails when `source` holds a NUL character.
pub fn validate_encoding(source: &str) -> (r: Result<(), RfmtError>)
    ensures
        r is Ok <==> !encode_utf8(source@).contains(0u8),
        r matches Err(e) ==> e matches RfmtError::UnsupportedFeature { feature, explanation }
            && feature@ == "Source with null bytes"@
            && explanation@ == "Ruby source code should not contain null bytes"@,
{
    let b = source.as_bytes();
    let mut i: usize = 0;
    while i < b.len()
        invariant
            i <= b@.len(),
            b@ == encode_utf8(source@),
            forall|k: int| 0 <= k < i ==> b@[k] != 0u8,
        decreases b@.len() - i,
    {
        if b[i] == 0u8 {
            assert(encode_utf8(source@)[i as int] == 0u8);
            return Err(RfmtError::UnsupportedFeature {
                feature: String::from_str("Source with null bytes"),
                explanation: String::from_str("Ruby source code should not contain null bytes"),
            });
        }
        i += 1;
    }
    Ok(())
}

/// `p` without its trailing `/` bytes.
pub open spec fn trim_slashes(p: Seq<u8>) -> Seq<u8>
    decreases p.len(),
{
    if p.len() > 0 && p.last() == 47u8 { trim_slashes(p.drop_last()) } else { p }
}

/// Position after the last `b` in `p[..k]`, or 0.
pub open spec fn after_last(p: Seq<u8>, b: u8, k: int) -> int
    decreases k,
{
    if k <= 0 { 0 } else if p[k - 1] == b { k } else { after_last(p, b, k - 1) }
}

/// The last component of a path, as `Path::file_name` gives it: none for an
/// empty path, `.` or `..`.
pub open spec fn file_name(p: Seq<u8>) -> Option<Seq<u8>> {
    let t = trim_slashes(p);
    let name = t.subrange(after_last(t, 47u8, t.len() as int), t.len() as int);
    if name.len() == 0 || name == seq![46u8] || name == seq![46u8, 46u8] { None } else { Some(name) }
}

/// The extension of a path, as `Path::extension` gives it: what follows the
/// last dot of the file name, unless that dot starts the name.
pub open spec fn extension(p: Seq<u8>) -> Option<Seq<u8>> {
    match file_name(p) {
        Some(name) => {
            let d = after_last(name, 46u8, name.len() as int);
            if d <= 1 { None } else { Some(name.subrange(d, name.len() as int)) }
        },
        None => None,
    }
}

/// Ruby files known by name, without an extension.
pub open spec fn known_ruby_name(n: Seq<u8>) -> bool {
    n == seq![71u8, 101, 109, 102, 105, 108, 101] || n == seq![82u8, 97, 107, 101, 102, 105, 108, 101] || n == seq![71u8, 117, 97, 114, 100, 102, 105, 108, 101]
        || n == seq![67u8, 97, 112, 102, 105, 108, 101] || n == seq![86u8, 97, 103, 114, 97, 110, 116, 102, 105, 108, 101]
}

/// The path names a Ruby file: extension `rb`, `rake` or `ru`, or no
/// extension and a known name.
pub open spec fn ruby_path(p: Seq<u8>) -> bool {
    let ext = match extension(p) { Some(e) => e, None => Seq::empty() };
    if ext == seq![114u8, 98] || ext == seq![114u8, 97, 107, 101] || ext == seq![114u8, 117] {
        true
    } else if ext.len() == 0 {
        file_name(p) matches Some(n) && known_ruby_name(n)
    } else {
        false
    }
}

/// Position after the last `b` in `p[..k]`, or 0.
fn after_last_in(p: &[u8], b: u8, k: usize) -> (r: usize)
    requires
        k <= p@.len(),
    ensures
        r as int == after_last(p@, b, k as int),
        r <= k,
{
    let mut i = k;
    while i > 0 && p[i - 1] != b
        invariant
            i <= k <= p@.len(),
            after_last(p@, b, i as int) == after_last(p@, b, k as int),
        decreases i,
    {
        i -= 1;
    }
    i
}

/// Position where the file name of `p` starts and where it ends.
fn name_bounds(p: &[u8]) -> (r: (usize, usize))
    ensures
        ({
            let t = trim_slashes(p@);
            &&& r.1 as int == t.len()
            &&& r.0 as int == after_last(t, 47u8, t.len() as int)
            &&& r.0 <= r.1 <= p@.len()
            &&& t == p@.subrange(0, r.1 as int)
        }),
{
    let mut e = p.len();
    assert(p@.subrange(0, e as int) =~= p@);
    while e > 0 && p[e - 1] == 47u8
        invariant
            e <= p@.len(),
            trim_slashes(p@.subrange(0, e as int)) == trim_slashes(p@),
        decreases e,
    {
        assert(p@.subrange(0, e as int).drop_last() =~= p@.subrange(0, e - 1));
        e -= 1;
    }
    let s = after_last_in(p, 47u8, e);
    proof {
        let t = p@.subrange(0, e as int);
        assert(trim_slashes(t) == t);
        lemma_after_last_prefix(p@, 47u8, e as int);
    }
    (s, e)
}

proof fn lemma_after_last_prefix(p: Seq<u8>, b: u8, k: int)
    requires
        0 <= k <= p.len(),
    ensures
        after_last(p.subrange(0, k), b, k) == after_last(p, b, k),
    decreases k,
{
    if k > 0 {
        lemma_after_last_prefix(p, b, k - 1);
        lemma_after_last_shift(p, b, k, k - 1);
    }
}

proof fn lemma_after_last_shift(p: Seq<u8>, b: u8, k: int, j: int)
    requires
        0 <= j <= k <= p.len(),
    ensures
        after_last(p.subrange(0, k), b, j) == after_last(p.subrange(0, j), b, j),
    decreases j,
{
    if j > 0 {
        lemma_after_last_shift(p, b, k, j - 1);
        lemma_after_last_shift(p, b, j, j - 1);
    }
}

proof fn lemma_after_last_window(p: Seq<u8>, b: u8, s: int, e: int)
    requires
        0 <= s <= e <= p.len(),
    ensures
        after_last(p.subrange(s, e), b, e - s) == if after_last(p, b, e) > s { after_last(p, b, e) - s } else { 0 },
        after_last(p, b, e) <= e,
    decreases e - s,
{
    if e > s {
        lemma_after_last_window(p, b, s, e - 1);
        let w = p.subrange(s, e);
        let w1 = p.subrange(s, e - 1);
        assert(w[e - s - 1] == p[e - 1]);
        lemma_after_last_shift(w, b, e - s, e - s - 1);
        assert(w.subrange(0, e - s - 1) =~= w1);
        lemma_after_last_prefix(w, b, e - s - 1);
    } else {
        lemma_after_last_le(p, b, e);
    }
}

proof fn lemma_after_last_le(p: Seq<u8>, b: u8, k: int)
    requires
        0 <= k <= p.len(),
    ensures
        after_last(p, b, k) <= k,
    decreases k,
{
    if k > 0 {
        lemma_after_last_le(p, b, k - 1);
    }
}

/// `p[s..e]` equals `l`.
fn range_is(p: &[u8], s: usize, e: usize, l: &[u8]) -> (r: bool)
    requires
        s <= e <= p@.len(),
    ensures
        r == (p@.subrange(s as int, e as int) == l@),
{
    if e - s != l.len() {
        return false;
    }
    let mut i: usize = 0;
    while i < l.len()
        invariant
            e - s == l@.len(),
            s <= e <= p@.len(),
            i <= l@.len(),
            forall|k: int| 0 <= k < i ==> #[trigger] p@.subrange(s as int, e as int)[k] == l@[k],
        decreases l@.len() - i,
    {
        if p[s + i] != l[i] {
            assert(p@.subrange(s as int, e as int)[i as int] != l@[i as int]);
            return false;
        }
        i += 1;
    }
    assert(p@.subrange(s as int, e as int) =~= l@);
    true
}

/// Accepts Ruby files by extension (`.rb`, `.rake`, `.ru`) or by known name
/// (`Gemfile`, `Rakefile`, `Guardfile`, `Capfile`, `Vagrantfile`).
pub fn validate_file_extension(path: &str) -> (r: Result<(), RfmtError>)
    ensures
        r is Ok <==> ruby_path(encode_utf8(path@)),
        r is Err ==> r matches Err(RfmtError::UnsupportedFeature { .. }),
{
    let p = path.as_bytes();
    let rb: [u8; 2] = [114u8, 98];
    assert(rb@ =~= seq![114u8, 98]);
    let rake: [u8; 4] = [114u8, 97, 107, 101];
    assert(rake@ =~= seq![114u8, 97, 107, 101]);
    let ru: [u8; 2] = [114u8, 117];
    assert(ru@ =~= seq![114u8, 117]);
    let gemfile: [u8; 7] = [71u8, 101, 109, 102, 105, 108, 101];
    assert(gemfile@ =~= seq![71u8, 101, 109, 102, 105, 108, 101]);
    let rakefile: [u8; 8] = [82u8, 97, 107, 101, 102, 105, 108, 101];
    assert(rakefile@ =~= seq![82u8, 97, 107, 101, 102, 105, 108, 101]);
    let guardfile: [u8; 9] = [71u8, 117, 97, 114, 100, 102, 105, 108, 101];
    assert(guardfile@ =~= seq![71u8, 117, 97, 114, 100, 102, 105, 108, 101]);
    let capfile: [u8; 7] = [67u8, 97, 112, 102, 105, 108, 101];
    assert(capfile@ =~= seq![67u8, 97, 112, 102, 105, 108, 101]);
    let vagrantfile: [u8; 11] = [86u8, 97, 103, 114, 97, 110, 116, 102, 105, 108, 101];
    assert(vagrantfile@ =~= seq![86u8, 97, 103, 114, 97, 110, 116, 102, 105, 108, 101]);
    let (s, e) = name_bounds(p);
    let ghost pb = p@;
    let ghost t = trim_slashes(pb);
    let ghost name = t.subrange(s as int, e as int);
    assert(name =~= pb.subrange(s as int, e as int));
    let has_name = !(e == s || range_is(p, s, e, &[46]) || range_is(p, s, e, &[46, 46]));
    proof {
        assert([46u8]@ =~= seq![46u8]);
        assert([46u8, 46u8]@ =~= seq![46u8, 46u8]);
        assert(has_name == (file_name(pb) is Some));
    }
    let mut ext_start: usize = e;
    if has_name {
        let d = after_last_in(p, 46u8, e);
        proof {
            lemma_after_last_window(pb, 46u8, s as int, e as int);
            assert(file_name(pb) == Some(name));
        }
        if d > s + 1 {
            ext_start = d;
            proof {
                assert(name.subrange(d - s, name.len() as int) =~= pb.subrange(d as int, e as int));
            }
        }
    }
    let ghost ext = match extension(pb) {
        Some(x) => x,
        None => Seq::<u8>::empty(),
    };
    assert(ext =~= pb.subrange(ext_start as int, e as int));
    if range_is(p, ext_start, e, &rb) || range_is(p, ext_start, e, &rake) || range_is(p, ext_start, e, &ru) {
        return Ok(());
    }
    if ext_start == e {
        if !has_name {
            return Err(RfmtError::UnsupportedFeature {
                feature: String::from_str("File with no name"),
                explanation: String::from_str("Cannot determine if this is a Ruby file"),
            });
        }
        if range_is(p, s, e, &gemfile) || range_is(p, s, e, &rakefile) || range_is(p, s, e, &guardfile)
            || range_is(p, s, e, &capfile) || range_is(p, s, e, &vagrantfile) {
            return Ok(());
        }
        return Err(RfmtError::UnsupportedFeature {
            feature: String::from_str("File without Ruby extension"),
            explanation: String::from_str("Expected a Ruby file (.rb, .rake, .ru) or known Ruby file (Gemfile, Rakefile, etc.)"),
        });
    }
    Err(RfmtError::UnsupportedFeature {
        feature: String::from_str("File with an unsupported extension"),
        explanation: String::from_str("Expected a Ruby file (.rb, .rake, .ru)"),
    })
}

} // verus!
