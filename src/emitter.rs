//! The emission engine: one depth-first walk over the tree that writes
//! structural text for the constructs it knows, source slices for the rest,
//! and every comment exactly once.

use crate::ast::{Comment, Node, NodeType};
use crate::comments::{answer, lemma_picked_bound, locations, CommentIndex, Query};
use crate::config::{Config, IndentStyle};
use crate::error::RfmtError;
use crate::layout::{
    Ctx, EmitState, Flush, cview, cviews, put, mark, pending, indent, unit, nl, sp, kw_class, kw_module, kw_def, kw_end, kw_if, kw_unless, kw_elsif, kw_else, kw_do, kw_lbrace, kw_rbrace, kw_lt, kw_dot, line_fold, flush_before, trail_fold, trailing, consume_fold, put_slice, put_trimmed, skip_space, drop_space, find_byte, delimited, parse_count, digits_value, all_digits, meta, or_empty, structural, def_params, def_header, has_body, standalone, interior_fold, interior, separator, braces, first_statements, verbatim, block_params, emit_node, emit_list, emit_body, emit_def, cond_kw, emit_if, emit_else, block_body, emit_call, final_fold, finish, strip_newlines, start_state, run, deeper, line_after, inside, is_space, flatten, flatten_from, formatted, context, view_locations,
};
use crate::text::{
    lemma_append_valid, lemma_ascii_byte, lemma_ascii_valid, lemma_drop_ascii_valid, lemma_slice_valid, push_all,
    push_range, slice_ok,
};
use vstd::prelude::*;
use vstd::utf8::{decode_utf8, encode_utf8, valid_utf8};
use vstd::string::StringExecFns;

verus! {

broadcast use vstd::utf8::encode_utf8_valid_utf8, vstd::utf8::valid_utf8_concat;

/// The log lists each emitted comment once, and exactly the emitted ones.
pub open spec fn log_ok(st: EmitState) -> bool {
    &&& st.log.no_duplicates()
    &&& forall|i: int| 0 <= i < st.log.len() ==> #[trigger] st.log[i] < st.done.len()
    &&& forall|p: usize| p < st.done.len() ==> (st.done[p as int] <==> #[trigger] st.log.contains(p))
}

/// Appending in two steps is appending the concatenation.
proof fn lemma_put_assoc(st: EmitState, a: Seq<u8>, b: Seq<u8>)
    ensures
        put(put(st, a), b) == put(st, a + b),
{
    assert(st.out + a + b =~= st.out + (a + b));
}

/// Later digits never lower the value of a run of digits.
proof fn lemma_digits_grow(d: Seq<u8>, j: int, k: int)
    requires
        0 <= j <= k <= d.len(),
    ensures
        digits_value(d.subrange(0, j)) <= digits_value(d.subrange(0, k)),
    decreases k - j,
{
    if j < k {
        lemma_digits_grow(d, j, k - 1);
        assert(d.subrange(0, k).drop_last() =~= d.subrange(0, k - 1));
    }
}

/// Reads a count as `usize::from_str` does: an optional `+`, then digits.
fn parse_count_in(b: &[u8]) -> (r: Option<usize>)
    ensures
        match parse_count(b@) {
            Some(v) => r == Some(v as usize),
            None => r is None,
        },
{
    let start: usize = if b.len() > 0 && b[0] == 43u8 { 1 } else { 0 };
    let ghost d = if b@.len() > 0 && b@[0] == 43u8 { b@.subrange(1, b@.len() as int) } else { b@ };
    assert(d =~= b@.subrange(start as int, b@.len() as int));
    assert(parse_count(b@) == (if d.len() > 0 && all_digits(d) && digits_value(d) <= usize::MAX {
        Some(digits_value(d))
    } else {
        None
    }));
    if start >= b.len() {
        return None;
    }
    let mut v: usize = 0;
    let mut i: usize = start;
    assert(d.subrange(0, 0) =~= Seq::<u8>::empty());
    while i < b.len()
        invariant
            start <= i <= b@.len(),
            d =~= b@.subrange(start as int, b@.len() as int),
            parse_count(b@) == (if d.len() > 0 && all_digits(d) && digits_value(d) <= usize::MAX {
                Some(digits_value(d))
            } else {
                None
            }),
            all_digits(d.subrange(0, i - start)),
            v as int == digits_value(d.subrange(0, i - start)),
        decreases b@.len() - i,
    {
        let ch = b[i];
        if ch < 48u8 || ch > 57u8 {
            assert(d[i - start] == ch);
            assert(!all_digits(d));
            assert(parse_count(b@) is None);
            return None;
        }
        let ghost pre = d.subrange(0, i - start);
        let ghost next = d.subrange(0, i - start + 1);
        assert(next.drop_last() =~= pre);
        assert(digits_value(next) == digits_value(pre) * 10 + (ch - 48) as nat);
        match v.checked_mul(10) {
            None => {
                proof {
                    if all_digits(d) {
                        lemma_digits_grow(d, i - start + 1, d.len() as int);
                        assert(d.subrange(0, d.len() as int) =~= d);
                        assert(v * 10 > usize::MAX);
                        assert(digits_value(next) > usize::MAX);
                        assert(digits_value(d) > usize::MAX);
                    }
                    assert(parse_count(b@) is None);
                }
                return None;
            },
            Some(m) => match m.checked_add((ch - 48u8) as usize) {
                None => {
                    proof {
                        if all_digits(d) {
                            lemma_digits_grow(d, i - start + 1, d.len() as int);
                            assert(d.subrange(0, d.len() as int) =~= d);
                        }
                    }
                    return None;
                },
                Some(n) => {
                    v = n;
                },
            },
        }
        assert forall|t: int| 0 <= t < next.len() implies 48u8 <= #[trigger] next[t] <= 57u8 by {
            if t < pre.len() {
                assert(next[t] == pre[t]);
            }
        }
        i += 1;
    }
    assert(d.subrange(0, d.len() as int) =~= d);
    Some(v)
}

/// Nothing but blanks stands between the start of the physical line and
/// byte `off`.
fn standalone_at(src: &[u8], off: usize) -> (r: bool)
    ensures
        r == standalone(src@, off as int),
{
    if off > src.len() {
        return off == 0;
    }
    let mut i = off;
    while i > 0 && src[i - 1] != 10u8 && (src[i - 1] == 32u8 || src[i - 1] == 9u8)
        invariant
            i <= off <= src@.len(),
            standalone(src@, i as int) == standalone(src@, off as int),
        decreases i,
    {
        i -= 1;
    }
    i == 0 || src[i - 1] == 10u8
}

/// Whether a kind belongs to a definition's own grammar.
fn is_structural(k: &NodeType) -> (r: bool)
    ensures
        r == structural(*k),
{
    match k {
        NodeType::ConstantReadNode | NodeType::ConstantWriteNode | NodeType::ConstantPathNode
        | NodeType::RequiredParameterNode | NodeType::OptionalParameterNode
        | NodeType::RestParameterNode | NodeType::KeywordParameterNode
        | NodeType::KeywordRestParameterNode | NodeType::BlockParameterNode => true,
        _ => false,
    }
}

/// Some child of `n` is part of its body.
fn body_present(n: &Node) -> (r: bool)
    ensures
        r == has_body(*n),
{
    let mut i: usize = 0;
    while i < n.children.len()
        invariant
            i <= n.children@.len(),
            forall|j: int| 0 <= j < i ==> structural(#[trigger] n.children@[j].node_type),
        decreases n.children@.len() - i,
    {
        if !is_structural(&n.children[i].node_type) {
            return true;
        }
        i += 1;
    }
    false
}

/// Position of the first statement-list child of `n`.
fn statements_child(n: &Node) -> (r: Option<usize>)
    ensures
        r is Some <==> first_statements(n.children@, 0) is Some,
        r matches Some(i) ==> i < n.children@.len() && first_statements(n.children@, 0) == Some(i as int),
{
    let mut i: usize = 0;
    while i < n.children.len()
        invariant
            i <= n.children@.len(),
            first_statements(n.children@, i as int) == first_statements(n.children@, 0),
        decreases n.children@.len() - i,
    {
        if let NodeType::StatementsNode = n.children[i].node_type {
            return Some(i);
        }
        i += 1;
    }
    None
}

/// One level deeper.
fn next_level(level: usize) -> (r: usize)
    ensures
        r == deeper(level),
{
    if level < usize::MAX { level + 1 } else { level }
}

/// Whether source bytes `[s, e)` can be taken as text.
pub(crate) fn slice_fits(src: &[u8], s: usize, e: usize) -> (r: bool)
    ensures
        r == slice_ok(src@, s as int, e as int),
{
    if s > e || e > src.len() {
        return false;
    }
    let sb = s == src.len() || !(0x80u8 <= src[s] && src[s] <= 0xbfu8);
    let eb = e == src.len() || !(0x80u8 <= src[e] && src[e] <= 0xbfu8);
    sb && eb
}

/// Whether `b` is ASCII whitespace.
fn space_byte(b: u8) -> (r: bool)
    ensures
        r == is_space(b),
{
    b == 32u8 || (9u8 <= b && b <= 13u8)
}

/// First position in `[s, e)` that is not whitespace, or `e`.
fn skip_spaces(src: &[u8], s: usize, e: usize) -> (r: usize)
    requires
        s <= e,
    ensures
        r as int == skip_space(src@, s as int, e as int),
        s <= r <= e,
{
    let mut i = s;
    while i < e && i < src.len() && space_byte(src[i])
        invariant
            s <= i <= e,
            skip_space(src@, i as int, e as int) == skip_space(src@, s as int, e as int),
        decreases e - i,
    {
        i += 1;
    }
    i
}

/// End of `[s, e)` without its trailing whitespace.
fn drop_spaces(src: &[u8], s: usize, e: usize) -> (r: usize)
    requires
        s <= e,
    ensures
        r as int == drop_space(src@, s as int, e as int),
        s <= r <= e,
{
    let mut i = e;
    while s < i && i <= src.len() && space_byte(src[i - 1])
        invariant
            s <= i <= e,
            drop_space(src@, s as int, i as int) == drop_space(src@, s as int, e as int),
        decreases i - s,
    {
        i -= 1;
    }
    i
}

/// First position in `[from, to)` holding `b`, or `to`.
pub(crate) fn find_in(src: &[u8], from: usize, to: usize, b: u8) -> (r: usize)
    requires
        from <= to,
    ensures
        r as int == find_byte(src@, from as int, to as int, b),
        from <= r <= to,
{
    let mut i = from;
    while i < to && i < src.len() && src[i] != b
        invariant
            from <= i <= to,
            find_byte(src@, i as int, to as int, b) == find_byte(src@, from as int, to as int, b),
        decreases to - i,
    {
        i += 1;
    }
    if i < to && i < src.len() {
        i
    } else {
        to
    }
}

/// On the first line of `[s, e)`, the range from the first `open` byte
/// through the next `close` byte.
fn delimited_in(src: &[u8], s: usize, e: usize, open: u8, close: u8) -> (r: Option<(usize, usize)>)
    ensures
        r is Some <==> delimited(src@, s as int, e as int, open, close) is Some,
        r matches Some((i, j)) ==> i <= j <= src@.len()
            && delimited(src@, s as int, e as int, open, close) == Some((i as int, j as int)),
{
    if !slice_fits(src, s, e) {
        return None;
    }
    let le = find_in(src, s, e, 10u8);
    let i = find_in(src, s, le, open);
    if i < le {
        let j = find_in(src, i + 1, le, close);
        if j < le {
            return Some((i, j + 1));
        }
    }
    None
}

/// Appends the comments of `node` and of its subtree, depth first.
fn collect(node: &Node, out: &mut Vec<Comment>)
    ensures
        cviews(final(out)@) == cviews(old(out)@) + flatten(*node),
    decreases node,
{
    let mut i: usize = 0;
    while i < node.comments.len()
        invariant
            i <= node.comments@.len(),
            cviews(out@) =~= cviews(old(out)@) + cviews(node.comments@.subrange(0, i as int)),
        decreases node.comments@.len() - i,
    {
        let ghost before = out@;
        out.push(node.comments[i].duplicate());
        assert(cviews(out@) =~= cviews(before) + seq![cview(node.comments@[i as int])]);
        assert(node.comments@.subrange(0, i + 1) =~= node.comments@.subrange(0, i as int).push(node.comments@[i as int]));
        i += 1;
    }
    assert(node.comments@.subrange(0, node.comments@.len() as int) =~= node.comments@);
    let mut j: usize = 0;
    while j < node.children.len()
        invariant
            j <= node.children@.len(),
            cviews(out@) + flatten_from(*node, j as int) =~= cviews(old(out)@) + flatten(*node),
        decreases node.children@.len() - j,
    {
        let ghost before = out@;
        collect(&node.children[j], out);
        assert(flatten_from(*node, j as int) == flatten(node.children@[j as int]) + flatten_from(*node, j + 1));
        j += 1;
    }
}

/// Relies on `String::from_utf8`: the bytes are returned as text exactly
/// when they are valid UTF-8.
#[verifier::external_body]
pub(crate) fn utf8_text(b: Vec<u8>) -> (r: Option<String>)
    ensures
        r is Some <==> valid_utf8(b@),
        r matches Some(s) ==> s@ == decode_utf8(b@),
{
    String::from_utf8(b).ok()
}

/// The keyword of a conditional, as bytes.
fn cond_word(n: &Node) -> (r: Vec<u8>)
    ensures
        r@ == cond_kw(*n),
{
    let mut r: Vec<u8> = Vec::new();
    match n.node_type {
        NodeType::UnlessNode => {
            let w = "unless".as_bytes();
            push_all(&mut r, &w);
        },
        _ => {
            let w = "if".as_bytes();
            push_all(&mut r, &w);
        },
    }
    r
}

/// Whether the first non-whitespace byte at or after `off` opens a brace.
fn braces_at(src: &[u8], off: usize) -> (r: bool)
    ensures
        r == braces(src@, off as int),
{
    if off > src.len() {
        return false;
    }
    let j = skip_spaces(src, off, src.len());
    j < src.len() && src[j] == 123u8
}

/// The indentation of `level` under `config`.
fn indent_bytes(config: &Config, level: usize) -> (r: Vec<u8>)
    ensures
        r@ == indent(config.formatting, level as nat),
        valid_utf8(r@),
{
    let ghost fmt = config.formatting;
    let mut ind: Vec<u8> = Vec::new();
    let mut i: usize = 0;
    while i < level
        invariant
            fmt == config.formatting,
            i <= level,
            ind@ == indent(fmt, i as nat),
            forall|k: int| 0 <= k < ind@.len() ==> ind@[k] == 32u8 || ind@[k] == 9u8,
        decreases level - i,
    {
        let ghost before = ind@;
        match config.formatting.indent_style {
            IndentStyle::Spaces => {
                let w = config.formatting.indent_width;
                let mut j: usize = 0;
                while j < w
                    invariant
                        fmt == config.formatting,
                        w == fmt.indent_width,
                        j <= w,
                        ind@ =~= before + Seq::new(j as nat, |k: int| 32u8),
                        forall|k: int| 0 <= k < before.len() ==> before[k] == 32u8 || before[k] == 9u8,
                        forall|k: int| 0 <= k < ind@.len() ==> ind@[k] == 32u8 || ind@[k] == 9u8,
                    decreases w - j,
                {
                    ind.push(32u8);
                    j += 1;
                }
            },
            IndentStyle::Tabs => {
                ind.push(9u8);
            },
        }
        assert(ind@ =~= before + unit(fmt));
        i += 1;
    }
    proof { lemma_ascii_valid(ind@); }
    ind
}

/// Converts source text to the tree-to-text output: regenerates structure
/// for known constructs and copies source slices for the rest.
pub struct Emitter {
    config: Config,
    source: String,
    buffer: Vec<u8>,
    all_comments: Vec<Comment>,
    emitted: Vec<bool>,
    index: CommentIndex,
    settled: usize,
    log: Ghost<Seq<usize>>,
}

impl Emitter {
    /// The configuration in use.
    pub closed spec fn config_view(&self) -> Config {
        self.config
    }

    /// The source text in use.
    pub closed spec fn source_view(&self) -> Seq<char> {
        self.source@
    }

    /// What stays fixed during a walk.
    pub closed spec fn ctx(&self) -> Ctx {
        Ctx {
            src: encode_utf8(self.source@),
            cs: cviews(self.all_comments@),
            es: self.index.entries@,
            fmt: self.config.formatting,
        }
    }

    /// What a walk leaves as it is.
    closed spec fn frame(&self) -> (Ctx, Config, Seq<char>) {
        (self.ctx(), self.config, self.source@)
    }

    /// What a walk changes.
    pub closed spec fn state(&self) -> EmitState {
        EmitState { out: self.buffer@, done: self.emitted@, log: self.log@ }
    }

    /// Flags, index and log agree with the comment list.
    pub closed spec fn ready(&self) -> bool {
        &&& self.emitted@.len() == self.all_comments@.len()
        &&& self.index.wf_for(locations(self.all_comments@))
        &&& log_ok(self.state())
        &&& valid_utf8(self.buffer@)
        &&& self.settled <= self.index.entries@.len()
        &&& forall|k: int| 0 <= k < self.settled ==> {
            let p = #[trigger] self.index.entries@[k].2;
            p < self.emitted@.len() ==> self.emitted@[p as int]
        }
    }

    /// An emitter without source text: a verbatim fragment then comes out
    /// only when its span is empty at offset zero.
    pub fn new(config: Config) -> (r: Emitter)
        ensures
            r.config_view() == config,
            r.source_view().len() == 0,
    {
        Emitter::with_source(config, String::new())
    }

    /// An emitter that slices `source` for verbatim fragments.
    pub fn with_source(config: Config, source: String) -> (r: Emitter)
        ensures
            r.config_view() == config,
            r.source_view() == source@,
    {
        Emitter {
            config,
            source,
            buffer: Vec::new(),
            all_comments: Vec::new(),
            emitted: Vec::new(),
            index: CommentIndex { entries: Vec::new() },
            settled: 0,
            log: Ghost(Seq::empty()),
        }
    }

    /// Writes the indentation of `level`.
    fn put_indent(&mut self, level: usize)
        requires
            old(self).ready(),
        ensures
            final(self).ready(),
            final(self).frame() == old(self).frame(),
            final(self).state() == put(old(self).state(), indent(old(self).ctx().fmt, level as nat)),
    {
        let ind = indent_bytes(&self.config, level);
        self.put_lit(&ind);
    }

    /// Appends bytes that the emitter writes itself.
    fn put_lit(&mut self, b: &[u8])
        requires
            old(self).ready(),
            valid_utf8(b@),
        ensures
            final(self).ready(),
            final(self).frame() == old(self).frame(),
            final(self).state() == put(old(self).state(), b@),
    {
        push_all(&mut self.buffer, b);
        proof { lemma_append_valid(old(self).buffer@, b@); }
    }

    /// Records comment `p` as emitted.
    fn mark(&mut self, p: usize)
        requires
            old(self).ready(),
        ensures
            final(self).ready(),
            final(self).frame() == old(self).frame(),
            final(self).state() == mark(old(self).state(), p),
    {
        if p < self.emitted.len() && !self.emitted[p] {
            let ghost st = self.state();
            self.emitted.set(p, true);
            self.log = Ghost(self.log@.push(p));
            proof {
                let nst = self.state();
                assert(!st.log.contains(p));
                assert forall|i: int| 0 <= i < nst.log.len() implies #[trigger] nst.log[i] < nst.done.len() by {
                    if i < st.log.len() {
                        assert(nst.log[i] == st.log[i]);
                    }
                }
                assert forall|q: usize| q < nst.done.len() implies (nst.done[q as int] <==> #[trigger] nst.log.contains(q)) by {
                    if q != p {
                        if st.log.contains(q) {
                            let i = choose|i: int| 0 <= i < st.log.len() && st.log[i] == q;
                            assert(nst.log[i] == q);
                        }
                        if nst.log.contains(q) {
                            let i = choose|i: int| 0 <= i < nst.log.len() && nst.log[i] == q;
                            assert(i < st.log.len());
                            assert(st.log[i] == q);
                        }
                    } else {
                        assert(nst.log[st.log.len() as int] == p);
                    }
                }
                assert forall|k: int| 0 <= k < self.settled implies {
                    let q = #[trigger] self.index.entries@[k].2;
                    q < self.emitted@.len() ==> self.emitted@[q as int]
                } by {
                    let q = self.index.entries@[k].2;
                    if q < st.done.len() && q != p {
                        assert(self.emitted@[q as int] == st.done[q as int]);
                    }
                }
                assert forall|i: int, j: int| 0 <= i < j < nst.log.len() implies nst.log[i] != nst.log[j] by {
                    if j == st.log.len() {
                        assert(nst.log[i] == st.log[i]);
                    } else {
                        assert(nst.log[i] == st.log[i]);
                        assert(nst.log[j] == st.log[j]);
                    }
                }
            }
        }
    }

    /// Flushes the pending comments that end before `line` as lines at
    /// `level`.
    fn flush_before(&mut self, line: usize, level: usize)
        requires
            old(self).ready(),
        ensures
            final(self).ready(),
            final(self).frame() == old(self).frame(),
            final(self).state() == flush_before(old(self).ctx(), old(self).state(), line, level),
    {
        let ghost c = self.ctx();
        let ghost st0 = self.state();
        let ps = self.index.before_from(&self.emitted, line, self.settled);
        let nlb = "\n".as_bytes();
        let mut prev: Option<usize> = None;
        let mut k: usize = 0;
        while k < ps.len()
            invariant
                self.ready(),
                self.ctx() == c,
                self.frame() == old(self).frame(),
                k <= ps@.len(),
                nlb@ == nl(),
                ps@ == answer(c.es, st0.done, Query::Before(line)),
                line_fold(c, Flush { st: st0, prev: None }, ps@, k as int, level) == (Flush { st: self.state(), prev }),
            decreases ps@.len() - k,
        {
            let p = ps[k];
            if p < self.emitted.len() && !self.emitted[p] {
                let ghost s = self.state();
                let start = self.all_comments[p].location.start_line;
                let end = self.all_comments[p].location.end_line;
                let gap = match prev {
                    Some(e) => start > e && start - e > 1,
                    None => false,
                };
                let ghost lead = if gap { nl() } else { Seq::<u8>::empty() };
                if gap {
                    self.put_lit(&nlb);
                }
                self.put_indent(level);
                push_all(&mut self.buffer, self.all_comments[p].text.as_str().as_bytes());
                self.put_lit(&nlb);
                assert(self.buffer@ =~= s.out + (lead + indent(c.fmt, level as nat) + c.cs[p as int].text + nl()));
                self.mark(p);
                prev = Some(end);
            }
            k += 1;
        }
        if let Some(e) = prev {
            if line > e && line - e > 1 {
                self.put_lit(&nlb);
            }
        }
        self.settle();
    }

    /// Moves past the index entries whose comments are all emitted, so that
    /// later flushes skip them.
    fn settle(&mut self)
        requires
            old(self).ready(),
        ensures
            final(self).ready(),
            final(self).frame() == old(self).frame(),
            final(self).state() == old(self).state(),
    {
        while self.settled < self.index.entries.len()
            && self.index.entries[self.settled].2 < self.emitted.len()
            && self.emitted[self.index.entries[self.settled].2]
            invariant
                self.ready(),
                self.frame() == old(self).frame(),
                self.state() == old(self).state(),
            decreases self.index.entries@.len() - self.settled,
        {
            self.settled = self.settled + 1;
        }
    }

    /// Appends the pending comments that start on `line` to the current
    /// line.
    fn trailing(&mut self, line: usize)
        requires
            old(self).ready(),
        ensures
            final(self).ready(),
            final(self).frame() == old(self).frame(),
            final(self).state() == trailing(old(self).ctx(), old(self).state(), line),
    {
        let ghost c = self.ctx();
        let ghost st0 = self.state();
        let ps = self.index.on(&self.emitted, line);
        let spb = " ".as_bytes();
        let mut k: usize = 0;
        while k < ps.len()
            invariant
                self.ready(),
                self.ctx() == c,
                self.frame() == old(self).frame(),
                k <= ps@.len(),
                spb@ == sp(),
                ps@ == answer(c.es, st0.done, Query::On(line)),
                trail_fold(c, st0, ps@, k as int) == self.state(),
            decreases ps@.len() - k,
        {
            let p = ps[k];
            if p < self.emitted.len() && !self.emitted[p] {
                let ghost s = self.state();
                self.put_lit(&spb);
                push_all(&mut self.buffer, self.all_comments[p].text.as_str().as_bytes());
                assert(self.buffer@ =~= s.out + (sp() + c.cs[p as int].text));
                self.mark(p);
            }
            k += 1;
        }
    }

    /// Records as emitted the pending comments on lines `[l0, l1)` whose
    /// bytes lie within `[s, e)`.
    fn consume(&mut self, s: usize, e: usize, l0: usize, l1: usize)
        requires
            old(self).ready(),
        ensures
            final(self).ready(),
            final(self).frame() == old(self).frame(),
            final(self).state() == ({
                let ps = answer(old(self).ctx().es, old(self).state().done, Query::Range(l0, l1));
                consume_fold(old(self).ctx(), old(self).state(), ps, ps.len() as int, s as int, e as int)
            }),
    {
        let ghost c = self.ctx();
        let ghost st0 = self.state();
        let ps = self.index.in_range(&self.emitted, l0, l1);
        let mut k: usize = 0;
        while k < ps.len()
            invariant
                self.ready(),
                self.ctx() == c,
                self.frame() == old(self).frame(),
                k <= ps@.len(),
                ps@ == answer(c.es, st0.done, Query::Range(l0, l1)),
                consume_fold(c, st0, ps@, k as int, s as int, e as int) == self.state(),
            decreases ps@.len() - k,
        {
            let p = ps[k];
            if p < self.all_comments.len() && s <= self.all_comments[p].location.start_offset
                && self.all_comments[p].location.end_offset <= e {
                self.mark(p);
            }
            k += 1;
        }
    }

    /// Copies source bytes `[s, e)` (lines `l0..=l1`) when they can be taken
    /// as text.
    fn put_slice(&mut self, s: usize, e: usize, l0: usize, l1: usize)
        requires
            old(self).ready(),
        ensures
            final(self).ready(),
            final(self).frame() == old(self).frame(),
            final(self).state() == put_slice(old(self).ctx(), old(self).state(), s, e, l0, l1),
    {
        let ghost c = self.ctx();
        if slice_fits(self.source.as_str().as_bytes(), s, e) {
            push_range(&mut self.buffer, self.source.as_str().as_bytes(), s, e);
            let l1x = if l1 < usize::MAX { l1 + 1 } else { l1 };
            self.consume(s, e, l0, l1x);
        }
    }

    /// Copies source bytes `[s, e)` without trailing whitespace, and without
    /// leading whitespace when `both`.
    fn put_trimmed(&mut self, s: usize, e: usize, both: bool, l0: usize, l1: usize)
        requires
            old(self).ready(),
        ensures
            final(self).ready(),
            final(self).frame() == old(self).frame(),
            final(self).state() == put_trimmed(old(self).ctx(), old(self).state(), s, e, both, l0, l1),
    {
        if slice_fits(self.source.as_str().as_bytes(), s, e) {
            let a = if both { skip_spaces(self.source.as_str().as_bytes(), s, e) } else { s };
            let b = drop_spaces(self.source.as_str().as_bytes(), a, e);
            self.put_slice(a, b, l0, l1);
        }
    }

    /// Writes the declaration line of a definition (without its newline).
    #[verifier::rlimit(50)]
    fn put_header(&mut self, n: &Node)
        requires
            old(self).ready(),
        ensures
            final(self).ready(),
            final(self).frame() == old(self).frame(),
            final(self).state() == put(old(self).state(), def_header(old(self).ctx(), *n)),
    {
        let ghost c = self.ctx();
        let ghost s0 = self.state();
        let ghost name = or_empty(meta(*n, "name"@));
        match n.node_type {
            NodeType::ClassNode => {
                let kw = "class ".as_bytes();
                self.put_lit(&kw);
                if let Some(v) = n.metadata.get("name") {
                    push_all(&mut self.buffer, v.as_str().as_bytes());
                }
                let ghost mid = self.buffer@;
                assert(mid =~= s0.out + kw_class() + name);
                let ghost sup = match meta(*n, "superclass"@) {
                    Some(x) => kw_lt() + x,
                    None => Seq::<u8>::empty(),
                };
                if let Some(v) = n.metadata.get("superclass") {
                    let lt = " < ".as_bytes();
                    self.put_lit(&lt);
                    push_all(&mut self.buffer, v.as_str().as_bytes());
                }
                assert(self.buffer@ =~= mid + sup);
                assert(self.buffer@ =~= s0.out + def_header(c, *n));
            },
            NodeType::ModuleNode => {
                let kw = "module ".as_bytes();
                self.put_lit(&kw);
                if let Some(v) = n.metadata.get("name") {
                    push_all(&mut self.buffer, v.as_str().as_bytes());
                }
                assert(self.buffer@ =~= s0.out + def_header(c, *n));
            },
            _ => {
                let kw = "def ".as_bytes();
                self.put_lit(&kw);
                let ghost recv = match meta(*n, "receiver"@) {
                    Some(r) => r + kw_dot(),
                    None => Seq::<u8>::empty(),
                };
                if let Some(v) = n.metadata.get("receiver") {
                    push_all(&mut self.buffer, v.as_str().as_bytes());
                    let dot = ".".as_bytes();
                    self.put_lit(&dot);
                }
                assert(self.buffer@ =~= s0.out + kw_def() + recv);
                let ghost b1 = self.buffer@;
                if let Some(v) = n.metadata.get("name") {
                    push_all(&mut self.buffer, v.as_str().as_bytes());
                }
                assert(self.buffer@ =~= b1 + name);
                let ghost b2 = self.buffer@;
                let cnt = match n.metadata.get("parameters_count") {
                    Some(v) => parse_count_in(v.as_str().as_bytes()),
                    None => None,
                };
                if let Some(k) = cnt {
                    if k > 0 {
                        if let Some((i, j)) = delimited_in(self.source.as_str().as_bytes(),
                            n.location.start_offset, n.location.end_offset, 40u8, 41u8) {
                            if slice_fits(self.source.as_str().as_bytes(), i, j) {
                                push_range(&mut self.buffer, self.source.as_str().as_bytes(), i, j);
                            }
                        }
                    }
                }
                assert(self.buffer@ =~= b2 + def_params(c, *n));
                assert(self.buffer@ =~= s0.out + def_header(c, *n));
            },
        }
    }

    /// Writes a block's parameter list after a space.
    fn block_params(&mut self, b: &Node)
        requires
            old(self).ready(),
        ensures
            final(self).ready(),
            final(self).frame() == old(self).frame(),
            final(self).state() == block_params(old(self).ctx(), old(self).state(), *b),
    {
        let ghost s0 = self.state();
        let ghost c = self.ctx();
        if let Some((i, j)) = delimited_in(self.source.as_str().as_bytes(), b.location.start_offset,
            b.location.end_offset, 124u8, 124u8) {
            if slice_fits(self.source.as_str().as_bytes(), i, j) {
                let spb = " ".as_bytes();
                self.put_lit(&spb);
                push_range(&mut self.buffer, self.source.as_str().as_bytes(), i, j);
                assert(self.buffer@ =~= s0.out + (sp() + c.src.subrange(i as int, j as int)));
            }
        }
    }

    /// Before a closing keyword: the pending standalone comments strictly
    /// inside `n`, as lines at `level`.
    fn interior(&mut self, n: &Node, level: usize)
        requires
            old(self).ready(),
        ensures
            final(self).ready(),
            final(self).frame() == old(self).frame(),
            final(self).state() == interior(old(self).ctx(), old(self).state(), *n, level),
    {
        let ghost c = self.ctx();
        let ghost st0 = self.state();
        let lo = if n.location.start_line < usize::MAX { n.location.start_line + 1 } else { n.location.start_line };
        let ps = self.index.in_range(&self.emitted, lo, n.location.end_line);
        let nlb = "\n".as_bytes();
        let mut k: usize = 0;
        while k < ps.len()
            invariant
                self.ready(),
                self.ctx() == c,
                self.frame() == old(self).frame(),
                k <= ps@.len(),
                nlb@ == nl(),
                ps@ == answer(c.es, st0.done, Query::Range(lo, n.location.end_line)),
                lo == line_after(n.location.start_line),
                interior_fold(c, st0, ps@, k as int, level) == self.state(),
            decreases ps@.len() - k,
        {
            let p = ps[k];
            if p < self.emitted.len() && !self.emitted[p]
                && standalone_at(self.source.as_str().as_bytes(), self.all_comments[p].location.start_offset) {
                let ghost s = self.state();
                let mut line = indent_bytes(&self.config, level);
                push_all(&mut line, self.all_comments[p].text.as_str().as_bytes());
                push_all(&mut line, &nlb);
                self.put_lit(&line);
                self.mark(p);
            }
            k += 1;
        }
    }

    /// Writes the newlines between siblings `cur` and `next`.
    fn put_separator(&mut self, cur: &Node, next: &Node)
        requires
            old(self).ready(),
        ensures
            final(self).ready(),
            final(self).frame() == old(self).frame(),
            final(self).state() == put(old(self).state(), separator(old(self).ctx(), old(self).state(), *cur, *next)),
    {
        let ghost c = self.ctx();
        let ce = cur.location.end_line;
        let ns = next.location.start_line;
        let lo = if ce < usize::MAX { ce + 1 } else { ce };
        let ps = self.index.in_range(&self.emitted, lo, ns);
        proof {
            lemma_picked_bound(c.es, self.state().done, Query::Range(lo, ns), c.es.len() as int);
        }
        let target = if ps.len() > 0 && self.all_comments[ps[0]].location.start_line < ns {
            self.all_comments[ps[0]].location.start_line
        } else {
            ns
        };
        if target > ce && target - ce > 1 {
            let ghost s0 = self.state();
            self.put_lit("\n".as_bytes());
            self.put_lit("\n".as_bytes());
            proof { lemma_put_assoc(s0, nl(), nl()); }
        } else {
            let one = "\n".as_bytes();
            self.put_lit(&one);
        }
    }

    /// Verbatim emission of `n`.
    fn verbatim(&mut self, n: &Node, level: usize)
        requires
            old(self).ready(),
        ensures
            final(self).ready(),
            final(self).frame() == old(self).frame(),
            final(self).state() == verbatim(old(self).ctx(), old(self).state(), *n, level),
    {
        if slice_fits(self.source.as_str().as_bytes(), n.location.start_offset, n.location.end_offset) {
            self.put_indent(level);
            self.put_slice(n.location.start_offset, n.location.end_offset, n.location.start_line, n.location.end_line);
            self.trailing(n.location.end_line);
        }
    }

    /// Emits `n` at nesting depth `level`.
    fn emit_node(&mut self, n: &Node, level: usize)
        requires
            old(self).ready(),
        ensures
            final(self).ready(),
            final(self).frame() == old(self).frame(),
            final(self).state() == emit_node(old(self).ctx(), old(self).state(), *n, level),
        decreases n, 3nat,
    {
        match n.node_type {
            NodeType::ProgramNode => self.emit_list(n, level),
            NodeType::StatementsNode => self.emit_list(n, level),
            NodeType::ClassNode => self.emit_def(n, level),
            NodeType::ModuleNode => self.emit_def(n, level),
            NodeType::DefNode => self.emit_def(n, level),
            NodeType::IfNode => self.emit_if(n, level, false),
            NodeType::UnlessNode => self.emit_if(n, level, false),
            NodeType::CallNode => self.emit_call(n, level),
            _ => {
                self.flush_before(n.location.start_line, level);
                self.verbatim(n, level);
            },
        }
    }

    /// Emits the children of `p` as a statement list.
    fn emit_list(&mut self, p: &Node, level: usize)
        requires
            old(self).ready(),
        ensures
            final(self).ready(),
            final(self).frame() == old(self).frame(),
            final(self).state() == emit_list(old(self).ctx(), old(self).state(), *p, 0, level),
        decreases p, 1nat,
    {
        let ghost c = self.ctx();
        let ghost target = emit_list(c, self.state(), *p, 0, level);
        let n = p.children.len();
        let mut i: usize = 0;
        while i < n
            invariant
                self.ready(),
                self.ctx() == c,
                self.frame() == old(self).frame(),
                i <= n,
                n == p.children@.len(),
                emit_list(c, self.state(), *p, i as int, level) == target,
            decreases n - i,
        {
            self.emit_node(&p.children[i], level);
            if i + 1 < n {
                self.put_separator(&p.children[i], &p.children[i + 1]);
            }
            i += 1;
        }
    }

    /// Emits the body children of a definition.
    fn emit_body(&mut self, p: &Node, level: usize)
        requires
            old(self).ready(),
        ensures
            final(self).ready(),
            final(self).frame() == old(self).frame(),
            final(self).state() == emit_body(old(self).ctx(), old(self).state(), *p, 0, level),
        decreases p, 1nat,
    {
        let ghost c = self.ctx();
        let ghost target = emit_body(c, self.state(), *p, 0, level);
        let n = p.children.len();
        let mut i: usize = 0;
        while i < n
            invariant
                self.ready(),
                self.ctx() == c,
                self.frame() == old(self).frame(),
                i <= n,
                n == p.children@.len(),
                emit_body(c, self.state(), *p, i as int, level) == target,
            decreases n - i,
        {
            if !is_structural(&p.children[i].node_type) {
                self.emit_node(&p.children[i], level);
            }
            i += 1;
        }
    }

    /// Emits a class, module or method definition.
    fn emit_def(&mut self, n: &Node, level: usize)
        requires
            old(self).ready(),
        ensures
            final(self).ready(),
            final(self).frame() == old(self).frame(),
            final(self).state() == emit_def(old(self).ctx(), old(self).state(), *n, level),
        decreases n, 2nat,
    {
        let ghost c = self.ctx();
        let nlb = "\n".as_bytes();
        self.flush_before(n.location.start_line, level);
        let ghost s1 = self.state();
        self.put_indent(level);
        self.put_header(n);
        proof { lemma_put_assoc(s1, indent(c.fmt, level as nat), def_header(c, *n)); }
        self.trailing(n.location.start_line);
        self.put_lit(&nlb);
        let inner = next_level(level);
        self.emit_body(n, inner);
        if body_present(n) {
            self.put_lit(&nlb);
        }
        self.interior(n, inner);
        let mut tail = indent_bytes(&self.config, level);
        let kw = "end".as_bytes();
        push_all(&mut tail, &kw);
        self.put_lit(&tail);
    }

    /// Emits a conditional; `elsif` marks a branch of an enclosing one.
    fn emit_if(&mut self, n: &Node, level: usize, elsif: bool)
        requires
            old(self).ready(),
        ensures
            final(self).ready(),
            final(self).frame() == old(self).frame(),
            final(self).state() == emit_if(old(self).ctx(), old(self).state(), *n, level, elsif),
        decreases n, 2nat,
    {
        let ghost c = self.ctx();
        let nlb = "\n".as_bytes();
        let k = n.children.len();
        if k >= 2 && n.children[1].location.start_offset < n.children[0].location.start_offset && !elsif {
            let pred = &n.children[0];
            let body = &n.children[1];
            self.flush_before(n.location.start_line, level);
            self.put_indent(level);
            if let NodeType::StatementsNode = body.node_type {
                self.put_trimmed(body.location.start_offset, body.location.end_offset, true,
                    body.location.start_line, body.location.end_line);
            }
            let mut mid: Vec<u8> = Vec::new();
            push_all(&mut mid, " ".as_bytes());
            let w = cond_word(n);
            push_all(&mut mid, &w);
            push_all(&mut mid, " ".as_bytes());
            assert(mid@ =~= sp() + cond_kw(*n) + sp());
            self.put_lit(&mid);
            self.put_slice(pred.location.start_offset, pred.location.end_offset,
                pred.location.start_line, pred.location.end_line);
            self.trailing(n.location.end_line);
        } else {
            if !elsif {
                self.flush_before(n.location.start_line, level);
            }
            let mut head = indent_bytes(&self.config, level);
            if elsif {
                let kw = "elsif ".as_bytes();
                push_all(&mut head, &kw);
            } else {
                let w = cond_word(n);
                push_all(&mut head, &w);
                push_all(&mut head, " ".as_bytes());
            }
            assert(head@ =~= indent(c.fmt, level as nat) + if elsif { kw_elsif() } else { cond_kw(*n) + sp() });
            self.put_lit(&head);
            if k >= 1 {
                let pred = &n.children[0];
                self.put_slice(pred.location.start_offset, pred.location.end_offset,
                    pred.location.start_line, pred.location.end_line);
            }
            self.trailing(n.location.start_line);
            self.put_lit(&nlb);
            if k >= 2 {
                if let NodeType::StatementsNode = n.children[1].node_type {
                    self.emit_list(&n.children[1], next_level(level));
                    self.put_lit(&nlb);
                }
            }
            if k >= 3 {
                match n.children[2].node_type {
                    NodeType::IfNode => self.emit_if(&n.children[2], level, true),
                    NodeType::ElseNode => self.emit_else(&n.children[2], level),
                    _ => {},
                }
            }
            if !elsif {
                let mut tail = indent_bytes(&self.config, level);
                let kw = "end".as_bytes();
                push_all(&mut tail, &kw);
                self.put_lit(&tail);
            }
        }
    }

    /// Emits an `else` branch.
    fn emit_else(&mut self, e: &Node, level: usize)
        requires
            old(self).ready(),
        ensures
            final(self).ready(),
            final(self).frame() == old(self).frame(),
            final(self).state() == emit_else(old(self).ctx(), old(self).state(), *e, level),
        decreases e, 2nat,
    {
        let ghost c = self.ctx();
        let mut head = indent_bytes(&self.config, level);
        push_all(&mut head, "else".as_bytes());
        push_all(&mut head, "\n".as_bytes());
        assert(head@ =~= indent(c.fmt, level as nat) + kw_else() + nl());
        self.put_lit(&head);
        if e.children.len() >= 1 {
            if let NodeType::StatementsNode = e.children[0].node_type {
                self.emit_list(&e.children[0], next_level(level));
                let nlb = "\n".as_bytes();
                self.put_lit(&nlb);
            }
        }
    }

    /// Emits the statement list of a block, then a newline.
    fn block_body(&mut self, b: &Node, level: usize)
        requires
            old(self).ready(),
        ensures
            final(self).ready(),
            final(self).frame() == old(self).frame(),
            final(self).state() == block_body(old(self).ctx(), old(self).state(), *b, level),
        decreases b, 2nat,
    {
        if let Some(i) = statements_child(b) {
            self.emit_list(&b.children[i], level);
            let nlb = "\n".as_bytes();
            self.put_lit(&nlb);
        }
    }

    /// Emits a call, keeping the block style the source used.
    #[verifier::rlimit(50)]
    fn emit_call(&mut self, n: &Node, level: usize)
        requires
            old(self).ready(),
        ensures
            final(self).ready(),
            final(self).frame() == old(self).frame(),
            final(self).state() == emit_call(old(self).ctx(), old(self).state(), *n, level),
        decreases n, 2nat,
    {
        let ghost c = self.ctx();
        self.flush_before(n.location.start_line, level);
        let k = n.children.len();
        let is_block = k >= 1 && match n.children[k - 1].node_type {
            NodeType::BlockNode => true,
            _ => false,
        };
        if is_block {
            let b = &n.children[k - 1];
            self.put_indent(level);
            if n.location.start_offset <= b.location.start_offset {
                self.put_trimmed(n.location.start_offset, b.location.start_offset, false,
                    n.location.start_line, b.location.start_line);
            }
            let nlb = "\n".as_bytes();
            if braces_at(self.source.as_str().as_bytes(), b.location.start_offset) {
                if b.location.start_line != b.location.end_line {
                    let open = " {".as_bytes();
                    self.put_lit(&open);
                    self.block_params(b);
                    self.put_lit(&nlb);
                    self.block_body(b, next_level(level));
                    let mut tail = indent_bytes(&self.config, level);
                    push_all(&mut tail, "}".as_bytes());
                    assert(tail@ =~= indent(c.fmt, level as nat) + kw_rbrace());
                    self.put_lit(&tail);
                } else {
                    let spb = " ".as_bytes();
                    self.put_lit(&spb);
                    self.put_slice(b.location.start_offset, b.location.end_offset,
                        b.location.start_line, b.location.end_line);
                }
            } else {
                let kw = " do".as_bytes();
                self.put_lit(&kw);
                self.block_params(b);
                self.put_lit(&nlb);
                self.block_body(b, next_level(level));
                let mut tail = indent_bytes(&self.config, level);
                let e = "end".as_bytes();
                push_all(&mut tail, &e);
                self.put_lit(&tail);
            }
        } else {
            self.verbatim(n, level);
        }
    }

    /// The order in which the last run consumed comments, by position in
    /// the flat comment list.
    pub closed spec fn emitted_log(&self) -> Seq<usize> {
        self.log@
    }

    /// Writes every comment still pending, in list order, at column zero.
    fn finish(&mut self, root: &Node)
        requires
            old(self).ready(),
        ensures
            final(self).ready(),
            final(self).frame() == old(self).frame(),
            final(self).state() == finish(old(self).ctx(), old(self).state(), *root),
            forall|p: int| 0 <= p < final(self).state().done.len() ==> final(self).state().done[p],
    {
        let ghost c = self.ctx();
        let ghost st0 = self.state();
        let mut prev: Option<usize> = if self.buffer.len() > 0 { Some(root.location.end_line) } else { None };
        let ghost f0 = Flush { st: st0, prev };
        let n = self.all_comments.len();
        let mut k: usize = 0;
        while k < n
            invariant
                self.ready(),
                self.ctx() == c,
                self.frame() == old(self).frame(),
                k <= n,
                n == c.cs.len(),
                n == self.state().done.len(),
                f0 == (Flush { st: st0, prev: if st0.out.len() > 0 { Some(root.location.end_line) } else { None } }),
                final_fold(c, f0, k as int) == (Flush { st: self.state(), prev }),
                forall|j: int| 0 <= j < k ==> self.state().done[j],
            decreases n - k,
        {
            if !self.emitted[k] {
                let ghost s = self.state();
                let mut line: Vec<u8> = Vec::new();
                let lead = self.buffer.len() > 0 && self.buffer[self.buffer.len() - 1] != 10u8;
                if lead {
                    push_all(&mut line, "\n".as_bytes());
                }
                let start = self.all_comments[k].location.start_line;
                let blank = match prev {
                    Some(e) => start > e && start - e > 1,
                    None => false,
                };
                if blank {
                    push_all(&mut line, "\n".as_bytes());
                }
                push_all(&mut line, self.all_comments[k].text.as_str().as_bytes());
                push_all(&mut line, "\n".as_bytes());
                let ghost lead_s = if lead { nl() } else { Seq::<u8>::empty() };
                let ghost gap_s = if blank { nl() } else { Seq::<u8>::empty() };
                assert(line@ =~= lead_s + gap_s + c.cs[k as int].text + nl());
                self.put_lit(&line);
                self.mark(k);
                prev = Some(self.all_comments[k].location.end_line);
            }
            k += 1;
        }
    }

    /// Emits the text for `ast`: builds the comment list and its index,
    /// walks the tree, flushes the remaining comments, and ends the text with
    /// exactly one newline. The result is always valid text, so this never
    /// fails.
    pub fn emit(&mut self, ast: &Node) -> (r: Result<String, RfmtError>)
        ensures
            final(self).config_view() == old(self).config_view(),
            final(self).source_view() == old(self).source_view(),
            ({
                let out = formatted(encode_utf8(old(self).source_view()), old(self).config_view().formatting, *ast);
                &&& valid_utf8(out)
                &&& r matches Ok(s) && s@ == decode_utf8(out)
            }),
            ({
                let log = final(self).emitted_log();
                let n = flatten(*ast).len();
                &&& log.no_duplicates()
                &&& forall|i: int| 0 <= i < log.len() ==> #[trigger] log[i] < n
                &&& forall|p: usize| p < n ==> #[trigger] log.contains(p)
            }),
    {
        let mut cs: Vec<Comment> = Vec::new();
        collect(ast, &mut cs);
        assert(cviews(cs@) =~= flatten(*ast));
        let n = cs.len();
        let mut flags: Vec<bool> = Vec::new();
        let mut i: usize = 0;
        while i < n
            invariant
                i <= n,
                flags@ =~= Seq::new(i as nat, |j: int| false),
            decreases n - i,
        {
            flags.push(false);
            i += 1;
        }
        self.index = CommentIndex::build(&cs);
        self.all_comments = cs;
        self.emitted = flags;
        self.buffer = Vec::new();
        self.settled = 0;
        self.log = Ghost(Seq::empty());
        proof {
            let c = self.ctx();
            assert(locations(self.all_comments@) =~= view_locations(cviews(self.all_comments@)));
            assert(c == context(encode_utf8(self.source@), self.config.formatting, *ast));
            assert(self.state() == start_state(c.cs.len()));
        }
        self.emit_node(ast, 0);
        self.finish(ast);
        let ghost fin = self.state();
        proof {
            assert(fin.done.len() == flatten(*ast).len());
            assert(log_ok(fin));
        }
        while self.buffer.len() > 0 && self.buffer[self.buffer.len() - 1] == 10u8
            invariant
                valid_utf8(self.buffer@),
                self.log@ == fin.log,
                log_ok(fin),
                fin.done.len() == flatten(*ast).len(),
                forall|p: int| 0 <= p < fin.done.len() ==> fin.done[p],
                self.config == old(self).config,
                self.source@ == old(self).source@,
                strip_newlines(self.buffer@) == strip_newlines(finish(context(encode_utf8(self.source@), self.config.formatting, *ast),
                    emit_node(context(encode_utf8(self.source@), self.config.formatting, *ast),
                        start_state(flatten(*ast).len()), *ast, 0), *ast).out),
            decreases self.buffer@.len(),
        {
            let ghost before = self.buffer@;
            self.buffer.pop();
            assert(self.buffer@ =~= before.drop_last());
            proof { lemma_drop_ascii_valid(before); }
        }
        proof {
            assert(strip_newlines(self.buffer@) == self.buffer@);
        }
        let ghost stripped = self.buffer@;
        self.buffer.push(10u8);
        proof {
            lemma_ascii_byte(10u8);
            lemma_append_valid(stripped, seq![10u8]);
            assert(self.buffer@ =~= stripped + seq![10u8]);
        }
        let out = self.buffer.clone();
        match utf8_text(out) {
            Some(s) => Ok(s),
            None => Err(RfmtError::FormatError(String::from_str("output is not valid UTF-8"))),
        }
    }
}

impl Default for Emitter {
    fn default() -> (r: Emitter)
        ensures
            r.source_view().len() == 0,
            r.config_view().formatting.indent_style == IndentStyle::Spaces,
            r.config_view().formatting.indent_width == 2,
    {
        Emitter::new(Config::default())
    }
}

} // verus!
