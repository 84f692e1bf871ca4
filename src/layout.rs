//! The text that the emitter owes for a tree: a functional description of
//! every emission step over the output bytes, the emitted-comment flags and
//! the order in which comments were consumed.

use crate::ast::{Comment, Location, Node, NodeType};
use crate::comments::{answer, Entry, Query};
use crate::config::{FormattingConfig, IndentStyle};
use crate::text::{is_blank, slice_ok};
use vstd::prelude::*;
use vstd::utf8::encode_utf8;

verus! {

/// What the emitter reads of a comment: its text as bytes and its span.
pub struct CView {
    pub text: Seq<u8>,
    pub location: Location,
}

/// The emitter's view of a comment.
pub open spec fn cview(c: Comment) -> CView {
    CView { text: encode_utf8(c.text@), location: c.location }
}

/// The views of a comment list.
pub open spec fn cviews(cs: Seq<Comment>) -> Seq<CView> {
    cs.map_values(|c: Comment| cview(c))
}

/// The comments of a tree in discovery order: a node's own, then its
/// children's, depth first.
pub open spec fn flatten(n: Node) -> Seq<CView>
    decreases n, n.children@.len() + 1,
{
    cviews(n.comments@) + flatten_from(n, 0)
}

/// The comments of children `i..` of `p`.
pub open spec fn flatten_from(p: Node, i: int) -> Seq<CView>
    decreases p, p.children@.len() - i,
{
    if 0 <= i < p.children@.len() {
        flatten(p.children@[i]) + flatten_from(p, i + 1)
    } else {
        Seq::empty()
    }
}

/// The spans of comment views.
pub open spec fn view_locations(cs: Seq<CView>) -> Seq<Location> {
    cs.map_values(|v: CView| v.location)
}

/// What stays fixed during one run: source bytes, the flat comment list, the
/// comment index and the layout options.
pub struct Ctx {
    pub src: Seq<u8>,
    pub cs: Seq<CView>,
    pub es: Seq<Entry>,
    pub fmt: FormattingConfig,
}

/// What one run changes: output bytes, emitted flags per comment, and the
/// positions of the comments in the order they were consumed.
pub struct EmitState {
    pub out: Seq<u8>,
    pub done: Seq<bool>,
    pub log: Seq<usize>,
}

// ASCII text that the emitter writes itself.
pub open spec fn nl() -> Seq<u8> { encode_utf8("
"@) }
pub open spec fn sp() -> Seq<u8> { encode_utf8(" "@) }
pub open spec fn kw_class() -> Seq<u8> { encode_utf8("class "@) }
pub open spec fn kw_module() -> Seq<u8> { encode_utf8("module "@) }
pub open spec fn kw_def() -> Seq<u8> { encode_utf8("def "@) }
pub open spec fn kw_end() -> Seq<u8> { encode_utf8("end"@) }
pub open spec fn kw_if() -> Seq<u8> { encode_utf8("if"@) }
pub open spec fn kw_unless() -> Seq<u8> { encode_utf8("unless"@) }
pub open spec fn kw_elsif() -> Seq<u8> { encode_utf8("elsif "@) }
pub open spec fn kw_else() -> Seq<u8> { encode_utf8("else"@) }
pub open spec fn kw_do() -> Seq<u8> { encode_utf8(" do"@) }
pub open spec fn kw_lbrace() -> Seq<u8> { encode_utf8(" {"@) }
pub open spec fn kw_rbrace() -> Seq<u8> { encode_utf8("}"@) }
pub open spec fn kw_lt() -> Seq<u8> { encode_utf8(" < "@) }
pub open spec fn kw_dot() -> Seq<u8> { encode_utf8("."@) }

/// The bytes of one indent level.
pub open spec fn unit(f: FormattingConfig) -> Seq<u8> {
    match f.indent_style {
        IndentStyle::Spaces => Seq::new(f.indent_width as nat, |i: int| 32u8),
        IndentStyle::Tabs => seq![9u8],
    }
}

/// The indentation of nesting depth `level`.
pub open spec fn indent(f: FormattingConfig, level: nat) -> Seq<u8>
    decreases level,
{
    if level == 0 {
        Seq::empty()
    } else {
        indent(f, (level - 1) as nat) + unit(f)
    }
}

/// One level deeper (saturating at the largest level).
pub open spec fn deeper(level: usize) -> usize {
    if level < usize::MAX { (level + 1) as usize } else { level }
}

/// The line after `l` (saturating).
pub open spec fn line_after(l: usize) -> usize {
    if l < usize::MAX { (l + 1) as usize } else { l }
}

/// A comment's text as bytes.
pub open spec fn text_of(c: CView) -> Seq<u8> {
    c.text
}

/// Appends bytes to the output.
pub open spec fn put(st: EmitState, b: Seq<u8>) -> EmitState {
    EmitState { out: st.out + b, ..st }
}

/// Comment `p` exists and is not emitted yet.
pub open spec fn pending(st: EmitState, p: usize) -> bool {
    p < st.done.len() && !st.done[p as int]
}

/// Records comment `p` as emitted, once.
pub open spec fn mark(st: EmitState, p: usize) -> EmitState {
    if pending(st, p) {
        EmitState { done: st.done.update(p as int, true), log: st.log.push(p), ..st }
    } else {
        st
    }
}

/// A comment flush in progress: the state and the end line of the last
/// comment written.
pub struct Flush {
    pub st: EmitState,
    pub prev: Option<usize>,
}

/// Writes the comments `ps[..k]` as lines at `level`, one blank line kept
/// where the source had a gap between two of them.
pub open spec fn line_fold(c: Ctx, f0: Flush, ps: Seq<usize>, k: int, level: usize) -> Flush
    decreases k,
{
    if k <= 0 {
        f0
    } else {
        let f = line_fold(c, f0, ps, k - 1, level);
        let p = ps[k - 1];
        if pending(f.st, p) && p < c.cs.len() {
            let cm = c.cs[p as int];
            let gap = match f.prev {
                Some(e) => cm.location.start_line > e + 1,
                None => false,
            };
            let lead = if gap { nl() } else { Seq::empty() };
            Flush {
                st: mark(put(f.st, lead + indent(c.fmt, level as nat) + text_of(cm) + nl()), p),
                prev: Some(cm.location.end_line),
            }
        } else {
            f
        }
    }
}

/// Flushes the pending comments that end before `line` as lines at `level`,
/// then one blank line when the construct on `line` stands apart from the
/// last of them.
pub open spec fn flush_before(c: Ctx, st: EmitState, line: usize, level: usize) -> EmitState {
    let ps = answer(c.es, st.done, Query::Before(line));
    let f = line_fold(c, Flush { st, prev: None }, ps, ps.len() as int, level);
    match f.prev {
        Some(e) => if line > e + 1 { put(f.st, nl()) } else { f.st },
        None => f.st,
    }
}

/// Writes the comments `ps[..k]` after a space each, on the current line.
pub open spec fn trail_fold(c: Ctx, st: EmitState, ps: Seq<usize>, k: int) -> EmitState
    decreases k,
{
    if k <= 0 {
        st
    } else {
        let s = trail_fold(c, st, ps, k - 1);
        let p = ps[k - 1];
        if pending(s, p) && p < c.cs.len() {
            mark(put(s, sp() + text_of(c.cs[p as int])), p)
        } else {
            s
        }
    }
}

/// Appends the pending comments that start on `line` to the current line.
pub open spec fn trailing(c: Ctx, st: EmitState, line: usize) -> EmitState {
    let ps = answer(c.es, st.done, Query::On(line));
    trail_fold(c, st, ps, ps.len() as int)
}

/// The comment's bytes lie within `[s, e)` of the source.
pub open spec fn inside(cm: CView, s: int, e: int) -> bool {
    s <= cm.location.start_offset && cm.location.end_offset <= e
}

/// Records as emitted the comments of `ps[..k]` whose bytes lie within
/// `[s, e)`: a verbatim slice has reproduced them.
pub open spec fn consume_fold(c: Ctx, st: EmitState, ps: Seq<usize>, k: int, s: int, e: int) -> EmitState
    decreases k,
{
    if k <= 0 {
        st
    } else {
        let t = consume_fold(c, st, ps, k - 1, s, e);
        let p = ps[k - 1];
        if p < c.cs.len() && inside(c.cs[p as int], s, e) {
            mark(t, p)
        } else {
            t
        }
    }
}

/// Copies source bytes `[s, e)`, lines `l0..=l1`, when the range can be
/// taken as text; the comments it holds count as emitted. Otherwise nothing
/// is written.
pub open spec fn put_slice(c: Ctx, st: EmitState, s: usize, e: usize, l0: usize, l1: usize) -> EmitState {
    if slice_ok(c.src, s as int, e as int) {
        let t = put(st, c.src.subrange(s as int, e as int));
        let ps = answer(c.es, t.done, Query::Range(l0, line_after(l1)));
        consume_fold(c, t, ps, ps.len() as int, s as int, e as int)
    } else {
        st
    }
}

/// ASCII whitespace.
pub open spec fn is_space(b: u8) -> bool {
    b == 32u8 || (9u8 <= b && b <= 13u8)
}

/// First position in `[s, e)` that is not whitespace, or `e`.
pub open spec fn skip_space(src: Seq<u8>, s: int, e: int) -> int
    decreases e - s,
{
    if s < e && 0 <= s < src.len() && is_space(src[s]) {
        skip_space(src, s + 1, e)
    } else {
        s
    }
}

/// End of `[s, e)` with trailing whitespace removed.
pub open spec fn drop_space(src: Seq<u8>, s: int, e: int) -> int
    decreases e - s,
{
    if s < e && 0 < e <= src.len() && is_space(src[e - 1]) {
        drop_space(src, s, e - 1)
    } else {
        e
    }
}

/// Copies source bytes `[s, e)` without trailing whitespace (and without
/// leading whitespace when `both`).
pub open spec fn put_trimmed(c: Ctx, st: EmitState, s: usize, e: usize, both: bool, l0: usize, l1: usize) -> EmitState {
    if slice_ok(c.src, s as int, e as int) {
        let a = if both { skip_space(c.src, s as int, e as int) } else { s as int };
        let b = drop_space(c.src, a, e as int);
        put_slice(c, st, a as usize, b as usize, l0, l1)
    } else {
        st
    }
}

/// First position in `[from, to)` holding byte `b`, or `to`.
pub open spec fn find_byte(src: Seq<u8>, from: int, to: int, b: u8) -> int
    decreases to - from,
{
    if from < to && 0 <= from < src.len() {
        if src[from] == b { from } else { find_byte(src, from + 1, to, b) }
    } else {
        to
    }
}

/// On the first line of source range `[s, e)`, the range from the first
/// `open` byte through the next `close` byte.
pub open spec fn delimited(src: Seq<u8>, s: int, e: int, open: u8, close: u8) -> Option<(int, int)> {
    if slice_ok(src, s, e) {
        let le = find_byte(src, s, e, 10u8);
        let i = find_byte(src, s, le, open);
        if i < le {
            let j = find_byte(src, i + 1, le, close);
            if j < le { Some((i, j + 1)) } else { None }
        } else {
            None
        }
    } else {
        None
    }
}

/// Value of a run of ASCII digits.
pub open spec fn digits_value(d: Seq<u8>) -> nat
    decreases d.len(),
{
    if d.len() == 0 {
        0
    } else {
        digits_value(d.drop_last()) * 10 + (d.last() - 48) as nat
    }
}

/// Every byte is an ASCII digit.
pub open spec fn all_digits(d: Seq<u8>) -> bool {
    forall|i: int| 0 <= i < d.len() ==> 48u8 <= #[trigger] d[i] <= 57u8
}

/// The count written in `b` as `usize::from_str` reads it: an optional `+`,
/// then one or more digits whose value fits.
pub open spec fn parse_count(b: Seq<u8>) -> Option<nat> {
    let d = if b.len() > 0 && b[0] == 43u8 { b.subrange(1, b.len() as int) } else { b };
    if d.len() > 0 && all_digits(d) && digits_value(d) <= usize::MAX {
        Some(digits_value(d))
    } else {
        None
    }
}

/// The bytes of a metadata value.
pub open spec fn meta(n: Node, key: Seq<char>) -> Option<Seq<u8>> {
    match n.metadata.value(key) {
        Some(v) => Some(encode_utf8(v)),
        None => None,
    }
}

pub open spec fn or_empty(o: Option<Seq<u8>>) -> Seq<u8> {
    match o {
        Some(b) => b,
        None => Seq::empty(),
    }
}

/// Kinds that belong to a definition's own grammar rather than its body.
pub open spec fn structural(k: NodeType) -> bool {
    ||| k is ConstantReadNode
    ||| k is ConstantWriteNode
    ||| k is ConstantPathNode
    ||| k is RequiredParameterNode
    ||| k is OptionalParameterNode
    ||| k is RestParameterNode
    ||| k is KeywordParameterNode
    ||| k is KeywordRestParameterNode
    ||| k is BlockParameterNode
}

/// The parameter list of a method definition, taken from its first source
/// line when the front end counted parameters.
pub open spec fn def_params(c: Ctx, n: Node) -> Seq<u8> {
    let count = match meta(n, "parameters_count"@) {
        Some(v) => parse_count(v),
        None => None,
    };
    if count matches Some(k) && k > 0 {
        match delimited(c.src, n.location.start_offset as int, n.location.end_offset as int, 40u8, 41u8) {
            Some((i, j)) => if slice_ok(c.src, i, j) { c.src.subrange(i, j) } else { Seq::empty() },
            None => Seq::empty(),
        }
    } else {
        Seq::empty()
    }
}

/// The declaration line of a class, module or method definition.
pub open spec fn def_header(c: Ctx, n: Node) -> Seq<u8> {
    match n.node_type {
        NodeType::ClassNode => kw_class() + or_empty(meta(n, "name"@)) + match meta(n, "superclass"@) {
            Some(s) => kw_lt() + s,
            None => Seq::empty(),
        },
        NodeType::ModuleNode => kw_module() + or_empty(meta(n, "name"@)),
        _ => kw_def() + match meta(n, "receiver"@) {
            Some(r) => r + kw_dot(),
            None => Seq::empty(),
        } + or_empty(meta(n, "name"@)) + def_params(c, n),
    }
}

/// Some child is part of the body.
pub open spec fn has_body(n: Node) -> bool {
    exists|i: int| 0 <= i < n.children@.len() && !structural(#[trigger] n.children@[i].node_type)
}

/// Nothing but blanks stands between the start of the physical line and
/// byte `off`.
pub open spec fn standalone(src: Seq<u8>, off: int) -> bool
    decreases off,
{
    if off <= 0 {
        true
    } else if off > src.len() {
        false
    } else if src[off - 1] == 10u8 {
        true
    } else if is_blank(src[off - 1]) {
        standalone(src, off - 1)
    } else {
        false
    }
}

/// Writes the standalone comments of `ps[..k]` as lines at `level`.
pub open spec fn interior_fold(c: Ctx, st: EmitState, ps: Seq<usize>, k: int, level: usize) -> EmitState
    decreases k,
{
    if k <= 0 {
        st
    } else {
        let s = interior_fold(c, st, ps, k - 1, level);
        let p = ps[k - 1];
        if pending(s, p) && p < c.cs.len() && standalone(c.src, c.cs[p as int].location.start_offset as int) {
            mark(put(s, indent(c.fmt, level as nat) + text_of(c.cs[p as int]) + nl()), p)
        } else {
            s
        }
    }
}

/// Before a closing keyword: the pending standalone comments on the lines
/// strictly inside the construct.
pub open spec fn interior(c: Ctx, st: EmitState, n: Node, level: usize) -> EmitState {
    let ps = answer(c.es, st.done, Query::Range(line_after(n.location.start_line), n.location.end_line));
    interior_fold(c, st, ps, ps.len() as int, level)
}

/// Newlines between two siblings: one, or two where the source had a blank
/// line before the next sibling or before the first pending comment between
/// them.
pub open spec fn separator(c: Ctx, st: EmitState, cur: Node, next: Node) -> Seq<u8> {
    let ce = cur.location.end_line;
    let ns = next.location.start_line;
    let ps = answer(c.es, st.done, Query::Range(line_after(ce), ns));
    let target = if ps.len() > 0 && c.cs[ps[0] as int].location.start_line < ns {
        c.cs[ps[0] as int].location.start_line
    } else {
        ns
    };
    if target > ce + 1 { nl() + nl() } else { nl() }
}

/// The first non-whitespace byte at or after `off` opens a brace.
pub open spec fn braces(src: Seq<u8>, off: int) -> bool {
    let j = skip_space(src, off, src.len() as int);
    0 <= j < src.len() && src[j] == 123u8
}

/// Position of the first statement-list child at or after `i`.
pub open spec fn first_statements(ch: Seq<Node>, i: int) -> Option<int>
    decreases ch.len() - i,
{
    if 0 <= i < ch.len() {
        if ch[i].node_type is StatementsNode { Some(i) } else { first_statements(ch, i + 1) }
    } else {
        None
    }
}

/// Verbatim emission: indentation, the node's source slice, and the
/// comments that trail it on its last line.
pub open spec fn verbatim(c: Ctx, st: EmitState, n: Node, level: usize) -> EmitState {
    let s = n.location.start_offset;
    let e = n.location.end_offset;
    if slice_ok(c.src, s as int, e as int) {
        let t = put_slice(c, put(st, indent(c.fmt, level as nat)), s, e, n.location.start_line, n.location.end_line);
        trailing(c, t, n.location.end_line)
    } else {
        st
    }
}

/// The parameter list of a block, after a space.
pub open spec fn block_params(c: Ctx, st: EmitState, b: Node) -> EmitState {
    match delimited(c.src, b.location.start_offset as int, b.location.end_offset as int, 124u8, 124u8) {
        Some((i, j)) => if slice_ok(c.src, i, j) { put(st, sp() + c.src.subrange(i, j)) } else { st },
        None => st,
    }
}

/// Output owed for node `n` at nesting depth `level`.
pub open spec fn emit_node(c: Ctx, st: EmitState, n: Node, level: usize) -> EmitState
    decreases n, n.children@.len() + 2,
{
    match n.node_type {
        NodeType::ProgramNode => emit_list(c, st, n, 0, level),
        NodeType::StatementsNode => emit_list(c, st, n, 0, level),
        NodeType::ClassNode => emit_def(c, st, n, level),
        NodeType::ModuleNode => emit_def(c, st, n, level),
        NodeType::DefNode => emit_def(c, st, n, level),
        NodeType::IfNode => emit_if(c, st, n, level, false),
        NodeType::UnlessNode => emit_if(c, st, n, level, false),
        NodeType::CallNode => emit_call(c, st, n, level),
        _ => verbatim(c, flush_before(c, st, n.location.start_line, level), n, level),
    }
}

/// Children `i..` of `p` as a statement list, with normalized separators.
pub open spec fn emit_list(c: Ctx, st: EmitState, p: Node, i: int, level: usize) -> EmitState
    decreases p, p.children@.len() - i,
{
    if 0 <= i < p.children@.len() {
        let ch = p.children@[i];
        let s1 = emit_node(c, st, ch, level);
        let s2 = if i + 1 < p.children@.len() {
            put(s1, separator(c, s1, ch, p.children@[i + 1]))
        } else {
            s1
        };
        emit_list(c, s2, p, i + 1, level)
    } else {
        st
    }
}

/// The body children `i..` of a definition.
pub open spec fn emit_body(c: Ctx, st: EmitState, p: Node, i: int, level: usize) -> EmitState
    decreases p, p.children@.len() - i,
{
    if 0 <= i < p.children@.len() {
        let ch = p.children@[i];
        let s1 = if structural(ch.node_type) { st } else { emit_node(c, st, ch, level) };
        emit_body(c, s1, p, i + 1, level)
    } else {
        st
    }
}

/// A class, module or method definition.
pub open spec fn emit_def(c: Ctx, st: EmitState, n: Node, level: usize) -> EmitState
    decreases n, n.children@.len() + 1,
{
    let s1 = flush_before(c, st, n.location.start_line, level);
    let s2 = put(s1, indent(c.fmt, level as nat) + def_header(c, n));
    let s3 = trailing(c, s2, n.location.start_line);
    let s4 = put(s3, nl());
    let s5 = emit_body(c, s4, n, 0, deeper(level));
    let s6 = if has_body(n) { put(s5, nl()) } else { s5 };
    let s7 = interior(c, s6, n, deeper(level));
    put(s7, indent(c.fmt, level as nat) + kw_end())
}

/// The keyword of a conditional.
pub open spec fn cond_kw(n: Node) -> Seq<u8> {
    if n.node_type is UnlessNode { kw_unless() } else { kw_if() }
}

/// A conditional: modifier form on one line, or block form with its
/// `elsif`/`else` branches; only the outermost one closes with `end`.
pub open spec fn emit_if(c: Ctx, st: EmitState, n: Node, level: usize, elsif: bool) -> EmitState
    decreases n, n.children@.len() + 1,
{
    let k = n.children@.len();
    if k >= 2 && n.children@[1].location.start_offset < n.children@[0].location.start_offset && !elsif {
        let pred = n.children@[0];
        let body = n.children@[1];
        let s1 = flush_before(c, st, n.location.start_line, level);
        let s2 = put(s1, indent(c.fmt, level as nat));
        let s3 = if body.node_type is StatementsNode {
            put_trimmed(c, s2, body.location.start_offset, body.location.end_offset, true,
                body.location.start_line, body.location.end_line)
        } else {
            s2
        };
        let s4 = put(s3, sp() + cond_kw(n) + sp());
        let s5 = put_slice(c, s4, pred.location.start_offset, pred.location.end_offset,
            pred.location.start_line, pred.location.end_line);
        trailing(c, s5, n.location.end_line)
    } else {
        let s1 = if elsif { st } else { flush_before(c, st, n.location.start_line, level) };
        let s2 = put(s1, indent(c.fmt, level as nat) + if elsif { kw_elsif() } else { cond_kw(n) + sp() });
        let s3 = if k >= 1 {
            let pred = n.children@[0];
            put_slice(c, s2, pred.location.start_offset, pred.location.end_offset,
                pred.location.start_line, pred.location.end_line)
        } else {
            s2
        };
        let s4 = put(trailing(c, s3, n.location.start_line), nl());
        let s5 = if k >= 2 && n.children@[1].node_type is StatementsNode {
            put(emit_list(c, s4, n.children@[1], 0, deeper(level)), nl())
        } else {
            s4
        };
        let s6 = if k >= 3 {
            let alt = n.children@[2];
            if alt.node_type is IfNode {
                emit_if(c, s5, alt, level, true)
            } else if alt.node_type is ElseNode {
                emit_else(c, s5, alt, level)
            } else {
                s5
            }
        } else {
            s5
        };
        if elsif { s6 } else { put(s6, indent(c.fmt, level as nat) + kw_end()) }
    }
}

/// An `else` branch.
pub open spec fn emit_else(c: Ctx, st: EmitState, e: Node, level: usize) -> EmitState
    decreases e, e.children@.len() + 1,
{
    let s1 = put(st, indent(c.fmt, level as nat) + kw_else() + nl());
    if e.children@.len() >= 1 && e.children@[0].node_type is StatementsNode {
        put(emit_list(c, s1, e.children@[0], 0, deeper(level)), nl())
    } else {
        s1
    }
}

/// The statement list of a block, one level deeper, then a newline.
pub open spec fn block_body(c: Ctx, st: EmitState, b: Node, level: usize) -> EmitState
    decreases b, b.children@.len() + 1,
{
    match first_statements(b.children@, 0) {
        Some(i) => if 0 <= i < b.children@.len() {
            put(emit_list(c, st, b.children@[i], 0, level), nl())
        } else {
            st
        },
        None => st,
    }
}

/// A call with a block up to its block: pending comments, indentation, and
/// the call part from the source without trailing whitespace.
pub open spec fn call_head(c: Ctx, st: EmitState, n: Node, b: Node, level: usize) -> EmitState {
    let s1 = flush_before(c, st, n.location.start_line, level);
    let s2 = put(s1, indent(c.fmt, level as nat));
    if n.location.start_offset <= b.location.start_offset {
        put_trimmed(c, s2, n.location.start_offset, b.location.start_offset, false,
            n.location.start_line, b.location.start_line)
    } else {
        s2
    }
}

/// What opens a block in the output: ` {` for a multi-line brace block, the
/// whole source text of a one-line brace block after a space, ` do`
/// otherwise.
pub open spec fn block_opener(c: Ctx, b: Node) -> Seq<u8> {
    if braces(c.src, b.location.start_offset as int) {
        if b.location.start_line != b.location.end_line {
            kw_lbrace()
        } else if slice_ok(c.src, b.location.start_offset as int, b.location.end_offset as int) {
            sp() + c.src.subrange(b.location.start_offset as int, b.location.end_offset as int)
        } else {
            sp()
        }
    } else {
        kw_do()
    }
}

/// A call: verbatim when it carries no block; otherwise the call part
/// verbatim and the block in the style the source used.
pub open spec fn emit_call(c: Ctx, st: EmitState, n: Node, level: usize) -> EmitState
    decreases n, n.children@.len() + 1,
{
    let k = n.children@.len();
    if k >= 1 && n.children@[k - 1].node_type is BlockNode {
        let b = n.children@[k - 1];
        let s3 = call_head(c, st, n, b, level);
        if braces(c.src, b.location.start_offset as int) {
            if b.location.start_line != b.location.end_line {
                let s4 = block_params(c, put(s3, kw_lbrace()), b);
                let s5 = block_body(c, put(s4, nl()), b, deeper(level));
                put(s5, indent(c.fmt, level as nat) + kw_rbrace())
            } else {
                put_slice(c, put(s3, sp()), b.location.start_offset, b.location.end_offset,
                    b.location.start_line, b.location.end_line)
            }
        } else {
            let s4 = block_params(c, put(s3, kw_do()), b);
            let s5 = block_body(c, put(s4, nl()), b, deeper(level));
            put(s5, indent(c.fmt, level as nat) + kw_end())
        }
    } else {
        verbatim(c, flush_before(c, st, n.location.start_line, level), n, level)
    }
}

/// After the walk: every comment still pending, in list order, at column
/// zero, gaps kept.
pub open spec fn final_fold(c: Ctx, f0: Flush, k: int) -> Flush
    decreases k,
{
    if k <= 0 {
        f0
    } else {
        let f = final_fold(c, f0, k - 1);
        let p = (k - 1) as usize;
        if pending(f.st, p) && k - 1 < c.cs.len() {
            let cm = c.cs[k - 1];
            let lead = if f.st.out.len() > 0 && f.st.out.last() != 10u8 { nl() } else { Seq::empty() };
            let blank = match f.prev {
                Some(e) => cm.location.start_line > e + 1,
                None => false,
            };
            let gap = if blank { nl() } else { Seq::empty() };
            Flush {
                st: mark(put(f.st, lead + gap + text_of(cm) + nl()), p),
                prev: Some(cm.location.end_line),
            }
        } else {
            f
        }
    }
}

/// The trailing block of remaining comments after the walk of `root`.
pub open spec fn finish(c: Ctx, st: EmitState, root: Node) -> EmitState {
    let f0 = Flush { st, prev: if st.out.len() > 0 { Some(root.location.end_line) } else { None } };
    final_fold(c, f0, c.cs.len() as int).st
}

/// `b` without its trailing newlines.
pub open spec fn strip_newlines(b: Seq<u8>) -> Seq<u8>
    decreases b.len(),
{
    if b.len() > 0 && b.last() == 10u8 { strip_newlines(b.drop_last()) } else { b }
}

/// `b` ending in exactly one newline.
pub open spec fn terminated(b: Seq<u8>) -> Seq<u8> {
    strip_newlines(b).push(10u8)
}

/// The state before the walk.
pub open spec fn start_state(n: nat) -> EmitState {
    EmitState { out: Seq::empty(), done: Seq::new(n, |i: int| false), log: Seq::empty() }
}

/// The whole run: walk, trailing block, one final newline.
pub open spec fn run(c: Ctx, root: Node) -> EmitState {
    let walked = emit_node(c, start_state(c.cs.len()), root, 0);
    let fin = finish(c, walked, root);
    EmitState { out: terminated(fin.out), ..fin }
}

} // verus!

verus! {

/// The context of a run over `root` with source bytes `src`.
pub open spec fn context(src: Seq<u8>, fmt: FormattingConfig, root: Node) -> Ctx {
    let cs = flatten(root);
    let locs = view_locations(cs);
    Ctx { src, cs, es: crate::comments::index_spec(locs, locs.len() as int), fmt }
}

/// The text, as bytes, that formatting `root` over source bytes `src` gives.
pub open spec fn formatted(src: Seq<u8>, fmt: FormattingConfig, root: Node) -> Seq<u8> {
    run(context(src, fmt, root), root).out
}

} // verus!
