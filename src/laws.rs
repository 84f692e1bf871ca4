//! Properties of the emitted text that hold for every tree and source.

use crate::ast::{Node, NodeType};
use crate::comments::{answer, answers, lemma_picked_none, Query};
use crate::config::FormattingConfig;
use crate::layout::{
    block_body, block_opener, block_params, braces, call_head, consume_fold, deeper, emit_body, emit_call,
    emit_def, emit_else, emit_if, emit_list, emit_node, flush_before, formatted, indent, interior,
    interior_fold, kw_do, kw_lbrace, line_after, line_fold, mark, nl, put, put_slice, put_trimmed, separator, sp,
    pending, strip_newlines, terminated, trail_fold, trailing, verbatim, Ctx, EmitState, Flush,
};
use crate::text::slice_ok;
use vstd::prelude::*;

verus! {

proof fn lemma_strip_newlines(b: Seq<u8>)
    ensures
        strip_newlines(b).len() == 0 || strip_newlines(b).last() != 10u8,
    decreases b.len(),
{
    if b.len() > 0 && b.last() == 10u8 {
        lemma_strip_newlines(b.drop_last());
    }
}

/// The formatted text always ends with exactly one newline, however many
/// newlines (none, one or several) the walk left at its end.
pub proof fn lemma_single_final_newline(src: Seq<u8>, fmt: FormattingConfig, root: Node)
    ensures
        ({
            let out = formatted(src, fmt, root);
            &&& out.len() >= 1
            &&& out.last() == 10u8
            &&& (out.len() == 1 || out[out.len() - 2] != 10u8)
        }),
{
    let out = formatted(src, fmt, root);
    let b = crate::layout::finish(crate::layout::context(src, fmt, root), emit_node(crate::layout::context(src, fmt, root),
        crate::layout::start_state(crate::layout::context(src, fmt, root).cs.len()), root, 0), root).out;
    lemma_strip_newlines(b);
    assert(out == terminated(b));
}

/// Blank lines between two sibling constructs collapse: with no pending
/// comment between them, adjacent siblings are separated by one newline (no
/// blank line), and siblings with one or more blank lines between them by
/// two newlines (exactly one blank line).
pub proof fn lemma_blank_line_collapse(c: Ctx, st: EmitState, cur: Node, next: Node)
    requires
        answer(c.es, st.done, Query::Range(line_after(cur.location.end_line), next.location.start_line)).len() == 0,
    ensures
        next.location.start_line <= cur.location.end_line + 1 ==> separator(c, st, cur, next) == nl(),
        next.location.start_line > cur.location.end_line + 1 ==> separator(c, st, cur, next) == nl() + nl(),
{
}

/// With every comment emitted, no query answers anything.
proof fn lemma_nothing_pending(c: Ctx, st: EmitState, q: Query)
    requires
        forall|p: int| 0 <= p < st.done.len() ==> st.done[p],
    ensures
        answer(c.es, st.done, q) == Seq::<usize>::empty(),
{
    assert forall|i: int| 0 <= i < c.es.len() implies !answers(q, c.es[i], st.done) by {}
    lemma_picked_none(c.es, st.done, q, c.es.len() as int);
}

/// A node of unrecognized kind is reproduced as its exact source slice,
/// after the indentation of its depth, when no comment is pending.
pub proof fn lemma_unknown_passthrough(c: Ctx, st: EmitState, n: Node, level: usize)
    requires
        n.node_type is Unknown,
        slice_ok(c.src, n.location.start_offset as int, n.location.end_offset as int),
        forall|p: int| 0 <= p < st.done.len() ==> st.done[p],
    ensures
        emit_node(c, st, n, level) == put(st, indent(c.fmt, level as nat)
            + c.src.subrange(n.location.start_offset as int, n.location.end_offset as int)),
{
    lemma_nothing_pending(c, st, Query::Before(n.location.start_line));
    assert(flush_before(c, st, n.location.start_line, level) == st);
    let s1 = put(st, indent(c.fmt, level as nat));
    lemma_nothing_pending(c, s1, Query::Range(n.location.start_line, line_after(n.location.end_line)));
    let t = put(s1, c.src.subrange(n.location.start_offset as int, n.location.end_offset as int));
    lemma_nothing_pending(c, t, Query::Range(n.location.start_line, line_after(n.location.end_line)));
    assert(put_slice(c, s1, n.location.start_offset, n.location.end_offset, n.location.start_line,
        n.location.end_line) == t);
    lemma_nothing_pending(c, t, Query::On(n.location.end_line));
    assert(trailing(c, t, n.location.end_line) == t);
    assert(t.out =~= st.out + (indent(c.fmt, level as nat)
        + c.src.subrange(n.location.start_offset as int, n.location.end_offset as int)));
}

/// `b`'s output starts with `a`'s.
pub open spec fn grows(a: EmitState, b: EmitState) -> bool {
    a.out.len() <= b.out.len() && b.out.subrange(0, a.out.len() as int) == a.out
}

proof fn lemma_grows_trans(a: EmitState, b: EmitState, c: EmitState)
    requires
        grows(a, b),
        grows(b, c),
    ensures
        grows(a, c),
{
    assert(c.out.subrange(0, a.out.len() as int) =~= c.out.subrange(0, b.out.len() as int).subrange(0, a.out.len() as int));
}

proof fn lemma_put_grows(st: EmitState, x: Seq<u8>)
    ensures
        grows(st, put(st, x)),
{
    assert((st.out + x).subrange(0, st.out.len() as int) =~= st.out);
}

proof fn lemma_mark_grows(st: EmitState, p: usize)
    ensures
        grows(st, mark(st, p)),
{
    assert(st.out.subrange(0, st.out.len() as int) =~= st.out);
}

proof fn lemma_line_fold_grows(c: Ctx, f0: Flush, ps: Seq<usize>, k: int, level: usize)
    ensures
        grows(f0.st, line_fold(c, f0, ps, k, level).st),
    decreases k,
{
    if k <= 0 {
        lemma_mark_grows(f0.st, 0);
        assert(f0.st.out.subrange(0, f0.st.out.len() as int) =~= f0.st.out);
    } else {
        lemma_line_fold_grows(c, f0, ps, k - 1, level);
        let f = line_fold(c, f0, ps, k - 1, level);
        let p = ps[k - 1];
        if pending(f.st, p) && p < c.cs.len() {
            let cm = c.cs[p as int];
            let gap = match f.prev {
                Some(e) => cm.location.start_line > e + 1,
                None => false,
            };
            let lead = if gap { nl() } else { Seq::empty() };
            let x = lead + indent(c.fmt, level as nat) + cm.text + nl();
            lemma_put_grows(f.st, x);
            lemma_mark_grows(put(f.st, x), p);
            lemma_grows_trans(f.st, put(f.st, x), mark(put(f.st, x), p));
            lemma_grows_trans(f0.st, f.st, mark(put(f.st, x), p));
        }
    }
}

proof fn lemma_flush_grows(c: Ctx, st: EmitState, line: usize, level: usize)
    ensures
        grows(st, flush_before(c, st, line, level)),
{
    let ps = crate::comments::answer(c.es, st.done, crate::comments::Query::Before(line));
    let f = line_fold(c, Flush { st, prev: None }, ps, ps.len() as int, level);
    lemma_line_fold_grows(c, Flush { st, prev: None }, ps, ps.len() as int, level);
    lemma_put_grows(f.st, nl());
    lemma_grows_trans(st, f.st, put(f.st, nl()));
}

proof fn lemma_trail_fold_grows(c: Ctx, st: EmitState, ps: Seq<usize>, k: int)
    ensures
        grows(st, trail_fold(c, st, ps, k)),
    decreases k,
{
    if k <= 0 {
        lemma_mark_grows(st, 0);
    } else {
        lemma_trail_fold_grows(c, st, ps, k - 1);
        let s = trail_fold(c, st, ps, k - 1);
        let p = ps[k - 1];
        if pending(s, p) && p < c.cs.len() {
            let x = sp() + c.cs[p as int].text;
            lemma_put_grows(s, x);
            lemma_mark_grows(put(s, x), p);
            lemma_grows_trans(s, put(s, x), mark(put(s, x), p));
            lemma_grows_trans(st, s, mark(put(s, x), p));
        }
    }
}

proof fn lemma_trailing_grows(c: Ctx, st: EmitState, line: usize)
    ensures
        grows(st, trailing(c, st, line)),
{
    let ps = crate::comments::answer(c.es, st.done, crate::comments::Query::On(line));
    lemma_trail_fold_grows(c, st, ps, ps.len() as int);
}

proof fn lemma_consume_same_out(c: Ctx, st: EmitState, ps: Seq<usize>, k: int, s: int, e: int)
    ensures
        consume_fold(c, st, ps, k, s, e).out == st.out,
    decreases k,
{
    if k > 0 {
        lemma_consume_same_out(c, st, ps, k - 1, s, e);
    }
}

proof fn lemma_slice_grows(c: Ctx, st: EmitState, s: usize, e: usize, l0: usize, l1: usize)
    ensures
        grows(st, put_slice(c, st, s, e, l0, l1)),
        slice_ok(c.src, s as int, e as int) ==> put_slice(c, st, s, e, l0, l1).out
            == st.out + c.src.subrange(s as int, e as int),
{
    lemma_mark_grows(st, 0);
    if slice_ok(c.src, s as int, e as int) {
        let t = put(st, c.src.subrange(s as int, e as int));
        let ps = crate::comments::answer(c.es, t.done, crate::comments::Query::Range(l0, line_after(l1)));
        lemma_consume_same_out(c, t, ps, ps.len() as int, s as int, e as int);
        lemma_put_grows(st, c.src.subrange(s as int, e as int));
    }
}

proof fn lemma_trimmed_grows(c: Ctx, st: EmitState, s: usize, e: usize, both: bool, l0: usize, l1: usize)
    ensures
        grows(st, put_trimmed(c, st, s, e, both, l0, l1)),
{
    lemma_mark_grows(st, 0);
    if slice_ok(c.src, s as int, e as int) {
        let a = if both { crate::layout::skip_space(c.src, s as int, e as int) } else { s as int };
        let b = crate::layout::drop_space(c.src, a, e as int);
        lemma_slice_grows(c, st, a as usize, b as usize, l0, l1);
    }
}

proof fn lemma_verbatim_grows(c: Ctx, st: EmitState, n: Node, level: usize)
    ensures
        grows(st, verbatim(c, st, n, level)),
{
    lemma_mark_grows(st, 0);
    let s = n.location.start_offset;
    let e = n.location.end_offset;
    if slice_ok(c.src, s as int, e as int) {
        let s1 = put(st, indent(c.fmt, level as nat));
        lemma_put_grows(st, indent(c.fmt, level as nat));
        lemma_slice_grows(c, s1, s, e, n.location.start_line, n.location.end_line);
        let t = put_slice(c, s1, s, e, n.location.start_line, n.location.end_line);
        lemma_trailing_grows(c, t, n.location.end_line);
        lemma_grows_trans(st, s1, t);
        lemma_grows_trans(st, t, trailing(c, t, n.location.end_line));
    }
}

proof fn lemma_interior_fold_grows(c: Ctx, st: EmitState, ps: Seq<usize>, k: int, level: usize)
    ensures
        grows(st, interior_fold(c, st, ps, k, level)),
    decreases k,
{
    if k <= 0 {
        lemma_mark_grows(st, 0);
    } else {
        lemma_interior_fold_grows(c, st, ps, k - 1, level);
        let s = interior_fold(c, st, ps, k - 1, level);
        let p = ps[k - 1];
        if pending(s, p) && p < c.cs.len() && crate::layout::standalone(c.src, c.cs[p as int].location.start_offset as int) {
            let x = indent(c.fmt, level as nat) + c.cs[p as int].text + nl();
            lemma_put_grows(s, x);
            lemma_mark_grows(put(s, x), p);
            lemma_grows_trans(s, put(s, x), mark(put(s, x), p));
            lemma_grows_trans(st, s, mark(put(s, x), p));
        }
    }
}

proof fn lemma_interior_grows(c: Ctx, st: EmitState, n: Node, level: usize)
    ensures
        grows(st, interior(c, st, n, level)),
{
    let ps = crate::comments::answer(c.es, st.done,
        crate::comments::Query::Range(line_after(n.location.start_line), n.location.end_line));
    lemma_interior_fold_grows(c, st, ps, ps.len() as int, level);
}

proof fn lemma_params_grows(c: Ctx, st: EmitState, b: Node)
    ensures
        grows(st, block_params(c, st, b)),
{
    lemma_mark_grows(st, 0);
    match crate::layout::delimited(c.src, b.location.start_offset as int, b.location.end_offset as int, 124u8, 124u8) {
        Some((i, j)) => lemma_put_grows(st, sp() + c.src.subrange(i, j)),
        None => {},
    }
}

/// Every step of the walk appends to the output and never rewrites what is
/// already written.
pub proof fn lemma_node_grows(c: Ctx, st: EmitState, n: Node, level: usize)
    ensures
        grows(st, emit_node(c, st, n, level)),
    decreases n, n.children@.len() + 2,
{
    match n.node_type {
        NodeType::ProgramNode => lemma_list_grows(c, st, n, 0, level),
        NodeType::StatementsNode => lemma_list_grows(c, st, n, 0, level),
        NodeType::ClassNode => lemma_def_grows(c, st, n, level),
        NodeType::ModuleNode => lemma_def_grows(c, st, n, level),
        NodeType::DefNode => lemma_def_grows(c, st, n, level),
        NodeType::IfNode => lemma_if_grows(c, st, n, level, false),
        NodeType::UnlessNode => lemma_if_grows(c, st, n, level, false),
        NodeType::CallNode => lemma_call_grows(c, st, n, level),
        _ => {
            lemma_flush_grows(c, st, n.location.start_line, level);
            let s1 = flush_before(c, st, n.location.start_line, level);
            lemma_verbatim_grows(c, s1, n, level);
            lemma_grows_trans(st, s1, verbatim(c, s1, n, level));
        },
    }
}

proof fn lemma_list_grows(c: Ctx, st: EmitState, p: Node, i: int, level: usize)
    ensures
        grows(st, emit_list(c, st, p, i, level)),
    decreases p, p.children@.len() - i,
{
    if 0 <= i < p.children@.len() {
        let ch = p.children@[i];
        let s1 = emit_node(c, st, ch, level);
        lemma_node_grows(c, st, ch, level);
        let s2 = if i + 1 < p.children@.len() {
            put(s1, separator(c, s1, ch, p.children@[i + 1]))
        } else {
            s1
        };
        if i + 1 < p.children@.len() {
            lemma_put_grows(s1, separator(c, s1, ch, p.children@[i + 1]));
        } else {
            lemma_mark_grows(s1, 0);
        }
        lemma_grows_trans(st, s1, s2);
        lemma_list_grows(c, s2, p, i + 1, level);
        lemma_grows_trans(st, s2, emit_list(c, s2, p, i + 1, level));
    } else {
        lemma_mark_grows(st, 0);
    }
}

proof fn lemma_body_grows(c: Ctx, st: EmitState, p: Node, i: int, level: usize)
    ensures
        grows(st, emit_body(c, st, p, i, level)),
    decreases p, p.children@.len() - i,
{
    if 0 <= i < p.children@.len() {
        let ch = p.children@[i];
        let s1 = if crate::layout::structural(ch.node_type) { st } else { emit_node(c, st, ch, level) };
        if crate::layout::structural(ch.node_type) {
            lemma_mark_grows(st, 0);
        } else {
            lemma_node_grows(c, st, ch, level);
        }
        lemma_body_grows(c, s1, p, i + 1, level);
        lemma_grows_trans(st, s1, emit_body(c, s1, p, i + 1, level));
    } else {
        lemma_mark_grows(st, 0);
    }
}

proof fn lemma_def_grows(c: Ctx, st: EmitState, n: Node, level: usize)
    ensures
        grows(st, emit_def(c, st, n, level)),
    decreases n, n.children@.len() + 1,
{
    let s1 = flush_before(c, st, n.location.start_line, level);
    lemma_flush_grows(c, st, n.location.start_line, level);
    let h = indent(c.fmt, level as nat) + crate::layout::def_header(c, n);
    let s2 = put(s1, h);
    lemma_put_grows(s1, h);
    let s3 = trailing(c, s2, n.location.start_line);
    lemma_trailing_grows(c, s2, n.location.start_line);
    let s4 = put(s3, nl());
    lemma_put_grows(s3, nl());
    let s5 = emit_body(c, s4, n, 0, deeper(level));
    lemma_body_grows(c, s4, n, 0, deeper(level));
    let s6 = if crate::layout::has_body(n) { put(s5, nl()) } else { s5 };
    lemma_put_grows(s5, nl());
    lemma_mark_grows(s5, 0);
    let s7 = interior(c, s6, n, deeper(level));
    lemma_interior_grows(c, s6, n, deeper(level));
    let x = indent(c.fmt, level as nat) + crate::layout::kw_end();
    lemma_put_grows(s7, x);
    lemma_grows_trans(st, s1, s2);
    lemma_grows_trans(st, s2, s3);
    lemma_grows_trans(st, s3, s4);
    lemma_grows_trans(st, s4, s5);
    lemma_grows_trans(st, s5, s6);
    lemma_grows_trans(st, s6, s7);
    lemma_grows_trans(st, s7, put(s7, x));
}

proof fn lemma_else_grows(c: Ctx, st: EmitState, e: Node, level: usize)
    ensures
        grows(st, emit_else(c, st, e, level)),
    decreases e, e.children@.len() + 1,
{
    let s1 = put(st, indent(c.fmt, level as nat) + crate::layout::kw_else() + nl());
    lemma_put_grows(st, indent(c.fmt, level as nat) + crate::layout::kw_else() + nl());
    if e.children@.len() >= 1 && e.children@[0].node_type is StatementsNode {
        let s2 = emit_list(c, s1, e.children@[0], 0, deeper(level));
        lemma_list_grows(c, s1, e.children@[0], 0, deeper(level));
        lemma_put_grows(s2, nl());
        lemma_grows_trans(st, s1, s2);
        lemma_grows_trans(st, s2, put(s2, nl()));
    }
}

proof fn lemma_if_grows(c: Ctx, st: EmitState, n: Node, level: usize, elsif: bool)
    ensures
        grows(st, emit_if(c, st, n, level, elsif)),
    decreases n, n.children@.len() + 1,
{
    let k = n.children@.len();
    if k >= 2 && n.children@[1].location.start_offset < n.children@[0].location.start_offset && !elsif {
        let pred = n.children@[0];
        let body = n.children@[1];
        let s1 = flush_before(c, st, n.location.start_line, level);
        lemma_flush_grows(c, st, n.location.start_line, level);
        let s2 = put(s1, indent(c.fmt, level as nat));
        lemma_put_grows(s1, indent(c.fmt, level as nat));
        let s3 = if body.node_type is StatementsNode {
            put_trimmed(c, s2, body.location.start_offset, body.location.end_offset, true,
                body.location.start_line, body.location.end_line)
        } else {
            s2
        };
        lemma_trimmed_grows(c, s2, body.location.start_offset, body.location.end_offset, true,
            body.location.start_line, body.location.end_line);
        lemma_mark_grows(s2, 0);
        let x = sp() + crate::layout::cond_kw(n) + sp();
        let s4 = put(s3, x);
        lemma_put_grows(s3, x);
        let s5 = put_slice(c, s4, pred.location.start_offset, pred.location.end_offset,
            pred.location.start_line, pred.location.end_line);
        lemma_slice_grows(c, s4, pred.location.start_offset, pred.location.end_offset,
            pred.location.start_line, pred.location.end_line);
        lemma_trailing_grows(c, s5, n.location.end_line);
        lemma_grows_trans(st, s1, s2);
        lemma_grows_trans(st, s2, s3);
        lemma_grows_trans(st, s3, s4);
        lemma_grows_trans(st, s4, s5);
        lemma_grows_trans(st, s5, trailing(c, s5, n.location.end_line));
    } else {
        let s1 = if elsif { st } else { flush_before(c, st, n.location.start_line, level) };
        lemma_flush_grows(c, st, n.location.start_line, level);
        lemma_mark_grows(st, 0);
        let h = indent(c.fmt, level as nat) + if elsif { crate::layout::kw_elsif() } else { crate::layout::cond_kw(n) + sp() };
        let s2 = put(s1, h);
        lemma_put_grows(s1, h);
        let s3 = if k >= 1 {
            let pred = n.children@[0];
            put_slice(c, s2, pred.location.start_offset, pred.location.end_offset,
                pred.location.start_line, pred.location.end_line)
        } else {
            s2
        };
        if k >= 1 {
            let pred = n.children@[0];
            lemma_slice_grows(c, s2, pred.location.start_offset, pred.location.end_offset,
                pred.location.start_line, pred.location.end_line);
        } else {
            lemma_mark_grows(s2, 0);
        }
        let t = trailing(c, s3, n.location.start_line);
        lemma_trailing_grows(c, s3, n.location.start_line);
        let s4 = put(t, nl());
        lemma_put_grows(t, nl());
        let s5 = if k >= 2 && n.children@[1].node_type is StatementsNode {
            put(emit_list(c, s4, n.children@[1], 0, deeper(level)), nl())
        } else {
            s4
        };
        if k >= 2 && n.children@[1].node_type is StatementsNode {
            let l = emit_list(c, s4, n.children@[1], 0, deeper(level));
            lemma_list_grows(c, s4, n.children@[1], 0, deeper(level));
            lemma_put_grows(l, nl());
            lemma_grows_trans(s4, l, s5);
        } else {
            lemma_mark_grows(s4, 0);
        }
        let s6 = if k >= 3 {
            let alt = n.children@[2];
            if alt.node_type is IfNode {
                emit_if(c, s5, alt, level, true)
            } else if alt.node_type is ElseNode {
                emit_else(c, s5, alt, level)
            } else {
                s5
            }
        } else {
            s5
        };
        lemma_mark_grows(s5, 0);
        if k >= 3 {
            let alt = n.children@[2];
            if alt.node_type is IfNode {
                lemma_if_grows(c, s5, alt, level, true);
            } else if alt.node_type is ElseNode {
                lemma_else_grows(c, s5, alt, level);
            }
        }
        let x = indent(c.fmt, level as nat) + crate::layout::kw_end();
        lemma_put_grows(s6, x);
        lemma_grows_trans(st, s1, s2);
        lemma_grows_trans(st, s2, s3);
        lemma_grows_trans(st, s3, t);
        lemma_grows_trans(st, t, s4);
        lemma_grows_trans(st, s4, s5);
        lemma_grows_trans(st, s5, s6);
        lemma_grows_trans(st, s6, put(s6, x));
    }
}

proof fn lemma_block_body_grows(c: Ctx, st: EmitState, b: Node, level: usize)
    ensures
        grows(st, block_body(c, st, b, level)),
    decreases b, b.children@.len() + 1,
{
    lemma_mark_grows(st, 0);
    match crate::layout::first_statements(b.children@, 0) {
        Some(i) => if 0 <= i < b.children@.len() {
            let l = emit_list(c, st, b.children@[i], 0, level);
            lemma_list_grows(c, st, b.children@[i], 0, level);
            lemma_put_grows(l, nl());
            lemma_grows_trans(st, l, put(l, nl()));
        },
        None => {},
    }
}

proof fn lemma_call_grows(c: Ctx, st: EmitState, n: Node, level: usize)
    ensures
        grows(st, emit_call(c, st, n, level)),
        ({
            let k = n.children@.len();
            k >= 1 && n.children@[k - 1].node_type is BlockNode ==> {
                let b = n.children@[k - 1];
                let h = call_head(c, st, n, b, level);
                grows(put(h, block_opener(c, b)), emit_call(c, st, n, level))
            }
        }),
    decreases n, n.children@.len() + 1,
{
    let k = n.children@.len();
    if k >= 1 && n.children@[k - 1].node_type is BlockNode {
        let b = n.children@[k - 1];
        let s1 = flush_before(c, st, n.location.start_line, level);
        lemma_flush_grows(c, st, n.location.start_line, level);
        let s2 = put(s1, indent(c.fmt, level as nat));
        lemma_put_grows(s1, indent(c.fmt, level as nat));
        lemma_grows_trans(st, s1, s2);
        let s3 = call_head(c, st, n, b, level);
        lemma_trimmed_grows(c, s2, n.location.start_offset, b.location.start_offset, false,
            n.location.start_line, b.location.start_line);
        lemma_mark_grows(s2, 0);
        lemma_grows_trans(st, s2, s3);
        let o = put(s3, block_opener(c, b));
        lemma_put_grows(s3, block_opener(c, b));
        lemma_grows_trans(st, s3, o);
        let fin = emit_call(c, st, n, level);
        if braces(c.src, b.location.start_offset as int) {
            if b.location.start_line != b.location.end_line {
                let s4 = block_params(c, o, b);
                lemma_params_grows(c, o, b);
                let s5 = block_body(c, put(s4, nl()), b, deeper(level));
                lemma_put_grows(s4, nl());
                lemma_block_body_grows(c, put(s4, nl()), b, deeper(level));
                let x = indent(c.fmt, level as nat) + crate::layout::kw_rbrace();
                lemma_put_grows(s5, x);
                lemma_grows_trans(o, s4, put(s4, nl()));
                lemma_grows_trans(o, put(s4, nl()), s5);
                lemma_grows_trans(o, s5, fin);
            } else {
                lemma_slice_grows(c, put(s3, sp()), b.location.start_offset, b.location.end_offset,
                    b.location.start_line, b.location.end_line);
                if slice_ok(c.src, b.location.start_offset as int, b.location.end_offset as int) {
                    assert(fin.out =~= o.out);
                } else {
                    assert(fin.out =~= o.out);
                }
                assert(fin.out.subrange(0, o.out.len() as int) =~= o.out);
            }
        } else {
            let s4 = block_params(c, o, b);
            lemma_params_grows(c, o, b);
            let s5 = block_body(c, put(s4, nl()), b, deeper(level));
            lemma_put_grows(s4, nl());
            lemma_block_body_grows(c, put(s4, nl()), b, deeper(level));
            let x = indent(c.fmt, level as nat) + crate::layout::kw_end();
            lemma_put_grows(s5, x);
            lemma_grows_trans(o, s4, put(s4, nl()));
            lemma_grows_trans(o, put(s4, nl()), s5);
            lemma_grows_trans(o, s5, fin);
        }
        lemma_grows_trans(st, o, fin);
    } else {
        let s1 = flush_before(c, st, n.location.start_line, level);
        lemma_flush_grows(c, st, n.location.start_line, level);
        lemma_verbatim_grows(c, s1, n, level);
        lemma_grows_trans(st, s1, verbatim(c, s1, n, level));
    }
}

/// A call keeps the block style of its source: right after the call part
/// the output holds ` {` (or the brace block's own one-line text) when the
/// block opens with a brace in the source, and ` do` otherwise.
pub proof fn lemma_block_style_kept(c: Ctx, st: EmitState, n: Node, level: usize)
    requires
        n.children@.len() >= 1,
        n.children@[n.children@.len() - 1].node_type is BlockNode,
    ensures
        ({
            let b = n.children@[n.children@.len() - 1];
            let head = call_head(c, st, n, b, level).out;
            let out = emit_call(c, st, n, level).out;
            &&& out.len() >= head.len() + block_opener(c, b).len()
            &&& out.subrange(head.len() as int, (head.len() + block_opener(c, b).len()) as int) == block_opener(c, b)
            &&& (braces(c.src, b.location.start_offset as int) && b.location.start_line != b.location.end_line
                ==> block_opener(c, b) == kw_lbrace())
            &&& (!braces(c.src, b.location.start_offset as int) ==> block_opener(c, b) == kw_do())
        }),
{
    let b = n.children@[n.children@.len() - 1];
    let h = call_head(c, st, n, b, level);
    lemma_call_grows(c, st, n, level);
    lemma_put_grows(h, block_opener(c, b));
    let out = emit_call(c, st, n, level).out;
    let o = put(h, block_opener(c, b)).out;
    assert(out.subrange(0, o.len() as int) == o);
    assert(out.subrange(h.out.len() as int, (h.out.len() + block_opener(c, b).len()) as int)
        =~= o.subrange(h.out.len() as int, o.len() as int));
    assert(o.subrange(h.out.len() as int, o.len() as int) =~= block_opener(c, b));
}

} // verus!

