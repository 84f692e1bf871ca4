//! Index of comments by start line, with the three queries the emitter makes.

use crate::ast::{Comment, Location};
use vstd::prelude::*;

verus! {

/// One index entry: start line, end line, and the comment's position in the
/// flat comment list.
pub type Entry = (usize, usize, usize);

/// A question put to the index. Every question asks only for comments that
/// are not yet emitted.
#[derive(Debug, Clone, Copy, PartialEq, Eq, Structural)]
pub enum Query {
    /// Comments lying within the lines `[start, end)`.
    Range(usize, usize),
    /// Comments that start and end before `line`.
    Before(usize),
    /// Comments that start on `line`.
    On(usize),
}

/// Whether the comment of entry `e` answers `q`, given the emitted flags.
pub open spec fn answers(q: Query, e: Entry, done: Seq<bool>) -> bool {
    &&& e.2 < done.len()
    &&& !done[e.2 as int]
    &&& match q {
        Query::Range(s, t) => s <= e.0 < t && e.1 < t,
        Query::Before(l) => e.0 < l && e.1 < l,
        Query::On(l) => e.0 == l,
    }
}

/// Positions of the comments among the first `k` entries that answer `q`,
/// in index order.
pub open spec fn picked(es: Seq<Entry>, done: Seq<bool>, q: Query, k: int) -> Seq<usize>
    decreases k,
{
    if k <= 0 {
        Seq::empty()
    } else if answers(q, es[k - 1], done) {
        picked(es, done, q, k - 1).push(es[k - 1].2)
    } else {
        picked(es, done, q, k - 1)
    }
}

/// The answer to `q` over the whole index.
pub open spec fn answer(es: Seq<Entry>, done: Seq<bool>, q: Query) -> Seq<usize> {
    picked(es, done, q, es.len() as int)
}

/// Entries ordered by start line.
pub open spec fn sorted(es: Seq<Entry>) -> bool {
    forall|i: int, j: int| 0 <= i <= j < es.len() ==> es[i].0 <= es[j].0
}

/// Entries that describe the comments at `locs` by position, lines included.
pub open spec fn describes(es: Seq<Entry>, locs: Seq<Location>) -> bool {
    forall|i: int|
        0 <= i < es.len() ==> {
            &&& es[i].2 < locs.len()
            &&& es[i].0 == locs[es[i].2 as int].start_line
            &&& es[i].1 == locs[es[i].2 as int].end_line
        }
}

/// The spans of a comment list.
pub open spec fn locations(cs: Seq<Comment>) -> Seq<Location> {
    cs.map_values(|c: Comment| c.location)
}

/// Number of the first `k` entries whose start line is at most `s`.
pub open spec fn count_le(es: Seq<Entry>, s: usize, k: int) -> nat
    decreases k,
{
    if k <= 0 {
        0
    } else {
        count_le(es, s, k - 1) + if es[k - 1].0 <= s { 1nat } else { 0nat }
    }
}

/// The index of the first `k` comments at `locs`: each entry goes after the
/// entries whose start line is not greater than its own.
pub open spec fn index_spec(locs: Seq<Location>, k: int) -> Seq<Entry>
    decreases k,
{
    if k <= 0 {
        Seq::empty()
    } else {
        let es = index_spec(locs, k - 1);
        let l = locs[k - 1];
        es.insert(count_le(es, l.start_line, es.len() as int) as int, (l.start_line, l.end_line, (k - 1) as usize))
    }
}

proof fn lemma_count_le(es: Seq<Entry>, s: usize, r: int, k: int)
    requires
        0 <= r <= es.len(),
        0 <= k <= es.len(),
        forall|i: int| 0 <= i < r ==> es[i].0 <= s,
        forall|i: int| r <= i < es.len() ==> es[i].0 > s,
    ensures
        count_le(es, s, k) == if k <= r { k } else { r },
    decreases k,
{
    if k > 0 {
        lemma_count_le(es, s, r, k - 1);
    }
}

/// Every position that an answer holds names an existing comment.
pub proof fn lemma_picked_bound(es: Seq<Entry>, done: Seq<bool>, q: Query, k: int)
    ensures
        forall|j: int| 0 <= j < picked(es, done, q, k).len() ==> #[trigger] picked(es, done, q, k)[j] < done.len(),
    decreases k,
{
    if k > 0 {
        lemma_picked_bound(es, done, q, k - 1);
        let prev = picked(es, done, q, k - 1);
        let cur = picked(es, done, q, k);
        assert forall|j: int| 0 <= j < cur.len() implies #[trigger] cur[j] < done.len() by {
            if j < prev.len() {
                assert(cur[j] == prev[j]);
            }
        }
    }
}

pub(crate) proof fn lemma_picked_none(es: Seq<Entry>, done: Seq<bool>, q: Query, k: int)
    requires
        k <= es.len(),
        forall|i: int| 0 <= i < k ==> !answers(q, es[i], done),
    ensures
        picked(es, done, q, k) == Seq::<usize>::empty(),
    decreases k,
{
    if k > 0 {
        lemma_picked_none(es, done, q, k - 1);
    }
}

proof fn lemma_picked_tail(es: Seq<Entry>, done: Seq<bool>, q: Query, k: int)
    requires
        0 <= k <= es.len(),
        forall|i: int| k <= i < es.len() ==> !answers(q, es[i], done),
    ensures
        answer(es, done, q) == picked(es, done, q, k),
    decreases es.len() - k,
{
    if k < es.len() {
        lemma_picked_tail_step(es, done, q, k, es.len() as int);
    }
}

proof fn lemma_picked_tail_step(es: Seq<Entry>, done: Seq<bool>, q: Query, k: int, m: int)
    requires
        0 <= k <= m <= es.len(),
        forall|i: int| k <= i < es.len() ==> !answers(q, es[i], done),
    ensures
        picked(es, done, q, m) == picked(es, done, q, k),
    decreases m - k,
{
    if m > k {
        lemma_picked_tail_step(es, done, q, k, m - 1);
    }
}

/// Comments by start line, for queries in logarithmic time plus the size of
/// the answer.
pub struct CommentIndex {
    pub entries: Vec<Entry>,
}

impl CommentIndex {
    /// The index is ordered and describes `cs`.
    pub open spec fn wf_for(&self, locs: Seq<Location>) -> bool {
        &&& sorted(self.entries@)
        &&& describes(self.entries@, locs)
        &&& self.entries@.len() == locs.len()
    }

    /// Number of entries whose start line is below `line` (the first position
    /// whose start line is at least `line`).
    fn lower_bound(&self, line: usize) -> (r: usize)
        requires
            sorted(self.entries@),
        ensures
            r <= self.entries@.len(),
            forall|i: int| 0 <= i < r ==> self.entries@[i].0 < line,
            forall|i: int| r <= i < self.entries@.len() ==> self.entries@[i].0 >= line,
    {
        let mut lo: usize = 0;
        let mut hi: usize = self.entries.len();
        while lo < hi
            invariant
                sorted(self.entries@),
                lo <= hi <= self.entries@.len(),
                forall|i: int| 0 <= i < lo ==> self.entries@[i].0 < line,
                forall|i: int| hi <= i < self.entries@.len() ==> self.entries@[i].0 >= line,
            decreases hi - lo,
        {
            let mid = lo + (hi - lo) / 2;
            if self.entries[mid].0 < line {
                lo = mid + 1;
            } else {
                hi = mid;
            }
        }
        lo
    }

    /// Number of entries whose start line is at most `line`.
    fn upper_bound(&self, line: usize) -> (r: usize)
        requires
            sorted(self.entries@),
        ensures
            r <= self.entries@.len(),
            forall|i: int| 0 <= i < r ==> self.entries@[i].0 <= line,
            forall|i: int| r <= i < self.entries@.len() ==> self.entries@[i].0 > line,
    {
        let mut lo: usize = 0;
        let mut hi: usize = self.entries.len();
        while lo < hi
            invariant
                sorted(self.entries@),
                lo <= hi <= self.entries@.len(),
                forall|i: int| 0 <= i < lo ==> self.entries@[i].0 <= line,
                forall|i: int| hi <= i < self.entries@.len() ==> self.entries@[i].0 > line,
            decreases hi - lo,
        {
            let mid = lo + (hi - lo) / 2;
            if self.entries[mid].0 <= line {
                lo = mid + 1;
            } else {
                hi = mid;
            }
        }
        lo
    }

    /// Builds the index of `comments`, ordered by start line; comments that
    /// start on one line keep their order in the list.
    pub fn build(comments: &Vec<Comment>) -> (r: CommentIndex)
        ensures
            r.wf_for(locations(comments@)),
            r.entries@ == index_spec(locations(comments@), comments@.len() as int),
    {
        let mut idx = CommentIndex { entries: Vec::new() };
        let n = comments.len();
        let mut p: usize = 0;
        while p < n
            invariant
                n == comments@.len(),
                p <= n,
                sorted(idx.entries@),
                describes(idx.entries@, locations(comments@)),
                idx.entries@.len() == p,
                idx.entries@ == index_spec(locations(comments@), p as int),
            decreases n - p,
        {
            let s = comments[p].location.start_line;
            let e = comments[p].location.end_line;
            let k = idx.upper_bound(s);
            let ghost before = idx.entries@;
            proof { lemma_count_le(before, s, k as int, before.len() as int); }
            idx.entries.insert(k, (s, e, p));
            assert(idx.entries@ == before.insert(k as int, (s, e, p)));
            assert forall|i: int, j: int| 0 <= i <= j < idx.entries@.len() implies
                idx.entries@[i].0 <= idx.entries@[j].0 by {
                if i < k && j < k {
                } else if i < k && j == k {
                } else if i < k {
                    assert(idx.entries@[j] == before[j - 1]);
                } else if i == k && j > k {
                    assert(idx.entries@[j] == before[j - 1]);
                } else if i > k {
                    assert(idx.entries@[i] == before[i - 1]);
                    assert(idx.entries@[j] == before[j - 1]);
                }
            }
            assert forall|i: int| 0 <= i < idx.entries@.len() implies {
                &&& idx.entries@[i].2 < locations(comments@).len()
                &&& idx.entries@[i].0 == locations(comments@)[idx.entries@[i].2 as int].start_line
                &&& idx.entries@[i].1 == locations(comments@)[idx.entries@[i].2 as int].end_line
            } by {
                if i > k {
                    assert(idx.entries@[i] == before[i - 1]);
                }
            }
            p += 1;
        }
        idx
    }

    /// Scans the entries `[from, to)` and collects the positions that answer
    /// `q`.
    fn scan(&self, done: &Vec<bool>, q: Query, from: usize, to: usize) -> (r: Vec<usize>)
        requires
            from <= to <= self.entries@.len(),
            picked(self.entries@, done@, q, from as int) == Seq::<usize>::empty(),
        ensures
            r@ == picked(self.entries@, done@, q, to as int),
    {
        let mut r: Vec<usize> = Vec::new();
        let mut k: usize = from;
        while k < to
            invariant
                from <= k <= to <= self.entries@.len(),
                r@ == picked(self.entries@, done@, q, k as int),
            decreases to - k,
        {
            let (s, e, p) = self.entries[k];
            let hit = p < done.len() && !done[p] && match q {
                Query::Range(a, b) => a <= s && s < b && e < b,
                Query::Before(l) => s < l && e < l,
                Query::On(l) => s == l,
            };
            if hit {
                r.push(p);
            }
            k += 1;
        }
        r
    }

    /// Not-yet-emitted comments lying within the lines `[start, end)`, in
    /// index order; empty when `start >= end`.
    pub fn in_range(&self, done: &Vec<bool>, start: usize, end: usize) -> (r: Vec<usize>)
        requires
            sorted(self.entries@),
        ensures
            r@ == answer(self.entries@, done@, Query::Range(start, end)),
    {
        let q = Query::Range(start, end);
        if start >= end {
            let r: Vec<usize> = Vec::new();
            proof { lemma_picked_none(self.entries@, done@, q, self.entries@.len() as int); }
            return r;
        }
        let lo = self.lower_bound(start);
        let hi = self.lower_bound(end);
        proof {
            lemma_picked_none(self.entries@, done@, q, lo as int);
            if hi < lo {
                assert(self.entries@[hi as int].0 >= end);
                assert(self.entries@[hi as int].0 < start);
            }
            lemma_picked_tail(self.entries@, done@, q, hi as int);
        }
        self.scan(done, q, lo, hi)
    }

    /// Not-yet-emitted comments that start and end before `line`, in index
    /// order.
    pub fn before(&self, done: &Vec<bool>, line: usize) -> (r: Vec<usize>)
        requires
            sorted(self.entries@),
        ensures
            r@ == answer(self.entries@, done@, Query::Before(line)),
    {
        self.before_from(done, line, 0)
    }

    /// As `before`, skipping the first `from` entries, whose comments are
    /// all emitted already.
    pub fn before_from(&self, done: &Vec<bool>, line: usize, from: usize) -> (r: Vec<usize>)
        requires
            sorted(self.entries@),
            from <= self.entries@.len(),
            forall|k: int| 0 <= k < from ==> {
                let p = #[trigger] self.entries@[k].2;
                p < done@.len() ==> done@[p as int]
            },
        ensures
            r@ == answer(self.entries@, done@, Query::Before(line)),
    {
        let q = Query::Before(line);
        let hi = self.lower_bound(line);
        let lo = if from < hi { from } else { hi };
        proof {
            assert forall|i: int| 0 <= i < lo implies !answers(q, #[trigger] self.entries@[i], done@) by {}
            lemma_picked_none(self.entries@, done@, q, lo as int);
            lemma_picked_tail(self.entries@, done@, q, hi as int);
        }
        self.scan(done, q, lo, hi)
    }

    /// Not-yet-emitted comments that start on `line`, in index order.
    pub fn on(&self, done: &Vec<bool>, line: usize) -> (r: Vec<usize>)
        requires
            sorted(self.entries@),
        ensures
            r@ == answer(self.entries@, done@, Query::On(line)),
    {
        let q = Query::On(line);
        let lo = self.lower_bound(line);
        let hi = self.upper_bound(line);
        proof {
            lemma_picked_none(self.entries@, done@, q, lo as int);
            if hi < lo {
                assert(self.entries@[hi as int].0 > line);
                assert(self.entries@[hi as int].0 < line);
            }
            lemma_picked_tail(self.entries@, done@, q, hi as int);
        }
        self.scan(done, q, lo, hi)
    }
}

} // verus!
