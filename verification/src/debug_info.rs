use vstd::prelude::*;
use crate::span::Span;

verus! {

/// One run of the debug map: `len` consecutive bytecode offsets from
/// `start` that all map to `span`.
pub open spec fn run_contains(run: (usize, usize, Span), offset: int) -> bool {
    run.0 <= offset < run.0 + run.1
}

/// The runs are well formed: each is non-empty and ends before the next one
/// starts, so they are sorted and disjoint.
pub open spec fn runs_sorted(runs: Seq<(usize, usize, Span)>) -> bool {
    &&& forall|i: int| 0 <= i < runs.len() ==> #[trigger] runs[i].1 >= 1
    &&& forall|i: int, j: int|
        0 <= i < j < runs.len() ==> #[trigger] runs[i].0 + runs[i].1 <= #[trigger] runs[j].0
}

/// The span recorded for `offset`: that of the first run that contains it.
pub open spec fn span_at(runs: Seq<(usize, usize, Span)>, offset: int) -> Option<Span>
    decreases runs.len(),
{
    if runs.len() == 0 {
        None
    } else if run_contains(runs[0], offset) {
        Some(runs[0].2)
    } else {
        span_at(runs.drop_first(), offset)
    }
}

/// Where the next recorded offset would extend the last run.
pub open spec fn runs_end(runs: Seq<(usize, usize, Span)>) -> int {
    if runs.len() == 0 {
        0
    } else {
        runs.last().0 + runs.last().1
    }
}

/// The runs after recording `span` for `offset`: the last run grows by one
/// when `offset` directly follows it and has its span; otherwise a run of
/// length one is appended.
pub open spec fn add_run(runs: Seq<(usize, usize, Span)>, offset: usize, span: Span) -> Seq<(usize, usize, Span)> {
    if runs.len() > 0 && offset == runs.last().0 + runs.last().1 && span == runs.last().2 {
        runs.update(runs.len() - 1, (runs.last().0, (runs.last().1 + 1) as usize, span))
    } else {
        runs.push((offset, 1usize, span))
    }
}

/// The runs after recording each `(offset, span)` of `entries` in order.
pub open spec fn add_all(runs: Seq<(usize, usize, Span)>, entries: Seq<(usize, Span)>) -> Seq<(usize, usize, Span)>
    decreases entries.len(),
{
    if entries.len() == 0 {
        runs
    } else {
        add_run(add_all(runs, entries.drop_last()), entries.last().0, entries.last().1)
    }
}

/// Run-length encoded map from bytecode offsets to source spans.
///
/// Consecutive offsets with the same span share one run
/// `(start_offset, run_length, span)`.
#[derive(Debug, Clone)]
pub struct DebugInfo {
    pub runs: Vec<(usize, usize, Span)>,
}

impl DebugInfo {
    /// An empty map.
    pub fn new() -> (d: DebugInfo)
        ensures
            d.runs@ == Seq::<(usize, usize, Span)>::empty(),
    {
        DebugInfo { runs: Vec::new() }
    }

    /// Records `span` for bytecode `offset`. If `offset` directly follows the
    /// last run and has that run's span, the run grows by one; otherwise a new
    /// run of length one is appended.
    pub fn add_span(&mut self, offset: usize, span: Span)
        requires
            old(self).runs.len() > 0 ==> old(self).runs@.last().0 + old(self).runs@.last().1 < usize::MAX,
        ensures
            final(self).runs@ == add_run(old(self).runs@, offset, span),
    {
        let n = self.runs.len();
        if n > 0 {
            let (start_offset, run_length, last_span) = self.runs[n - 1];
            let expected_offset = start_offset + run_length;
            if offset == expected_offset && last_span == span {
                self.runs.set(n - 1, (start_offset, run_length + 1, last_span));
                return;
            }
        }
        self.runs.push((offset, 1, span));
    }

    /// The span recorded for `offset`, or the zero span if none is. Runs are
    /// searched by bisection, so the answer is exact when the runs are sorted
    /// (as they are when offsets are recorded in increasing order); otherwise
    /// it is the span of some run or the zero span.
    pub fn get_span(&self, offset: usize) -> (s: Span)
        ensures
            runs_sorted(self.runs@) ==> s == (match span_at(self.runs@, offset as int) {
                Some(sp) => sp,
                None => Span::zero(),
            }),
            s == Span::zero() || exists|i: int| 0 <= i < self.runs.len() && s == #[trigger] self.runs@[i].2,
    {
        let mut lo: usize = 0;
        let mut hi: usize = self.runs.len();
        while lo < hi
            invariant
                0 <= lo <= hi <= self.runs.len(),
                runs_sorted(self.runs@) ==> forall|i: int|
                    0 <= i < lo ==> self.runs@[i].0 + self.runs@[i].1 <= offset,
                runs_sorted(self.runs@) ==> forall|i: int|
                    hi <= i < self.runs.len() ==> offset < self.runs@[i].0,
            decreases hi - lo,
        {
            let mid = lo + (hi - lo) / 2;
            let (start, len, sp) = self.runs[mid];
            if offset < start {
                hi = mid;
            } else if offset - start >= len {
                lo = mid + 1;
            } else {
                proof {
                    if runs_sorted(self.runs@) {
                        lemma_span_at_hit(self.runs@, mid as int, offset as int);
                    }
                }
                return sp;
            }
        }
        proof {
            if runs_sorted(self.runs@) {
                lemma_span_at_miss(self.runs@, offset as int);
            }
        }
        Span::default_span()
    }

    /// The number of runs stored.
    pub fn num_runs(&self) -> (n: usize)
        ensures
            n == self.runs.len(),
    {
        self.runs.len()
    }
}

impl Default for DebugInfo {
    fn default() -> (d: DebugInfo)
        ensures
            d.runs@ == Seq::<(usize, usize, Span)>::empty(),
    {
        DebugInfo::new()
    }
}

proof fn lemma_span_at_hit(runs: Seq<(usize, usize, Span)>, k: int, offset: int)
    requires
        runs_sorted(runs),
        0 <= k < runs.len(),
        run_contains(runs[k], offset),
    ensures
        span_at(runs, offset) == Some(runs[k].2),
    decreases runs.len(),
{
    if k > 0 {
        assert(runs[0].0 + runs[0].1 <= runs[k].0);
        let rest = runs.drop_first();
        assert(runs_sorted(rest)) by {
            assert forall|i: int, j: int| 0 <= i < j < rest.len() implies #[trigger] rest[i].0 + rest[i].1
                <= #[trigger] rest[j].0 by {
                assert(rest[i] == runs[i + 1] && rest[j] == runs[j + 1]);
            }
            assert forall|i: int| 0 <= i < rest.len() implies #[trigger] rest[i].1 >= 1 by {
                assert(rest[i] == runs[i + 1]);
            }
        }
        lemma_span_at_hit(rest, k - 1, offset);
    }
}

proof fn lemma_span_at_miss(runs: Seq<(usize, usize, Span)>, offset: int)
    requires
        forall|i: int| 0 <= i < runs.len() ==> !run_contains(#[trigger] runs[i], offset),
    ensures
        span_at(runs, offset) is None,
    decreases runs.len(),
{
    if runs.len() > 0 {
        let rest = runs.drop_first();
        assert forall|i: int| 0 <= i < rest.len() implies !run_contains(#[trigger] rest[i], offset) by {
            assert(rest[i] == runs[i + 1]);
        }
        lemma_span_at_miss(rest, offset);
    }
}

/// Recording the span of the offset that follows all recorded ones keeps the
/// runs sorted.
pub proof fn lemma_add_keeps_sorted(runs: Seq<(usize, usize, Span)>, new_runs: Seq<(usize, usize, Span)>, offset: usize, span: Span)
    requires
        runs_sorted(runs),
        offset >= runs_end(runs),
        new_runs == add_run(runs, offset, span),
        runs_end(runs) < usize::MAX,
    ensures
        runs_sorted(new_runs),
        runs_end(new_runs) == offset + 1,
{
    if runs.len() > 0 {
        let last = runs.len() - 1;
        assert forall|i: int| 0 <= i < runs.len() implies #[trigger] runs[i].0 + runs[i].1 <= runs_end(runs) by {
            if i < last {
                assert(runs[i].0 + runs[i].1 <= runs[last].0);
            }
        }
    }
    assert forall|i: int, j: int| 0 <= i < j < new_runs.len() implies #[trigger] new_runs[i].0 + new_runs[i].1
        <= #[trigger] new_runs[j].0 by {
        if j < runs.len() {
            assert(runs[i].0 + runs[i].1 <= runs[j].0);
        }
    }
}

/// Recording a span for the offset that follows every recorded offset makes
/// that offset map to the span and leaves what every other offset maps to
/// unchanged: a read gives back the last write, and only it.
pub proof fn law_record_then_lookup(
    runs: Seq<(usize, usize, Span)>,
    new_runs: Seq<(usize, usize, Span)>,
    offset: usize,
    span: Span,
    query: int,
)
    requires
        runs_sorted(runs),
        offset >= runs_end(runs),
        runs_end(runs) < usize::MAX,
        new_runs == add_run(runs, offset, span),
    ensures
        runs_sorted(new_runs),
        span_at(new_runs, query) == (if query == offset {
            Some(span)
        } else {
            span_at(runs, query)
        }),
{
    lemma_add_keeps_sorted(runs, new_runs, offset, span);
    if runs.len() > 0 {
        let last = runs.len() - 1;
        assert forall|i: int| 0 <= i < runs.len() implies #[trigger] runs[i].0 + runs[i].1 <= runs_end(runs) by {
            if i < last {
                assert(runs[i].0 + runs[i].1 <= runs[last].0);
            }
        }
    }
    let last_new = new_runs.len() - 1;
    assert(run_contains(new_runs[last_new], offset as int));
    if query == offset {
        lemma_span_at_hit(new_runs, last_new, query);
    } else if exists|k: int| 0 <= k < runs.len() && run_contains(#[trigger] runs[k], query) {
        let k = choose|k: int| 0 <= k < runs.len() && run_contains(#[trigger] runs[k], query);
        lemma_span_at_hit(runs, k, query);
        assert(run_contains(new_runs[k], query));
        assert(new_runs[k].2 == runs[k].2);
        lemma_span_at_hit(new_runs, k, query);
    } else {
        lemma_span_at_miss(runs, query);
        assert forall|i: int| 0 <= i < new_runs.len() implies !run_contains(#[trigger] new_runs[i], query) by {
            if i < runs.len() {
                assert(!run_contains(runs[i], query));
            }
        }
        lemma_span_at_miss(new_runs, query);
    }
}

/// Recording spans for strictly increasing offsets, all past what is
/// already recorded, keeps the runs sorted, and afterwards each recorded
/// offset maps to the span recorded for it while every other offset maps to
/// what it mapped to before.
pub proof fn law_records_then_lookup(runs: Seq<(usize, usize, Span)>, entries: Seq<(usize, Span)>, query: int)
    requires
        runs_sorted(runs),
        runs_end(runs) < usize::MAX,
        entries.len() > 0 ==> entries[0].0 >= runs_end(runs),
        forall|i: int, j: int| 0 <= i < j < entries.len() ==> #[trigger] entries[i].0 < #[trigger] entries[j].0,
        forall|i: int| 0 <= i < entries.len() ==> #[trigger] entries[i].0 + 1 < usize::MAX,
    ensures
        runs_sorted(add_all(runs, entries)),
        runs_end(add_all(runs, entries)) == if entries.len() > 0 {
            entries.last().0 + 1
        } else {
            runs_end(runs)
        },
        forall|i: int| 0 <= i < entries.len() && #[trigger] entries[i].0 == query
            ==> span_at(add_all(runs, entries), query) == Some(entries[i].1),
        (forall|i: int| 0 <= i < entries.len() ==> #[trigger] entries[i].0 != query)
            ==> span_at(add_all(runs, entries), query) == span_at(runs, query),
    decreases entries.len(),
{
    if entries.len() > 0 {
        let p = entries.drop_last();
        let last = entries.last();
        assert forall|i: int, j: int| 0 <= i < j < p.len() implies #[trigger] p[i].0 < #[trigger] p[j].0 by {
            assert(p[i] == entries[i] && p[j] == entries[j]);
        }
        assert forall|i: int| 0 <= i < p.len() implies #[trigger] p[i].0 + 1 < usize::MAX by {
            assert(p[i] == entries[i]);
        }
        law_records_then_lookup(runs, p, query);
        let mid = add_all(runs, p);
        if p.len() > 0 {
            assert(p.last() == entries[p.len() - 1]);
            assert(entries[p.len() - 1].0 < entries[entries.len() - 1].0);
        }
        assert(entries[entries.len() - 1] == last);
        law_record_then_lookup(mid, add_all(runs, entries), last.0, last.1, query);
        assert forall|i: int| 0 <= i < entries.len() && #[trigger] entries[i].0 == query
            implies span_at(add_all(runs, entries), query) == Some(entries[i].1) by {
            if i < p.len() {
                assert(p[i] == entries[i]);
                assert(entries[i].0 < last.0);
            }
        }
        if forall|i: int| 0 <= i < entries.len() ==> #[trigger] entries[i].0 != query {
            assert forall|i: int| 0 <= i < p.len() implies #[trigger] p[i].0 != query by {
                assert(p[i] == entries[i]);
            }
            assert(entries[entries.len() - 1].0 != query);
        }
    }
}

/// The offsets `start`, `start + 1`, ... (`n` of them), each with `span`.
pub open spec fn consecutive(start: usize, n: nat, span: Span) -> Seq<(usize, Span)> {
    Seq::new(n, |k: int| ((start + k) as usize, span))
}

/// Recording one span for `n` consecutive offsets into an empty map makes a
/// single run: run-length encoding stores them as one entry.
pub proof fn law_same_span_one_run(start: usize, n: nat, span: Span)
    requires
        n >= 1,
        start + n < usize::MAX,
    ensures
        add_all(Seq::empty(), consecutive(start, n, span)) == seq![(start, n as usize, span)],
    decreases n,
{
    let e = consecutive(start, n, span);
    if n == 1 {
        assert(e.drop_last() =~= Seq::<(usize, Span)>::empty());
        assert(add_all(Seq::empty(), e.drop_last()) == Seq::<(usize, usize, Span)>::empty());
        assert(add_run(Seq::empty(), start, span) =~= seq![(start, 1usize, span)]);
    } else {
        law_same_span_one_run(start, (n - 1) as nat, span);
        assert(e.drop_last() =~= consecutive(start, (n - 1) as nat, span));
        let mid = seq![(start, (n - 1) as usize, span)];
        assert(e.last() == ((start + n - 1) as usize, span));
        assert(add_run(mid, (start + n - 1) as usize, span) =~= seq![(start, n as usize, span)]);
    }
}

/// Recording one span for `n` consecutive offsets that start where the
/// runs end adds a single run, or grows the last run when it has that span:
/// an instruction whose bytes share a span takes at most one more entry.
pub proof fn law_consecutive_one_run(runs: Seq<(usize, usize, Span)>, start: usize, n: nat, span: Span)
    requires
        n >= 1,
        runs_end(runs) <= start,
        start + n < usize::MAX,
    ensures
        add_all(runs, consecutive(start, n, span)) == if runs.len() > 0 && start == runs_end(runs) && span
            == runs.last().2 {
            runs.update(runs.len() - 1, (runs.last().0, (runs.last().1 + n) as usize, span))
        } else {
            runs.push((start, n as usize, span))
        },
    decreases n,
{
    let e = consecutive(start, n, span);
    if n == 1 {
        assert(e.drop_last() =~= Seq::<(usize, Span)>::empty());
        assert(add_all(runs, e.drop_last()) == runs);
    } else {
        law_consecutive_one_run(runs, start, (n - 1) as nat, span);
        assert(e.drop_last() =~= consecutive(start, (n - 1) as nat, span));
        assert(e.last() == ((start + n - 1) as usize, span));
        let mid = add_all(runs, e.drop_last());
        if runs.len() > 0 && start == runs_end(runs) && span == runs.last().2 {
            assert(runs.last().0 + runs.last().1 == start);
            assert(mid.last() == (runs.last().0, (runs.last().1 + n - 1) as usize, span));
            assert(add_run(mid, (start + n - 1) as usize, span) =~= runs.update(
                runs.len() - 1, (runs.last().0, (runs.last().1 + n) as usize, span)));
        } else {
            assert(mid.last() == (start, (n - 1) as usize, span));
            assert(add_run(mid, (start + n - 1) as usize, span) =~= runs.push((start, n as usize, span)));
        }
    }
}

/// The number of places where an offset does not directly follow the one
/// before it, or has another span: where a new run has to start.
pub open spec fn breaks(entries: Seq<(usize, Span)>) -> nat
    decreases entries.len(),
{
    if entries.len() <= 1 {
        0
    } else {
        let prev = entries[entries.len() - 2];
        let last = entries.last();
        breaks(entries.drop_last()) + if last.0 == prev.0 + 1 && last.1 == prev.1 {
            0nat
        } else {
            1nat
        }
    }
}

/// Recording spans for strictly increasing offsets into an empty map keeps
/// the fewest runs: one, plus one more wherever an offset does not directly
/// follow the one before or has another span.
pub proof fn law_fewest_runs(entries: Seq<(usize, Span)>)
    requires
        forall|i: int, j: int| 0 <= i < j < entries.len() ==> #[trigger] entries[i].0 < #[trigger] entries[j].0,
        forall|i: int| 0 <= i < entries.len() ==> #[trigger] entries[i].0 + 1 < usize::MAX,
    ensures
        add_all(Seq::empty(), entries).len() == if entries.len() == 0 {
            0
        } else {
            1 + breaks(entries)
        },
        entries.len() > 0 ==> add_all(Seq::empty(), entries).last().2 == entries.last().1,
        entries.len() > 0 ==> runs_end(add_all(Seq::empty(), entries)) == entries.last().0 + 1,
    decreases entries.len(),
{
    if entries.len() > 0 {
        let p = entries.drop_last();
        assert forall|i: int, j: int| 0 <= i < j < p.len() implies #[trigger] p[i].0 < #[trigger] p[j].0 by {
            assert(p[i] == entries[i] && p[j] == entries[j]);
        }
        assert forall|i: int| 0 <= i < p.len() implies #[trigger] p[i].0 + 1 < usize::MAX by {
            assert(p[i] == entries[i]);
        }
        law_fewest_runs(p);
        let r = add_all(Seq::<(usize, usize, Span)>::empty(), p);
        assert(entries.last() == entries[entries.len() - 1]);
        if p.len() > 0 {
            assert(p.last() == entries[entries.len() - 2]);
            assert(entries[entries.len() - 2].0 < entries[entries.len() - 1].0);
        }
    }
}

} // verus!
