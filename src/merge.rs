//! Merging a finished attempt into the records: the personal-best decision and
//! the segment-wise minimum that rebuilds the sum of best.
use vstd::prelude::*;
use crate::record::non_decreasing;
use crate::run::{record_fits, record_view, RunModel, RunState, Status};

verus! {

/// The time spent in section `i` alone: its cumulative time less the previous one.
pub open spec fn segment(c: Seq<u32>, i: int) -> int {
    if i == 0 {
        c[0] as int
    } else {
        c[i] - c[i - 1]
    }
}

/// A finished attempt with cumulative times `run` is a new personal best: there is
/// none yet, or its final time is strictly below the personal best's.
pub open spec fn beats_pb(run: Seq<u32>, pb: Option<Seq<u32>>) -> bool {
    match pb {
        None => true,
        Some(p) => run.last() < p.last(),
    }
}

/// The best segment at `i`: the attempt's, or the old sum of best's if that is smaller.
pub open spec fn best_segment(run: Seq<u32>, old: Option<Seq<u32>>, i: int) -> int {
    match old {
        None => segment(run, i),
        Some(o) => if segment(o, i) < segment(run, i) { segment(o, i) } else { segment(run, i) },
    }
}

/// `new` is the sum of best rebuilt from the attempt `run` and the old sum of best:
/// one section for each of the attempt's, each segment the best at its index.
pub open spec fn merged_sum_of_best(new: Seq<u32>, run: Seq<u32>, old: Option<Seq<u32>>) -> bool {
    &&& new.len() == run.len()
    &&& forall|i: int| 0 <= i < run.len() ==> #[trigger] segment(new, i) == best_segment(run, old, i)
}

/// Decides whether a finished attempt is a new personal best; a tie is not.
pub fn is_new_pb(run: &Vec<u32>, pb: &Option<Vec<u32>>) -> (r: bool)
    requires
        run.len() > 0,
        record_fits(record_view(*pb), run@.len()),
    ensures
        r == beats_pb(run@, record_view(*pb)),
{
    match pb {
        None => true,
        Some(p) => run[run.len() - 1] < p[p.len() - 1],
    }
}

/// Rebuilds the sum of best: for each index the smaller of the attempt's segment and
/// the old sum of best's, summed in order. Without an old sum of best the attempt's
/// own times come back.
pub fn merge_sum_of_best(run: &Vec<u32>, old: &Option<Vec<u32>>) -> (r: Vec<u32>)
    requires
        non_decreasing(run@),
        record_fits(record_view(*old), run@.len()),
    ensures
        merged_sum_of_best(r@, run@, record_view(*old)),
        non_decreasing(r@),
{
    let mut r: Vec<u32> = Vec::new();
    let mut total: u32 = 0;
    let mut i: usize = 0;
    while i < run.len()
        invariant
            non_decreasing(run@),
            record_fits(record_view(*old), run@.len()),
            i <= run.len(),
            r.len() == i,
            i > 0 ==> total == r@.last() && total <= run@[i - 1],
            i == 0 ==> total == 0,
            non_decreasing(r@),
            forall|j: int| 0 <= j < i ==> #[trigger] segment(r@, j) == best_segment(run@, record_view(*old), j),
        decreases run.len() - i,
    {
        let prev: u32 = if i == 0 { 0 } else { run[i - 1] };
        let seg = run[i] - prev;
        let best = match old {
            Some(o) => {
                let old_prev: u32 = if i == 0 { 0 } else { o[i - 1] };
                let old_seg = o[i] - old_prev;
                if old_seg < seg { old_seg } else { seg }
            },
            None => seg,
        };
        assert(best == best_segment(run@, record_view(*old), i as int));
        let ghost before = r@;
        total = total + best;
        r.push(total);
        assert forall|j: int| 0 <= j < i + 1 implies #[trigger] segment(r@, j) == best_segment(run@, record_view(*old), j) by {
            if j < i {
                assert(segment(r@, j) == segment(before, j));
            }
        }
        i = i + 1;
    }
    r
}

/// What merging a finished attempt yields.
pub struct Merge {
    /// The attempt is the new personal best.
    pub new_pb: bool,
    /// The rebuilt sum of best.
    pub sum_of_best: Vec<u32>,
}

impl RunState {
    /// Merges the finished attempt into the records: the personal-best decision and
    /// the rebuilt sum of best. The state itself is left as it is.
    pub fn finalize(&self) -> (r: Merge)
        requires
            self.wf(),
            self@.status == Status::Finished,
        ensures
            r.new_pb == beats_pb(self@.times, self@.pb),
            merged_sum_of_best(r.sum_of_best@, self@.times, self@.sum_of_best),
            non_decreasing(r.sum_of_best@),
    {
        let new_pb = is_new_pb(self.times(), self.pb());
        let sum_of_best = merge_sum_of_best(self.times(), self.sum_of_best());
        Merge { new_pb, sum_of_best }
    }
}

/// A finished attempt's cumulative times never decrease.
pub proof fn lemma_finished_run_monotone(m: RunModel)
    requires
        m.wf(),
        m.status == Status::Finished,
    ensures
        forall|i: int| 0 <= i < m.len() - 1 ==> m.times[i] <= #[trigger] m.times[i + 1],
{
}

/// A rebuilt sum of best has no segment longer than the one it replaces, so over
/// successive attempts each segment of the sum of best can only shrink.
pub proof fn lemma_sum_of_best_never_increases(new: Seq<u32>, run: Seq<u32>, old: Seq<u32>)
    requires
        merged_sum_of_best(new, run, Some(old)),
    ensures
        forall|i: int| 0 <= i < run.len() ==> #[trigger] segment(new, i) <= segment(old, i),
{
    assert forall|i: int| 0 <= i < run.len() implies #[trigger] segment(new, i) <= segment(old, i) by {
        assert(segment(new, i) == best_segment(run, Some(old), i));
    }
}

/// With no earlier sum of best, the first finished attempt becomes the sum of best as it is.
pub proof fn lemma_first_sum_of_best_is_run(new: Seq<u32>, run: Seq<u32>)
    requires
        merged_sum_of_best(new, run, None),
    ensures
        new == run,
{
    assert forall|i: int| 0 <= i < run.len() implies new[i] == run[i] by {
        lemma_prefix_sums_agree(new, run, i);
    }
    assert(new =~= run);
}

proof fn lemma_prefix_sums_agree(a: Seq<u32>, b: Seq<u32>, i: int)
    requires
        a.len() == b.len(),
        0 <= i < a.len(),
        forall|j: int| 0 <= j < a.len() ==> #[trigger] segment(a, j) == segment(b, j),
    ensures
        a[i] == b[i],
    decreases i,
{
    if i > 0 {
        lemma_prefix_sums_agree(a, b, i - 1);
        assert(segment(a, i) == segment(b, i));
    } else {
        assert(segment(a, 0) == segment(b, 0));
    }
}

impl RunState {
    /// Closes a finished attempt: merges it into the records, installs the new
    /// personal best (when it is one) and the rebuilt sum of best, and goes back to idle.
    pub fn start_over(&mut self) -> (r: Merge)
        requires
            old(self).wf(),
            old(self)@.status == Status::Finished,
        ensures
            final(self).wf(),
            r.new_pb == beats_pb(old(self)@.times, old(self)@.pb),
            merged_sum_of_best(r.sum_of_best@, old(self)@.times, old(self)@.sum_of_best),
            final(self)@ == (RunModel {
                pb: if r.new_pb { Some(old(self)@.times) } else { old(self)@.pb },
                sum_of_best: Some(r.sum_of_best@),
                times: Seq::empty(),
                live: 0,
                status: Status::Idle,
                ..old(self)@
            }),
    {
        let merge = self.finalize();
        self.install(&merge);
        merge
    }
}

} // verus!
