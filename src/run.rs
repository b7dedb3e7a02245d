//! The run state machine: which sections of the current attempt are done, when
//! each was reached, and the records it is compared against.
use vstd::prelude::*;
use crate::record::{
    check_record, names_view, non_decreasing, record_problem, record_times, RecordError, Section,
};

verus! {

/// Where an attempt stands.
#[derive(PartialEq, Eq, Structural, Clone, Copy, Debug)]
pub enum Status {
    /// No attempt is under way; the next advance starts one.
    Idle,
    /// Sections are being timed.
    Running,
    /// Every section has been split; further events are dropped.
    Finished,
}

/// What an event did.
#[derive(PartialEq, Eq, Structural, Clone, Copy, Debug)]
pub enum Outcome {
    /// The event does not apply in the current status and changed nothing.
    Ignored,
    /// A new attempt began: the clock is to be reset.
    Started,
    /// A section was committed and the next one is now timed.
    Split,
    /// The last section was committed: the attempt is complete.
    Finished,
}

/// The mathematical content of a [`RunState`].
pub struct RunModel {
    /// The game's section names, in order.
    pub names: Seq<Seq<char>>,
    /// Cumulative times of the personal best, if there is one.
    pub pb: Option<Seq<u32>>,
    /// Cumulative times of the sum of best segments, if there is one.
    pub sum_of_best: Option<Seq<u32>>,
    /// Committed cumulative times of the current attempt; its length is the current index.
    pub times: Seq<u32>,
    /// The provisional time of the section being timed (meaningful while running).
    pub live: u32,
    pub status: Status,
}

/// A stored record's times fit a sequence of `n` sections.
pub open spec fn record_fits(rec: Option<Seq<u32>>, n: nat) -> bool {
    match rec {
        Some(t) => t.len() == n && non_decreasing(t),
        None => true,
    }
}

/// The reading that a split or a refresh records: the elapsed time, raised to the
/// last committed time should it be below it, so that committed times never decrease.
pub open spec fn reading(times: Seq<u32>, elapsed: u32) -> u32 {
    if times.len() > 0 && elapsed < times.last() {
        times.last()
    } else {
        elapsed
    }
}

impl RunModel {
    pub open spec fn len(self) -> nat {
        self.names.len()
    }

    /// The index of the first section that is not committed.
    pub open spec fn current_index(self) -> nat {
        self.times.len()
    }

    pub open spec fn wf(self) -> bool {
        &&& self.len() > 0
        &&& record_fits(self.pb, self.len())
        &&& record_fits(self.sum_of_best, self.len())
        &&& self.times.len() <= self.len()
        &&& non_decreasing(self.times)
        &&& self.status == Status::Idle ==> self.times.len() == 0
        &&& self.status == Status::Running ==> {
            &&& self.times.len() < self.len()
            &&& self.times.len() > 0 ==> self.times.last() <= self.live
        }
        &&& self.status == Status::Finished ==> self.times.len() == self.len()
    }

    /// The cumulative time shown for section `i`: committed, live, or absent.
    pub open spec fn cumulative(self, i: int) -> Option<u32> {
        if 0 <= i < self.times.len() {
            Some(self.times[i])
        } else if i == self.times.len() && self.status == Status::Running {
            Some(self.live)
        } else {
            None
        }
    }
}

/// The attempt in progress together with the records it is compared against.
pub struct RunState {
    names: Vec<String>,
    pb: Option<Vec<u32>>,
    sum_of_best: Option<Vec<u32>>,
    times: Vec<u32>,
    live: u32,
    status: Status,
}

/// The times of a stored record, if there is one.
pub open spec fn record_view(rec: Option<Vec<u32>>) -> Option<Seq<u32>> {
    match rec {
        Some(v) => Some(v@),
        None => None,
    }
}

/// The first thing wrong with an optional stored record.
pub open spec fn optional_problem(names: Seq<Seq<char>>, rec: Option<Vec<Section>>) -> Option<RecordError> {
    match rec {
        Some(r) => record_problem(names, r@),
        None => None,
    }
}

/// The times of an optional stored record.
pub open spec fn optional_times(rec: Option<Vec<Section>>) -> Option<Seq<u32>> {
    match rec {
        Some(r) => Some(record_times(r@)),
        None => None,
    }
}

fn check_optional(names: &Vec<String>, rec: Option<Vec<Section>>) -> (r: Result<Option<Vec<u32>>, RecordError>)
    ensures
        match optional_problem(names_view(names@), rec) {
            Some(e) => r == Err::<Option<Vec<u32>>, RecordError>(e),
            None => r is Ok && record_view(r->Ok_0) == optional_times(rec),
        },
{
    match rec {
        Some(record) => {
            match check_record(names, &record) {
                Ok(t) => Ok(Some(t)),
                Err(e) => Err(e),
            }
        },
        None => Ok(None),
    }
}

impl View for RunState {
    type V = RunModel;

    closed spec fn view(&self) -> RunModel {
        RunModel {
            names: names_view(self.names@),
            pb: record_view(self.pb),
            sum_of_best: record_view(self.sum_of_best),
            times: self.times@,
            live: self.live,
            status: self.status,
        }
    }
}

impl RunState {
    pub open spec fn wf(&self) -> bool {
        self@.wf()
    }

    /// An idle state for a game with the section names `names`, checking the stored
    /// sum of best and then the personal best against them.
    pub fn new(names: Vec<String>, pb: Option<Vec<Section>>, sum_of_best: Option<Vec<Section>>) -> (r: Result<RunState, RecordError>)
        ensures
            names@.len() == 0 ==> r == Err::<RunState, RecordError>(RecordError::NoSections),
            names@.len() > 0 ==> match optional_problem(names_view(names@), sum_of_best) {
                Some(e) => r == Err::<RunState, RecordError>(e),
                None => match optional_problem(names_view(names@), pb) {
                    Some(e) => r == Err::<RunState, RecordError>(e),
                    None => r is Ok && r->Ok_0.wf() && r->Ok_0@ == (RunModel {
                        names: names_view(names@),
                        pb: optional_times(pb),
                        sum_of_best: optional_times(sum_of_best),
                        times: Seq::empty(),
                        live: 0,
                        status: Status::Idle,
                    }),
                },
            },
    {
        if names.len() == 0 {
            return Err(RecordError::NoSections);
        }
        let sum_of_best = match check_optional(&names, sum_of_best) {
            Ok(t) => t,
            Err(e) => return Err(e),
        };
        let pb = match check_optional(&names, pb) {
            Ok(t) => t,
            Err(e) => return Err(e),
        };
        let r = RunState { names, pb, sum_of_best, times: Vec::new(), live: 0, status: Status::Idle };
        assert(r@.times =~= Seq::<u32>::empty());
        Ok(r)
    }

    pub fn names(&self) -> (r: &Vec<String>)
        ensures
            names_view(r@) == self@.names,
    {
        &self.names
    }

    pub fn pb(&self) -> (r: &Option<Vec<u32>>)
        ensures
            record_view(*r) == self@.pb,
    {
        &self.pb
    }

    pub fn sum_of_best(&self) -> (r: &Option<Vec<u32>>)
        ensures
            record_view(*r) == self@.sum_of_best,
    {
        &self.sum_of_best
    }

    /// The committed cumulative times of the current attempt.
    pub fn times(&self) -> (r: &Vec<u32>)
        ensures
            r@ == self@.times,
    {
        &self.times
    }

    pub fn live(&self) -> (r: u32)
        ensures
            r == self@.live,
    {
        self.live
    }

    pub fn status(&self) -> (r: Status)
        ensures
            r == self@.status,
    {
        self.status
    }

    /// The index of the first section that is not committed.
    pub fn current_index(&self) -> (r: usize)
        ensures
            r == self@.current_index(),
    {
        self.times.len()
    }

    /// Replaces the records after an attempt and goes back to idle.
    pub(crate) fn install(&mut self, merge: &crate::merge::Merge)
        requires
            old(self).wf(),
            old(self)@.status == Status::Finished,
            merge.sum_of_best@.len() == old(self)@.len(),
            non_decreasing(merge.sum_of_best@),
        ensures
            final(self).wf(),
            final(self)@ == (RunModel {
                pb: if merge.new_pb { Some(old(self)@.times) } else { old(self)@.pb },
                sum_of_best: Some(merge.sum_of_best@),
                times: Seq::empty(),
                live: 0,
                status: Status::Idle,
                ..old(self)@
            }),
    {
        if merge.new_pb {
            self.pb = Some(self.times.clone());
        }
        self.sum_of_best = Some(merge.sum_of_best.clone());
        self.times = Vec::new();
        self.live = 0;
        self.status = Status::Idle;
        assert(self@.times =~= Seq::<u32>::empty());
    }

    /// Begins an attempt when idle; does nothing otherwise.
    pub fn start(&mut self) -> (r: bool)
        requires
            old(self).wf(),
        ensures
            final(self).wf(),
            r == (old(self)@.status == Status::Idle),
            r ==> final(self)@ == (RunModel { times: Seq::empty(), live: 0, status: Status::Running, ..old(self)@ }),
            !r ==> final(self)@ == old(self)@,
    {
        if self.status != Status::Idle {
            return false;
        }
        self.times = Vec::new();
        self.live = 0;
        self.status = Status::Running;
        assert(self@.times =~= Seq::<u32>::empty());
        true
    }

    /// Commits the section being timed at `elapsed` milliseconds (see [`reading`]);
    /// finishes the attempt after the last section. Does nothing unless running.
    pub fn split(&mut self, elapsed: u32) -> (r: Outcome)
        requires
            old(self).wf(),
        ensures
            final(self).wf(),
            old(self)@.status != Status::Running ==> r == Outcome::Ignored && final(self)@ == old(self)@,
            old(self)@.status == Status::Running ==> {
                let t = reading(old(self)@.times, elapsed);
                let times = old(self)@.times.push(t);
                let done = times.len() == old(self)@.len();
                &&& r == (if done { Outcome::Finished } else { Outcome::Split })
                &&& final(self)@ == (RunModel {
                    times,
                    live: t,
                    status: if done { Status::Finished } else { Status::Running },
                    ..old(self)@
                })
            },
    {
        if self.status != Status::Running {
            return Outcome::Ignored;
        }
        let t = self.reading(elapsed);
        self.times.push(t);
        self.live = t;
        if self.times.len() == self.names.len() {
            self.status = Status::Finished;
            Outcome::Finished
        } else {
            Outcome::Split
        }
    }

    fn reading(&self, elapsed: u32) -> (r: u32)
        ensures
            r == reading(self@.times, elapsed),
    {
        let n = self.times.len();
        if n > 0 && elapsed < self.times[n - 1] {
            self.times[n - 1]
        } else {
            elapsed
        }
    }

    /// Sets the provisional time of the section being timed; commits nothing.
    /// Does nothing unless running.
    pub fn live_refresh(&mut self, elapsed: u32)
        requires
            old(self).wf(),
        ensures
            final(self).wf(),
            old(self)@.status == Status::Running ==> final(self)@ == (RunModel {
                live: reading(old(self)@.times, elapsed),
                ..old(self)@
            }),
            old(self)@.status != Status::Running ==> final(self)@ == old(self)@,
            final(self)@.times == old(self)@.times,
            final(self)@.status == old(self)@.status,
    {
        if self.status == Status::Running {
            self.live = self.reading(elapsed);
        }
    }

    /// The one external trigger: starts an attempt when idle, splits when running,
    /// and is dropped when finished.
    pub fn advance(&mut self, elapsed: u32) -> (r: Outcome)
        requires
            old(self).wf(),
        ensures
            final(self).wf(),
            old(self)@.status == Status::Idle ==> r == Outcome::Started && final(self)@ == (RunModel {
                times: Seq::empty(),
                live: 0,
                status: Status::Running,
                ..old(self)@
            }),
            old(self)@.status == Status::Running ==> {
                let t = reading(old(self)@.times, elapsed);
                let times = old(self)@.times.push(t);
                let done = times.len() == old(self)@.len();
                &&& r == (if done { Outcome::Finished } else { Outcome::Split })
                &&& final(self)@ == (RunModel {
                    times,
                    live: t,
                    status: if done { Status::Finished } else { Status::Running },
                    ..old(self)@
                })
            },
            old(self)@.status == Status::Finished ==> r == Outcome::Ignored && final(self)@ == old(self)@,
    {
        if self.start() {
            Outcome::Started
        } else {
            self.split(elapsed)
        }
    }
}

} // verus!
