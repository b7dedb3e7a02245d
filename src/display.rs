//! What each section's row shows: personal best, current total and segment, their
//! deltas against the personal best, and projections from the sum of best.
use vstd::prelude::*;
use crate::merge::segment;
use crate::record::non_decreasing;
use crate::run::{RunModel, RunState, Status};
use crate::time_text::{delta_text, push_time, time_text, format_delta, format_time};

verus! {

/// How a cell is to be shown.
#[derive(PartialEq, Eq, Structural, Clone, Copy, Debug)]
pub enum Tone {
    /// An ordinary value.
    Plain,
    /// A projection from the sum of best, not a measured value.
    Projected,
    /// A segment faster than the sum of best's.
    Gold,
    /// A delta that is ahead of the personal best.
    Ahead,
    /// A delta that is level with or behind the personal best.
    Behind,
}

/// One cell of a section's row.
pub struct Cell {
    pub text: String,
    pub tone: Tone,
}

impl View for Cell {
    type V = (Seq<char>, Tone);

    open spec fn view(&self) -> (Seq<char>, Tone) {
        (self.text@, self.tone)
    }
}

/// The cells of one section's row.
pub struct Row {
    pub pb: Cell,
    pub total: Cell,
    pub total_delta: Cell,
    pub section: Cell,
    pub section_delta: Cell,
}

/// The text of a value that is absent: blank where the section is not reached yet,
/// dashes where it should have had one.
pub open spec fn absent_text(reached: bool, delta: bool) -> Seq<char> {
    if !reached {
        Seq::empty()
    } else if delta {
        seq!['(', '-', '-', ':', '-', '-', ')']
    } else {
        seq!['-', '-', ':', '-', '-']
    }
}

/// The deficit against the sum of best carried over the first `k` committed sections:
/// it starts at zero and rises to a section's deficit whenever that exceeds it.
pub open spec fn loss_upto(times: Seq<u32>, sob: Seq<u32>, k: int) -> int
    decreases k,
{
    if k <= 0 {
        0
    } else {
        let carried = loss_upto(times, sob, k - 1);
        let deficit = times[k - 1] - sob[k - 1];
        if deficit > carried {
            deficit
        } else {
            carried
        }
    }
}

/// The loss so far of a state: over its committed sections, zero without a sum of best.
pub open spec fn loss(m: RunModel) -> int {
    match m.sum_of_best {
        Some(s) => loss_upto(m.times, s, m.times.len() as int),
        None => 0,
    }
}

/// Section `i` is the one being timed.
pub open spec fn is_live(m: RunModel, i: int) -> bool {
    m.status == Status::Running && i == m.times.len()
}

/// The current segment of section `i`, given its cumulative time `c`.
pub open spec fn current_segment(m: RunModel, i: int, c: u32) -> int {
    if i == 0 {
        c as int
    } else {
        c - m.times[i - 1]
    }
}

/// The projected cumulative time of section `i` from the sum of best `s`.
pub open spec fn projected(m: RunModel, s: Seq<u32>, i: int) -> nat {
    (s[i] + loss(m)) as nat
}

/// The personal best's cumulative time of section `i`.
pub open spec fn pb_cell_spec(m: RunModel, i: int) -> (Seq<char>, Tone) {
    match m.pb {
        Some(p) => (time_text(p[i] as nat), Tone::Plain),
        None => (absent_text(i < m.current_index(), false), Tone::Plain),
    }
}

/// The current cumulative time of section `i`; for a section without one, the sum of
/// best's time raised by the loss so far.
pub open spec fn total_cell_spec(m: RunModel, i: int) -> (Seq<char>, Tone) {
    match (m.cumulative(i), m.sum_of_best) {
        (Some(c), _) => (time_text(c as nat), Tone::Plain),
        (None, Some(s)) => (time_text(projected(m, s, i)), Tone::Projected),
        (None, None) => (absent_text(i < m.current_index(), false), Tone::Plain),
    }
}

/// The tone of a delta: ahead when negative, behind otherwise.
pub open spec fn delta_tone(d: int) -> Tone {
    if d < 0 {
        Tone::Ahead
    } else {
        Tone::Behind
    }
}

/// The current cumulative time of section `i` less the personal best's; for the live
/// section still under its projection, that projection instead.
pub open spec fn total_delta_cell_spec(m: RunModel, i: int) -> (Seq<char>, Tone) {
    match (m.cumulative(i), m.pb) {
        (Some(c), Some(p)) => match m.sum_of_best {
            Some(s) if is_live(m, i) && c < projected(m, s, i) => (
                seq!['/'] + time_text(projected(m, s, i)),
                Tone::Projected,
            ),
            _ => (delta_text(c - p[i]), delta_tone(c - p[i])),
        },
        _ => (absent_text(i < m.current_index(), true), Tone::Plain),
    }
}

/// The current segment of section `i`, gold when under the sum of best's; for a section
/// without one, the sum of best's segment.
pub open spec fn section_cell_spec(m: RunModel, i: int) -> (Seq<char>, Tone) {
    match (m.cumulative(i), m.sum_of_best) {
        (Some(c), Some(s)) => (
            time_text(current_segment(m, i, c) as nat),
            if current_segment(m, i, c) < segment(s, i) { Tone::Gold } else { Tone::Plain },
        ),
        (Some(c), None) => (time_text(current_segment(m, i, c) as nat), Tone::Plain),
        (None, Some(s)) => (time_text(segment(s, i) as nat), Tone::Projected),
        (None, None) => (absent_text(i < m.current_index(), false), Tone::Plain),
    }
}

/// The current segment of section `i` less the personal best's; for the live section
/// still under the sum of best's segment, that segment instead.
pub open spec fn section_delta_cell_spec(m: RunModel, i: int) -> (Seq<char>, Tone) {
    match (m.cumulative(i), m.pb) {
        (Some(c), Some(p)) => match m.sum_of_best {
            Some(s) if is_live(m, i) && current_segment(m, i, c) < segment(s, i) => (
                seq!['/'] + time_text(segment(s, i) as nat),
                Tone::Projected,
            ),
            _ => (
                delta_text(current_segment(m, i, c) - segment(p, i)),
                delta_tone(current_segment(m, i, c) - segment(p, i)),
            ),
        },
        _ => (absent_text(i < m.current_index(), true), Tone::Plain),
    }
}

proof fn lemma_loss_bounds(times: Seq<u32>, sob: Seq<u32>, k: int)
    requires
        0 <= k <= times.len(),
        k <= sob.len(),
    ensures
        0 <= loss_upto(times, sob, k) <= u32::MAX,
    decreases k,
{
    if k > 0 {
        lemma_loss_bounds(times, sob, k - 1);
    }
}

fn absent(reached: bool, delta: bool) -> (r: Cell)
    ensures
        r@ == (absent_text(reached, delta), Tone::Plain),
{
    proof {
        reveal_strlit("(--:--)");
        reveal_strlit("--:--");
    }
    let text = if !reached {
        String::new()
    } else if delta {
        String::from_str("(--:--)")
    } else {
        String::from_str("--:--")
    };
    assert(text@ =~= absent_text(reached, delta));
    Cell { text, tone: Tone::Plain }
}

fn projection(ms: u64) -> (r: Cell)
    ensures
        r@ == (seq!['/'] + time_text(ms as nat), Tone::Projected),
{
    proof {
        reveal_strlit("/");
    }
    let mut text = String::new();
    text.append("/");
    push_time(&mut text, ms);
    assert(text@ =~= seq!['/'] + time_text(ms as nat));
    Cell { text, tone: Tone::Projected }
}

fn delta_cell(d: i64) -> (r: Cell)
    ensures
        r@ == (delta_text(d as int), delta_tone(d as int)),
{
    Cell { text: format_delta(d), tone: if d < 0 { Tone::Ahead } else { Tone::Behind } }
}

/// The segment at `i` of a record with non-decreasing times.
fn record_segment(c: &Vec<u32>, i: usize) -> (r: u32)
    requires
        i < c.len(),
        non_decreasing(c@),
    ensures
        r == segment(c@, i as int),
{
    if i == 0 {
        c[0]
    } else {
        c[i] - c[i - 1]
    }
}

impl RunState {
    /// The deficit against the sum of best carried over the committed sections.
    pub fn loss_so_far(&self) -> (r: u32)
        requires
            self.wf(),
        ensures
            r == loss(self@),
    {
        match self.sum_of_best() {
            None => 0,
            Some(s) => {
                let times = self.times();
                let mut carried: u32 = 0;
                let mut k: usize = 0;
                while k < times.len()
                    invariant
                        self.wf(),
                        times@ == self@.times,
                        s@.len() == self@.len(),
                        k <= times.len(),
                        carried == loss_upto(times@, s@, k as int),
                    decreases times.len() - k,
                {
                    proof {
                        lemma_loss_bounds(times@, s@, k as int);
                    }
                    if times[k] > s[k] && times[k] - s[k] > carried {
                        carried = times[k] - s[k];
                    }
                    k = k + 1;
                }
                carried
            },
        }
    }

    /// The cumulative time shown for section `i`: committed, live, or absent.
    pub fn cumulative(&self, i: usize) -> (r: Option<u32>)
        requires
            self.wf(),
        ensures
            r == self@.cumulative(i as int),
    {
        let k = self.current_index();
        if i < k {
            Some(self.times()[i])
        } else if i == k && self.status() == Status::Running {
            Some(self.live())
        } else {
            None
        }
    }

    /// The current segment of section `i`, given its cumulative time `c`.
    fn segment_of(&self, i: usize, c: u32) -> (r: u32)
        requires
            self.wf(),
            self@.cumulative(i as int) == Some(c),
        ensures
            r == current_segment(self@, i as int, c),
    {
        if i == 0 {
            c
        } else {
            c - self.times()[i - 1]
        }
    }

    /// The personal best's time for section `i`.
    pub fn pb_cell(&self, i: usize) -> (r: Cell)
        requires
            self.wf(),
            i < self@.len(),
        ensures
            r@ == pb_cell_spec(self@, i as int),
    {
        match self.pb() {
            Some(p) => Cell { text: format_time(p[i] as u64), tone: Tone::Plain },
            None => absent(i < self.current_index(), false),
        }
    }

    /// The current cumulative time of section `i`, or its projection from the sum of best.
    pub fn total_cell(&self, i: usize) -> (r: Cell)
        requires
            self.wf(),
            i < self@.len(),
        ensures
            r@ == total_cell_spec(self@, i as int),
    {
        match self.cumulative(i) {
            Some(c) => Cell { text: format_time(c as u64), tone: Tone::Plain },
            None => match self.sum_of_best() {
                Some(s) => Cell {
                    text: format_time(s[i] as u64 + self.loss_so_far() as u64),
                    tone: Tone::Projected,
                },
                None => absent(i < self.current_index(), false),
            },
        }
    }

    /// The delta of section `i`'s cumulative time against the personal best's.
    pub fn total_delta_cell(&self, i: usize) -> (r: Cell)
        requires
            self.wf(),
            i < self@.len(),
        ensures
            r@ == total_delta_cell_spec(self@, i as int),
    {
        match (self.cumulative(i), self.pb()) {
            (Some(c), Some(p)) => {
                if let Some(s) = self.sum_of_best() {
                    let proj = s[i] as u64 + self.loss_so_far() as u64;
                    if i == self.current_index() && self.status() == Status::Running && (c as u64) < proj {
                        return projection(proj);
                    }
                }
                delta_cell(c as i64 - p[i] as i64)
            },
            _ => absent(i < self.current_index(), true),
        }
    }

    /// The current segment of section `i`, or the sum of best's where there is none.
    pub fn section_cell(&self, i: usize) -> (r: Cell)
        requires
            self.wf(),
            i < self@.len(),
        ensures
            r@ == section_cell_spec(self@, i as int),
    {
        match (self.cumulative(i), self.sum_of_best()) {
            (Some(c), Some(s)) => {
                let seg = self.segment_of(i, c);
                let best = record_segment(s, i);
                Cell { text: format_time(seg as u64), tone: if seg < best { Tone::Gold } else { Tone::Plain } }
            },
            (Some(c), None) => Cell { text: format_time(self.segment_of(i, c) as u64), tone: Tone::Plain },
            (None, Some(s)) => Cell { text: format_time(record_segment(s, i) as u64), tone: Tone::Projected },
            (None, None) => absent(i < self.current_index(), false),
        }
    }

    /// The delta of section `i`'s segment against the personal best's.
    pub fn section_delta_cell(&self, i: usize) -> (r: Cell)
        requires
            self.wf(),
            i < self@.len(),
        ensures
            r@ == section_delta_cell_spec(self@, i as int),
    {
        match (self.cumulative(i), self.pb()) {
            (Some(c), Some(p)) => {
                let seg = self.segment_of(i, c);
                if let Some(s) = self.sum_of_best() {
                    let best = record_segment(s, i);
                    if i == self.current_index() && self.status() == Status::Running && seg < best {
                        return projection(best as u64);
                    }
                }
                delta_cell(seg as i64 - record_segment(p, i) as i64)
            },
            _ => absent(i < self.current_index(), true),
        }
    }

    /// Every cell of section `i`'s row.
    pub fn row(&self, i: usize) -> (r: Row)
        requires
            self.wf(),
            i < self@.len(),
        ensures
            r.pb@ == pb_cell_spec(self@, i as int),
            r.total@ == total_cell_spec(self@, i as int),
            r.total_delta@ == total_delta_cell_spec(self@, i as int),
            r.section@ == section_cell_spec(self@, i as int),
            r.section_delta@ == section_delta_cell_spec(self@, i as int),
    {
        Row {
            pb: self.pb_cell(i),
            total: self.total_cell(i),
            total_delta: self.total_delta_cell(i),
            section: self.section_cell(i),
            section_delta: self.section_delta_cell(i),
        }
    }
}

} // verus!
