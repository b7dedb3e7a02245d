//! Stored records: a time for each named section, and how they are checked
//! against a game's section sequence.
use vstd::prelude::*;

verus! {

#[derive(Clone, Debug)]
/// One section of a stored record: its name and the time from the start of the
/// run to the moment it was reached, in milliseconds.
pub struct Section {
    pub name: String,
    pub time: u32,
}

/// Why a stored record cannot be used.
#[derive(PartialEq, Eq, Structural, Clone, Copy, Debug)]
pub enum RecordError {
    /// The game has no sections.
    NoSections,
    /// The record's section names differ from the game's, in number or at an index.
    ConfigMismatch,
    /// The record's times decrease somewhere.
    Unordered,
    /// The line at this index (from zero) of a stored record is not a section line.
    InvalidLine(usize),
}

/// The views of a sequence of names.
pub open spec fn names_view(names: Seq<String>) -> Seq<Seq<char>> {
    names.map_values(|s: String| s@)
}

/// The names of a record's sections.
pub open spec fn record_names(record: Seq<Section>) -> Seq<Seq<char>> {
    record.map_values(|s: Section| s.name@)
}

/// The times of a record's sections.
pub open spec fn record_times(record: Seq<Section>) -> Seq<u32> {
    record.map_values(|s: Section| s.time)
}

/// No time is larger than a later one.
pub open spec fn non_decreasing(t: Seq<u32>) -> bool {
    forall|i: int, j: int| 0 <= i <= j < t.len() ==> t[i] <= t[j]
}

/// What checking `record` against the section sequence `names` finds wrong, if anything.
pub open spec fn record_problem(names: Seq<Seq<char>>, record: Seq<Section>) -> Option<RecordError> {
    if record_names(record) != names {
        Some(RecordError::ConfigMismatch)
    } else if !non_decreasing(record_times(record)) {
        Some(RecordError::Unordered)
    } else {
        None
    }
}

/// Checks a stored record against the game's section sequence and returns its times.
pub fn check_record(names: &Vec<String>, record: &Vec<Section>) -> (r: Result<Vec<u32>, RecordError>)
    ensures
        match record_problem(names_view(names@), record@) {
            Some(e) => r == Err::<Vec<u32>, RecordError>(e),
            None => r is Ok && r->Ok_0@ == record_times(record@),
        },
{
    if names.len() != record.len() {
        assert(record_names(record@).len() != names_view(names@).len());
        return Err(RecordError::ConfigMismatch);
    }
    let mut i: usize = 0;
    while i < names.len()
        invariant
            names.len() == record.len(),
            i <= names.len(),
            forall|j: int| 0 <= j < i ==> names@[j]@ == record@[j].name@,
        decreases names.len() - i,
    {
        if names[i] != record[i].name {
            assert(record_names(record@)[i as int] != names_view(names@)[i as int]);
            return Err(RecordError::ConfigMismatch);
        }
        i = i + 1;
    }
    assert(record_names(record@) =~= names_view(names@));
    let mut times: Vec<u32> = Vec::new();
    let mut i: usize = 0;
    while i < record.len()
        invariant
            i <= record.len(),
            times@ =~= record_times(record@).subrange(0, i as int),
            non_decreasing(times@),
            record_names(record@) == names_view(names@),
        decreases record.len() - i,
    {
        if i > 0 && record[i].time < record[i - 1].time {
            let ghost t = record_times(record@);
            assert(t[i - 1] == record@[i - 1].time);
            assert(t[i as int] == record@[i as int].time);
            assert(!(t[i - 1] <= t[i as int]));
            return Err(RecordError::Unordered);
        }
        if i > 0 {
            assert(times@[i - 1] == record_times(record@)[i - 1]);
        }
        assert(forall|j: int| 0 <= j < i ==> #[trigger] times@[j] <= record@[i as int].time);
        times.push(record[i].time);
        i = i + 1;
    }
    assert(times@ =~= record_times(record@));
    Ok(times)
}

/// Pairs each name with the time at the same index.
pub fn make_record(names: &Vec<String>, times: &Vec<u32>) -> (r: Vec<Section>)
    requires
        names.len() == times.len(),
    ensures
        record_names(r@) == names_view(names@),
        record_times(r@) == times@,
{
    let mut r: Vec<Section> = Vec::new();
    let mut i: usize = 0;
    while i < names.len()
        invariant
            names.len() == times.len(),
            i <= names.len(),
            r.len() == i,
            record_names(r@) =~= names_view(names@).subrange(0, i as int),
            record_times(r@) =~= times@.subrange(0, i as int),
        decreases names.len() - i,
    {
        let ghost before = r@;
        r.push(Section { name: names[i].clone(), time: times[i] });
        assert(r@ == before.push(r@[i as int]));
        assert(record_names(r@) =~= record_names(before).push(names@[i as int]@));
        assert(record_times(r@) =~= record_times(before).push(times@[i as int]));
        i = i + 1;
    }
    assert(record_names(r@) =~= names_view(names@));
    assert(record_times(r@) =~= times@);
    r
}

} // verus!
