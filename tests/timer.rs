use speedy::display::Tone;
use speedy::merge::{is_new_pb, merge_sum_of_best};
use speedy::record::{check_record, make_record, RecordError, Section};
use speedy::run::{Outcome, RunState, Status};

fn names(list: &[&str]) -> Vec<String> {
    list.iter().map(|s| s.to_string()).collect()
}

fn record(list: &[(&str, u32)]) -> Vec<Section> {
    list.iter().map(|(n, t)| Section { name: n.to_string(), time: *t }).collect()
}

fn abc(pb: Option<&[u32]>, sob: Option<&[u32]>) -> RunState {
    let n = names(&["A", "B", "C"]);
    let pb = pb.map(|t| make_record(&n, &t.to_vec()));
    let sob = sob.map(|t| make_record(&n, &t.to_vec()));
    RunState::new(n, pb, sob).unwrap()
}

#[test]
fn first_run_becomes_pb_and_sum_of_best() {
    let mut s = abc(None, None);
    assert_eq!(s.status(), Status::Idle);
    assert_eq!(s.advance(0), Outcome::Started);
    assert_eq!(s.advance(10000), Outcome::Split);
    assert_eq!(s.advance(22000), Outcome::Split);
    assert_eq!(s.advance(31000), Outcome::Finished);
    assert_eq!(s.status(), Status::Finished);
    let m = s.finalize();
    assert!(m.new_pb);
    assert_eq!(m.sum_of_best, vec![10000, 22000, 31000]);
}

#[test]
fn faster_run_improves_sum_of_best_and_pb() {
    let mut s = abc(Some(&[10000, 25000, 40000]), Some(&[9000, 23000, 38000]));
    s.advance(0);
    s.advance(9500);
    s.advance(23500);
    assert_eq!(s.advance(37000), Outcome::Finished);
    let m = s.finalize();
    assert!(m.new_pb);
    assert_eq!(m.sum_of_best, vec![9000, 23000, 36500]);
}

#[test]
fn split_after_finish_is_dropped() {
    let mut s = abc(None, None);
    s.advance(0);
    s.advance(1000);
    s.advance(2000);
    s.advance(3000);
    let before = s.times().clone();
    assert_eq!(s.advance(4000), Outcome::Ignored);
    assert_eq!(s.split(5000), Outcome::Ignored);
    assert_eq!(s.status(), Status::Finished);
    assert_eq!(s.times(), &before);
    assert!(!s.start());
    assert_eq!(s.times(), &before);
}

#[test]
fn tie_is_not_a_new_pb() {
    assert!(!is_new_pb(&vec![1000, 5000], &Some(vec![2000, 5000])));
    assert!(!is_new_pb(&vec![1000, 6000], &Some(vec![2000, 5000])));
    assert!(is_new_pb(&vec![1000, 4999], &Some(vec![2000, 5000])));
    assert!(is_new_pb(&vec![1000, 9000], &None));
}

#[test]
fn sum_of_best_takes_segment_minimum() {
    let run = vec![5000, 15000, 18000];
    let old = Some(vec![6000, 12000, 20000]);
    // segments: run 5000, 10000, 3000; old 6000, 6000, 8000
    assert_eq!(merge_sum_of_best(&run, &old), vec![5000, 11000, 14000]);
    assert_eq!(merge_sum_of_best(&run, &None), run);
}

#[test]
fn sum_of_best_never_grows_over_successive_runs() {
    let first = merge_sum_of_best(&vec![5000, 15000, 18000], &None);
    let second = merge_sum_of_best(&vec![7000, 12000, 30000], &Some(first.clone()));
    let seg = |c: &Vec<u32>, i: usize| if i == 0 { c[0] } else { c[i] - c[i - 1] };
    for i in 0..3 {
        assert!(seg(&second, i) <= seg(&first, i));
    }
    assert_eq!(second, vec![5000, 10000, 13000]);
}

#[test]
fn start_while_running_is_ignored() {
    let mut s = abc(None, None);
    assert!(s.start());
    s.split(1500);
    assert!(!s.start());
    assert_eq!(s.times(), &vec![1500]);
    assert_eq!(s.status(), Status::Running);
}

#[test]
fn split_while_idle_is_ignored() {
    let mut s = abc(None, None);
    assert_eq!(s.split(1500), Outcome::Ignored);
    assert_eq!(s.status(), Status::Idle);
    assert!(s.times().is_empty());
}

#[test]
fn live_refresh_commits_nothing() {
    let mut s = abc(None, None);
    s.advance(0);
    s.advance(4000);
    s.live_refresh(5000);
    s.live_refresh(6000);
    s.live_refresh(7000);
    assert_eq!(s.times(), &vec![4000]);
    assert_eq!(s.live(), 7000);
    assert_eq!(s.current_index(), 1);
    assert_eq!(s.cumulative(1), Some(7000));
    assert_eq!(s.cumulative(2), None);
}

#[test]
fn late_reading_is_raised_to_last_commit() {
    let mut s = abc(None, None);
    s.advance(0);
    s.advance(4000);
    s.advance(3000);
    assert_eq!(s.times(), &vec![4000, 4000]);
    s.live_refresh(100);
    assert_eq!(s.live(), 4000);
}

#[test]
fn finished_run_is_monotone() {
    let mut s = abc(None, None);
    s.advance(0);
    s.advance(300);
    s.advance(200);
    s.advance(900);
    let t = s.times();
    assert!(t.windows(2).all(|w| w[0] <= w[1]));
}

#[test]
fn start_over_installs_records() {
    let mut s = abc(Some(&[10000, 25000, 40000]), Some(&[9000, 23000, 38000]));
    s.advance(0);
    s.advance(9500);
    s.advance(23500);
    s.advance(37000);
    let m = s.start_over();
    assert!(m.new_pb);
    assert_eq!(s.status(), Status::Idle);
    assert!(s.times().is_empty());
    assert_eq!(s.pb(), &Some(vec![9500, 23500, 37000]));
    assert_eq!(s.sum_of_best(), &Some(vec![9000, 23000, 36500]));
}

#[test]
fn slower_run_keeps_pb() {
    let mut s = abc(Some(&[10000, 25000, 40000]), Some(&[9000, 23000, 38000]));
    s.advance(0);
    s.advance(8000);
    s.advance(30000);
    s.advance(45000);
    let m = s.start_over();
    assert!(!m.new_pb);
    assert_eq!(s.pb(), &Some(vec![10000, 25000, 40000]));
    assert_eq!(s.sum_of_best(), &Some(vec![8000, 22000, 37000]));
}

#[test]
fn records_must_match_sections() {
    let n = names(&["A", "B", "C"]);
    assert_eq!(
        check_record(&n, &record(&[("A", 1), ("B", 2)])).err(),
        Some(RecordError::ConfigMismatch)
    );
    assert_eq!(
        check_record(&n, &record(&[("A", 1), ("X", 2), ("C", 3)])).err(),
        Some(RecordError::ConfigMismatch)
    );
    assert_eq!(
        check_record(&n, &record(&[("A", 1), ("B", 3), ("C", 2)])).err(),
        Some(RecordError::Unordered)
    );
    assert_eq!(check_record(&n, &record(&[("A", 1), ("B", 2), ("C", 2)])).ok(), Some(vec![1, 2, 2]));
}

#[test]
fn new_state_checks_records() {
    let bad = Some(record(&[("A", 1), ("C", 2), ("B", 3)]));
    assert_eq!(RunState::new(Vec::new(), None, None).err(), Some(RecordError::NoSections));
    assert_eq!(
        RunState::new(names(&["A", "B", "C"]), None, bad.clone()).err(),
        Some(RecordError::ConfigMismatch)
    );
    assert_eq!(
        RunState::new(names(&["A", "B", "C"]), bad, None).err(),
        Some(RecordError::ConfigMismatch)
    );
    let s = RunState::new(names(&["A", "B", "C"]), None, None).unwrap();
    assert_eq!(s.names(), &names(&["A", "B", "C"]));
    assert_eq!(s.pb(), &None);
}

#[test]
fn row_cells_against_records() {
    let mut s = abc(Some(&[10000, 25000, 40000]), Some(&[9000, 23000, 38000]));
    s.advance(0);
    s.advance(9500);
    s.live_refresh(20000);
    let r0 = s.row(0);
    assert_eq!(r0.pb.text, "0:10");
    assert_eq!(r0.total.text, "0:09");
    assert_eq!(r0.total_delta.text, "(-0:00)");
    assert_eq!(r0.total_delta.tone, Tone::Ahead);
    assert_eq!(r0.section.text, "0:09");
    assert_eq!(r0.section.tone, Tone::Plain);
    assert_eq!(r0.section_delta.text, "(-0:00)");
    // the live section: 10500 of segment, under the best 14000
    let r1 = s.row(1);
    assert_eq!(r1.total.text, "0:20");
    assert_eq!(r1.total_delta.text, "/0:23");
    assert_eq!(r1.total_delta.tone, Tone::Projected);
    assert_eq!(r1.section.text, "0:10");
    assert_eq!(r1.section.tone, Tone::Gold);
    assert_eq!(r1.section_delta.text, "/0:14");
    // the unreached section: a projection with the loss so far (500)
    assert_eq!(s.loss_so_far(), 500);
    let r2 = s.row(2);
    assert_eq!(r2.total.text, "0:38");
    assert_eq!(r2.total.tone, Tone::Projected);
    assert_eq!(r2.total_delta.text, "");
    assert_eq!(r2.section.text, "0:15");
    assert_eq!(r2.section.tone, Tone::Projected);
    assert_eq!(r2.section_delta.text, "");
}

#[test]
fn row_cells_behind_pb() {
    let mut s = abc(Some(&[10000, 25000, 40000]), Some(&[9000, 23000, 38000]));
    s.advance(0);
    s.advance(12000);
    s.live_refresh(30000);
    let r0 = s.row(0);
    assert_eq!(r0.total_delta.text, "(+0:02)");
    assert_eq!(r0.total_delta.tone, Tone::Behind);
    let r1 = s.row(1);
    // 30000 is past the projection 23000 + 3000
    assert_eq!(r1.total_delta.text, "(+0:05)");
    assert_eq!(r1.section.text, "0:18");
    assert_eq!(r1.section.tone, Tone::Plain);
    assert_eq!(r1.section_delta.text, "(+0:03)");
    assert_eq!(s.loss_so_far(), 3000);
    assert_eq!(s.row(2).total.text, "0:41");
}

#[test]
fn row_cells_without_records() {
    let mut s = abc(None, None);
    let r = s.row(0);
    assert_eq!(r.pb.text, "");
    assert_eq!(r.total.text, "");
    s.advance(0);
    s.advance(65000);
    let r0 = s.row(0);
    assert_eq!(r0.pb.text, "--:--");
    assert_eq!(r0.total.text, "1:05");
    assert_eq!(r0.total_delta.text, "(--:--)");
    assert_eq!(r0.section.text, "1:05");
    assert_eq!(r0.section_delta.text, "(--:--)");
    let r2 = s.row(2);
    assert_eq!(r2.pb.text, "");
    assert_eq!(r2.total.text, "");
    assert_eq!(r2.section.text, "");
    assert_eq!(r2.section_delta.text, "");
}

#[test]
fn gold_segment_after_commit() {
    let mut s = abc(None, Some(&[9000, 23000, 38000]));
    s.advance(0);
    s.advance(8000);
    s.live_refresh(30000);
    assert_eq!(s.row(0).section.tone, Tone::Gold);
    assert_eq!(s.row(1).section.tone, Tone::Plain);
    assert_eq!(s.loss_so_far(), 0);
}

#[test]
fn loss_carry_does_not_drop() {
    let mut s = abc(None, Some(&[9000, 23000, 38000]));
    s.advance(0);
    s.advance(12000);
    s.advance(24000);
    // deficits 3000 then 1000: the carry stays at 3000
    assert_eq!(s.loss_so_far(), 3000);
    assert_eq!(s.total_cell(2).text, "0:24");
    assert_eq!(s.total_cell(2).tone, Tone::Plain);
}
