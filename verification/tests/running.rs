use fenmov::mover::MoveError;
use fenmov::run::MoveRun;

fn failure(index: usize) -> Result<(), MoveError> {
    Err(MoveError { path: format!("/src/file{}", index), reason: "permission denied".to_string() })
}

/// Drives a run to its end, with `outcomes[i]` saying whether file `i` can
/// be moved, and returns the run and the files that were tried, in order.
fn drive(outcomes: &[bool], skip_error: bool) -> (MoveRun, Vec<usize>) {
    let mut run = MoveRun::new(outcomes.len(), skip_error);
    let mut tried: Vec<usize> = Vec::new();
    while let Some(index) = run.next() {
        tried.push(index);
        let outcome = if outcomes[index] { Ok(()) } else { failure(index) };
        run.record(&outcome);
    }
    (run, tried)
}

#[test]
fn a_failure_stops_the_run_unless_skipped() {
    let (run, tried) = drive(&[true, false, true, true, true], false);
    assert_eq!(tried, vec![0, 1]);
    assert_eq!(run.moved(), 1);
    assert_eq!(run.attempted(), 2);
    assert!(run.stopped_early());
    assert_eq!(run.next(), None);
}

#[test]
fn a_skipped_failure_lets_the_run_go_on() {
    let (run, tried) = drive(&[true, false, true, true, true], true);
    assert_eq!(tried, vec![0, 1, 2, 3, 4]);
    assert_eq!(run.moved(), 4);
    assert_eq!(run.attempted(), 5);
    assert!(!run.stopped_early());
    assert_eq!(run.next(), None);
}

#[test]
fn a_run_without_failure_moves_every_file() {
    for skip_error in [false, true] {
        let (run, tried) = drive(&[true, true, true], skip_error);
        assert_eq!(tried, vec![0, 1, 2]);
        assert_eq!(run.moved(), 3);
        assert_eq!(run.attempted(), 3);
        assert!(!run.stopped_early());
    }
}

#[test]
fn a_run_over_no_files_is_over_at_once() {
    for skip_error in [false, true] {
        let mut run = MoveRun::new(0, skip_error);
        assert_eq!(run.next(), None);
        run.record(&Ok(()));
        assert_eq!(run.moved(), 0);
        assert_eq!(run.attempted(), 0);
        assert!(!run.stopped_early());
    }
}

#[test]
fn a_new_run_starts_with_the_first_file() {
    let run = MoveRun::new(4, true);
    assert_eq!(run.next(), Some(0));
    assert_eq!(run.total(), 4);
    assert!(run.skip_error());
    assert_eq!(run.moved(), 0);
    assert_eq!(run.attempted(), 0);
    assert!(!MoveRun::new(4, false).skip_error());
}

#[test]
fn a_failure_on_the_first_file_moves_nothing() {
    let (run, tried) = drive(&[false, true, true], false);
    assert_eq!(tried, vec![0]);
    assert_eq!(run.moved(), 0);
    assert!(run.stopped_early());
}

#[test]
fn a_failure_on_the_last_file_still_stops_the_run() {
    let (run, tried) = drive(&[true, true, false], false);
    assert_eq!(tried, vec![0, 1, 2]);
    assert_eq!(run.moved(), 2);
    assert_eq!(run.attempted(), 3);
    assert!(run.stopped_early());
}

#[test]
fn every_failure_skipped_moves_nothing_and_tries_all() {
    let (run, tried) = drive(&[false, false, false, false], true);
    assert_eq!(tried, vec![0, 1, 2, 3]);
    assert_eq!(run.moved(), 0);
    assert_eq!(run.attempted(), 4);
    assert!(!run.stopped_early());
}

#[test]
fn a_stopped_run_takes_no_further_note() {
    let mut run = MoveRun::new(3, false);
    run.record(&failure(0));
    let stopped = run;
    run.record(&Ok(()));
    run.record(&Ok(()));
    assert_eq!(run, stopped);
    assert_eq!(run.moved(), 0);
    assert_eq!(run.attempted(), 1);
}

#[test]
fn the_count_is_the_number_of_successes_among_the_tried() {
    for bits in 0u32..64 {
        let outcomes: Vec<bool> = (0..6).map(|i| bits & (1 << i) != 0).collect();
        for skip_error in [false, true] {
            let (run, tried) = drive(&outcomes, skip_error);
            let expected = tried.iter().filter(|index| outcomes[**index]).count();
            assert_eq!(run.moved(), expected);
            assert_eq!(run.attempted(), tried.len());
            let first_failure = outcomes.iter().position(|moved| !moved);
            match (skip_error, first_failure) {
                (false, Some(at)) => assert_eq!(tried.len(), at + 1),
                _ => assert_eq!(tried.len(), outcomes.len()),
            }
        }
    }
}
