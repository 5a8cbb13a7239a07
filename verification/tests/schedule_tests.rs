use reflac::schedule::{Action, Scheduler};

fn run(total: usize, units: usize) -> Vec<Action> {
    let mut s = Scheduler::new(total, units);
    let mut seen = Vec::new();
    loop {
        let action = s.next();
        seen.push(action);
        match action {
            Action::Launch(_) => s.launched(),
            Action::Wait(_) => s.exited(true),
            Action::Finish | Action::Abort => return seen,
        }
        assert!(seen.len() <= 2 * total + 1);
    }
}

#[test]
fn window_is_filled_then_kept() {
    assert_eq!(
        run(5, 3),
        vec![
            Action::Launch(0),
            Action::Launch(1),
            Action::Launch(2),
            Action::Wait(0),
            Action::Launch(3),
            Action::Wait(1),
            Action::Launch(4),
            Action::Wait(2),
            Action::Wait(3),
            Action::Wait(4),
            Action::Finish,
        ]
    );
}

#[test]
fn one_unit_runs_one_job_at_a_time() {
    assert_eq!(
        run(3, 1),
        vec![
            Action::Launch(0),
            Action::Wait(0),
            Action::Launch(1),
            Action::Wait(1),
            Action::Launch(2),
            Action::Wait(2),
            Action::Finish,
        ]
    );
}

#[test]
fn more_units_than_jobs_launch_all_at_once() {
    assert_eq!(
        run(2, 8),
        vec![
            Action::Launch(0),
            Action::Launch(1),
            Action::Wait(0),
            Action::Wait(1),
            Action::Finish,
        ]
    );
}

#[test]
fn no_jobs_finish_at_once() {
    assert_eq!(run(0, 4), vec![Action::Finish]);
    assert_eq!(run(0, 0), vec![Action::Finish]);
}

#[test]
fn no_units_count_as_one() {
    assert_eq!(
        run(2, 0),
        vec![
            Action::Launch(0),
            Action::Wait(0),
            Action::Launch(1),
            Action::Wait(1),
            Action::Finish,
        ]
    );
}

#[test]
fn capacity_is_the_smaller_of_jobs_and_units() {
    assert_eq!(Scheduler::new(5, 3).progress().capacity, 3);
    assert_eq!(Scheduler::new(2, 3).progress().capacity, 2);
    assert_eq!(Scheduler::new(0, 3).progress().capacity, 1);
}

#[test]
fn jobs_in_flight_stay_within_the_capacity() {
    let mut s = Scheduler::new(20, 4);
    loop {
        let p = s.progress();
        assert!(p.launched - p.reaped <= 4);
        match s.next() {
            Action::Launch(k) => {
                assert_eq!(k, p.launched);
                s.launched();
            }
            Action::Wait(k) => {
                assert_eq!(k, p.reaped);
                s.exited(true);
            }
            Action::Finish => break,
            Action::Abort => panic!("no job failed"),
        }
    }
    assert_eq!(s.progress().reaped, 20);
}

#[test]
fn failed_job_aborts_the_run() {
    let mut s = Scheduler::new(4, 2);
    assert_eq!(s.next(), Action::Launch(0));
    s.launched();
    assert_eq!(s.next(), Action::Launch(1));
    s.launched();
    assert_eq!(s.next(), Action::Wait(0));
    s.exited(false);
    assert_eq!(s.next(), Action::Abort);
    s.launched();
    s.exited(true);
    assert_eq!(s.next(), Action::Abort);
    assert_eq!(s.progress().launched, 2);
    assert_eq!(s.progress().reaped, 0);
    assert!(s.progress().failed);
}

#[test]
fn failure_to_launch_aborts_the_run() {
    let mut s = Scheduler::new(4, 2);
    s.launched();
    s.fail();
    assert_eq!(s.next(), Action::Abort);
}

#[test]
fn events_that_are_not_due_change_nothing() {
    let mut s = Scheduler::new(2, 1);
    s.exited(true);
    assert_eq!(s.progress().reaped, 0);
    assert_eq!(s.next(), Action::Launch(0));
    s.launched();
    s.launched();
    assert_eq!(s.progress().launched, 1);
    assert_eq!(s.next(), Action::Wait(0));
}

#[test]
fn job_succeeds_only_where_decoder_and_encoder_do() {
    for (decoder, encoder) in [(false, true), (true, false), (false, false)] {
        let mut s = Scheduler::new(2, 1);
        s.launched();
        s.job_exited(decoder, encoder);
        assert_eq!(s.next(), Action::Abort);
        assert_eq!(s.progress().reaped, 0);
    }
    let mut s = Scheduler::new(2, 1);
    s.launched();
    s.job_exited(true, true);
    assert_eq!(s.next(), Action::Launch(1));
    assert_eq!(s.progress().reaped, 1);
}
