//! The order in which jobs are launched and waited for, with a bound on the
//! number of jobs that run at the same time.

use vstd::prelude::*;

verus! {

/// What the caller does next.
#[derive(Clone, Copy, PartialEq, Eq, Debug, Structural)]
pub enum Action {
    /// Launch the job at this place of the list, without waiting for it.
    Launch(usize),
    /// Wait for the job at this place, the oldest that still runs.
    Wait(usize),
    /// Every job has ended successfully.
    Finish,
    /// A job has failed: launch nothing more.
    Abort,
}

/// How far a run has come: jobs `0..launched` have been launched and jobs
/// `0..reaped` have been waited for.
#[derive(Clone, Copy, PartialEq, Eq, Debug, Structural)]
pub struct Progress {
    pub total: usize,
    pub capacity: usize,
    pub launched: usize,
    pub reaped: usize,
    pub failed: bool,
}

impl Progress {
    /// The state before the first job, for `total` jobs on `units` parallel
    /// units: as many jobs may run together as there are jobs or units,
    /// whichever is less, and at least one.
    pub open spec fn start(total: usize, units: usize) -> Progress {
        let least = if total < units {
            total
        } else {
            units
        };
        Progress {
            total,
            capacity: if least < 1 {
                1
            } else {
                least
            },
            launched: 0,
            reaped: 0,
            failed: false,
        }
    }

    /// The counts fit together, and no more jobs run than may.
    pub open spec fn wf(self) -> bool {
        &&& self.reaped <= self.launched <= self.total
        &&& 1 <= self.capacity
        &&& self.launched - self.reaped <= self.capacity
    }

    /// How many jobs have been launched and not yet waited for.
    pub open spec fn in_flight(self) -> int {
        self.launched - self.reaped
    }

    /// What to do next. After a failure: abort. While as many jobs run as
    /// may: wait for the oldest. While jobs are left: launch the next one.
    /// Then wait for those that still run, oldest first. Then finish.
    pub open spec fn next(self) -> Action {
        if self.failed {
            Action::Abort
        } else if self.in_flight() >= self.capacity {
            Action::Wait(self.reaped)
        } else if self.launched < self.total {
            Action::Launch(self.launched)
        } else if self.in_flight() > 0 {
            Action::Wait(self.reaped)
        } else {
            Action::Finish
        }
    }

    /// The state after the job that was to be launched has been launched.
    /// Where no launch was due, nothing changes.
    pub open spec fn after_launch(self) -> Progress {
        if self.next() is Launch {
            Progress { launched: (self.launched + 1) as usize, ..self }
        } else {
            self
        }
    }

    /// The state after the job that was waited for has ended. A job that
    /// ended without success fails the run. Where no wait was due, nothing
    /// changes.
    pub open spec fn after_exit(self, success: bool) -> Progress {
        if self.next() is Wait {
            if success {
                Progress { reaped: (self.reaped + 1) as usize, ..self }
            } else {
                Progress { failed: true, ..self }
            }
        } else {
            self
        }
    }

    /// The state after a failure outside the jobs' own exits.
    pub open spec fn after_failure(self) -> Progress {
        Progress { failed: true, ..self }
    }

    /// How many launches and waits are still to come in a run without
    /// failure.
    pub open spec fn steps_left(self) -> int {
        (self.total - self.launched) + (self.total - self.reaped)
    }
}

/// A run starts in a state that fits together, and every step keeps it so:
/// at no time do more jobs run than the capacity allows.
pub proof fn lemma_steps_keep_wf(p: Progress, total: usize, units: usize, success: bool)
    ensures
        Progress::start(total, units).wf(),
        p.wf() ==> p.after_launch().wf() && p.after_exit(success).wf() && p.after_failure().wf(),
{
}

/// Jobs are launched in the order of the list and waited for in that order:
/// the job to launch is the first that was not launched, the job to wait
/// for is the oldest that still runs.
pub proof fn lemma_in_list_order(p: Progress)
    requires
        p.wf(),
    ensures
        p.next() matches Action::Launch(k) ==> k == p.launched && k < p.total,
        p.next() matches Action::Wait(k) ==> k == p.reaped && k < p.launched,
{
}

/// After a failure nothing is launched any more: the action is to abort, and
/// no later event changes that.
pub proof fn lemma_failure_is_final(p: Progress, success: bool)
    requires
        p.failed,
    ensures
        p.next() == Action::Abort,
        p.after_launch() == p,
        p.after_exit(success) == p,
        p.after_failure() == p,
{
}

/// A job that ends without success fails the run at once.
pub proof fn lemma_failed_exit_aborts(p: Progress)
    requires
        p.next() is Wait,
    ensures
        p.after_exit(false).next() == Action::Abort,
{
}

/// The run finishes only when every job has been launched and waited for.
pub proof fn lemma_finish_means_all_done(p: Progress)
    requires
        p.wf(),
        p.next() == Action::Finish,
    ensures
        p.launched == p.total,
        p.reaped == p.total,
        !p.failed,
{
}

/// Without failure every launch and every successful wait brings the run one
/// step nearer to its end, and a run that is not at its end has a launch or
/// a wait due.
pub proof fn lemma_run_comes_to_an_end(p: Progress)
    requires
        p.wf(),
        !p.failed,
    ensures
        p.next() is Launch ==> p.after_launch().steps_left() == p.steps_left() - 1,
        p.next() is Wait ==> p.after_exit(true).steps_left() == p.steps_left() - 1,
        p.steps_left() > 0 ==> p.next() is Launch || p.next() is Wait,
        p.steps_left() >= 0,
{
}

/// The state of a run after `n` of its launches and waits, where every job
/// that is waited for has ended with success.
pub open spec fn after_steps(p: Progress, n: nat) -> Progress
    decreases n,
{
    if n == 0 {
        p
    } else {
        let before = after_steps(p, (n - 1) as nat);
        match before.next() {
            Action::Launch(_) => before.after_launch(),
            Action::Wait(_) => before.after_exit(true),
            _ => before,
        }
    }
}

/// The step at place `i` of the run of `total` jobs of which `capacity` may
/// run together. One job less than may run together is launched without a
/// wait. Then, while jobs are left, the next job is launched and the oldest
/// is waited for, in turn. Then the jobs that still run are waited for,
/// oldest first. The run ends after two steps for each job.
pub open spec fn protocol(total: int, capacity: int, i: int) -> Action {
    let fill = capacity - 1;
    let paired = 2 * (total - fill);
    if i < fill {
        Action::Launch(i as usize)
    } else if i < fill + paired {
        if (i - fill) % 2 == 0 {
            Action::Launch((fill + (i - fill) / 2) as usize)
        } else {
            Action::Wait(((i - fill) / 2) as usize)
        }
    } else if i < 2 * total {
        Action::Wait((i - total) as usize)
    } else {
        Action::Finish
    }
}

/// How many jobs have been launched, and how many waited for, before the
/// step at place `i` of a run without failure.
pub open spec fn counts_at(total: int, capacity: int, i: int) -> (int, int) {
    let fill = capacity - 1;
    let paired = 2 * (total - fill);
    if i < fill {
        (i, 0)
    } else if i < fill + paired {
        (fill + (i - fill + 1) / 2, (i - fill) / 2)
    } else {
        (total, i - total)
    }
}

/// A run in which no job fails takes its steps as the protocol says: first
/// the window is filled, then launches and waits take turns, then the rest
/// is waited for, and after two steps for each job the run finishes.
pub proof fn lemma_run_follows_protocol(total: usize, units: usize, i: nat)
    requires
        total >= 1,
        units >= 1,
        i <= 2 * total,
    ensures
        ({
            let start = Progress::start(total, units);
            let now = after_steps(start, i);
            &&& now.wf()
            &&& !now.failed
            &&& now.total == total
            &&& now.capacity == start.capacity
            &&& (now.launched as int, now.reaped as int) == counts_at(
                total as int,
                start.capacity as int,
                i as int,
            )
            &&& now.next() == protocol(total as int, start.capacity as int, i as int)
        }),
    decreases i,
{
    if i > 0 {
        lemma_run_follows_protocol(total, units, (i - 1) as nat);
    }
}

/// The scheduler of a run. It only ever holds a state that fits together.
pub struct Scheduler {
    state: Progress,
}

impl View for Scheduler {
    type V = Progress;

    closed spec fn view(&self) -> Progress {
        self.state
    }
}

impl Scheduler {
    #[verifier::type_invariant]
    spec fn inv(self) -> bool {
        self.state.wf()
    }

    /// A scheduler for `total` jobs on `units` parallel units.
    pub fn new(total: usize, units: usize) -> (r: Scheduler)
        ensures
            r@ == Progress::start(total, units),
            r@.wf(),
    {
        let least = if total < units {
            total
        } else {
            units
        };
        let capacity = if least < 1 {
            1
        } else {
            least
        };
        Scheduler { state: Progress { total, capacity, launched: 0, reaped: 0, failed: false } }
    }

    /// The state of the run.
    pub fn progress(&self) -> (r: Progress)
        ensures
            r == self@,
            r.wf(),
    {
        proof {
            use_type_invariant(self);
        }
        self.state
    }

    /// What to do next.
    pub fn next(&self) -> (r: Action)
        ensures
            r == self@.next(),
            self@.wf(),
    {
        proof {
            use_type_invariant(self);
        }
        let s = &self.state;
        let in_flight = s.launched - s.reaped;
        if s.failed {
            Action::Abort
        } else if in_flight >= s.capacity {
            Action::Wait(s.reaped)
        } else if s.launched < s.total {
            Action::Launch(s.launched)
        } else if in_flight > 0 {
            Action::Wait(s.reaped)
        } else {
            Action::Finish
        }
    }

    /// Records that the job that was to be launched has been launched.
    pub fn launched(&mut self)
        ensures
            final(self)@ == old(self)@.after_launch(),
    {
        proof {
            use_type_invariant(&*self);
        }
        if let Action::Launch(_) = self.next() {
            self.state.launched = self.state.launched + 1;
        }
    }

    /// Records that the job that was waited for has ended, successfully or
    /// not.
    pub fn exited(&mut self, success: bool)
        ensures
            final(self)@ == old(self)@.after_exit(success),
    {
        proof {
            use_type_invariant(&*self);
        }
        if let Action::Wait(_) = self.next() {
            if success {
                self.state.reaped = self.state.reaped + 1;
            } else {
                self.state.failed = true;
            }
        }
    }

    /// Records that the job that was waited for has ended: its decoder and
    /// its encoder, each successfully or not. The job has succeeded only
    /// where both have.
    pub fn job_exited(&mut self, decoder: bool, encoder: bool)
        ensures
            final(self)@ == old(self)@.after_exit(decoder && encoder),
    {
        self.exited(decoder && encoder);
    }

    /// Records a failure that is not a job's exit, such as a job that could
    /// not be launched.
    pub fn fail(&mut self)
        ensures
            final(self)@ == old(self)@.after_failure(),
    {
        proof {
            use_type_invariant(&*self);
        }
        self.state.failed = true;
    }
}

} // verus!
