//! The process supervisor's decisions: one process per shard of the
//! window, started one after the other with a pause after each, watched
//! until termination is requested, then killed in the order of their
//! start.
//!
//! The supervisor itself starts and kills nothing. Each call of `step`
//! says what to do next; the caller does it and calls again.

use crate::config::ExperimentConfig;
use vstd::prelude::*;

verus! {

/// Pause after the start of each process, in milliseconds.
pub const SPAWN_DELAY_MS: u64 = 500;

/// Pause between two looks at the termination request, in milliseconds.
pub const POLL_INTERVAL_MS: u64 = 100;

/// Why nothing can be run.
#[derive(Debug, Clone, Copy, PartialEq, Eq, Structural)]
pub enum RunError {
    /// The configuration has no run hook.
    MissingHook,
}

/// Where the supervisor stands.
#[derive(Debug, Clone, Copy, PartialEq, Eq, Structural)]
pub enum Phase {
    /// The process of shard `next` is the next to start.
    Starting { next: usize },
    /// The process of shard `after` was started; a pause is due.
    Settling { after: usize },
    /// Every process runs; termination has not been requested.
    Watching,
    /// Termination was requested; child number `next` is the next to
    /// kill.
    Stopping { next: usize },
    /// Every child was killed.
    Finished,
}

/// What the caller is to do next.
#[derive(Debug, Clone, Copy, PartialEq, Eq, Structural)]
pub enum Action {
    /// Start the run hook in the directory of this shard, without waiting
    /// for it, and keep its handle as the next child.
    Spawn { shard: usize },
    /// Wait this many milliseconds.
    Sleep { millis: u64 },
    /// Kill the child with this number, counted from 0 in order of start.
    Kill { child: usize },
    /// Return without error.
    Finish,
}

/// Number of processes for the window `[minmax.0, minmax.1)`.
pub open spec fn child_count(minmax: (usize, usize)) -> nat {
    if minmax.1 > minmax.0 {
        (minmax.1 - minmax.0) as nat
    } else {
        0
    }
}

/// What is done while children are being killed.
pub open spec fn stopping_step(minmax: (usize, usize), next: usize) -> (Phase, Action) {
    if next < child_count(minmax) {
        (Phase::Stopping { next: (next + 1) as usize }, Action::Kill { child: next })
    } else {
        (Phase::Finished, Action::Finish)
    }
}

/// What is done once every process runs.
pub open spec fn watching_step(minmax: (usize, usize), cancelled: bool) -> (Phase, Action) {
    if cancelled {
        stopping_step(minmax, 0)
    } else {
        (Phase::Watching, Action::Sleep { millis: POLL_INTERVAL_MS })
    }
}

/// The phase that follows `phase`, and what the caller does on the way.
/// `cancelled` says whether termination has been requested; it is looked
/// at only once every process has been started.
pub open spec fn next_step(minmax: (usize, usize), phase: Phase, cancelled: bool) -> (
    Phase,
    Action,
) {
    match phase {
        Phase::Starting { next } => if minmax.0 <= next < minmax.1 {
            (Phase::Settling { after: next }, Action::Spawn { shard: next })
        } else {
            watching_step(minmax, cancelled)
        },
        Phase::Settling { after } => (
            Phase::Starting { next: (after + 1) as usize },
            Action::Sleep { millis: SPAWN_DELAY_MS },
        ),
        Phase::Watching => watching_step(minmax, cancelled),
        Phase::Stopping { next } => stopping_step(minmax, next),
        Phase::Finished => (Phase::Finished, Action::Finish),
    }
}

/// The phase reached from `phase` after `steps` steps, all of which see
/// the termination request as `cancelled` says.
pub open spec fn phase_after(
    minmax: (usize, usize),
    phase: Phase,
    cancelled: bool,
    steps: nat,
) -> Phase
    decreases steps,
{
    if steps == 0 {
        phase
    } else {
        next_step(minmax, phase_after(minmax, phase, cancelled, (steps - 1) as nat), cancelled).0
    }
}

/// What the caller is told to do in step number `step`, counted from 0,
/// of a run that starts in `phase`.
pub open spec fn action_at(
    minmax: (usize, usize),
    phase: Phase,
    cancelled: bool,
    step: nat,
) -> Action {
    next_step(minmax, phase_after(minmax, phase, cancelled, step), cancelled).1
}

/// The supervisor of the processes of one instance.
#[derive(Debug)]
pub struct Supervisor {
    minmax: (usize, usize),
    phase: Phase,
}

impl Supervisor {
    /// The window of shards that are run.
    pub closed spec fn minmax(&self) -> (usize, usize) {
        self.minmax
    }

    /// Where the supervisor stands.
    pub closed spec fn phase(&self) -> Phase {
        self.phase
    }

    #[verifier::type_invariant]
    closed spec fn in_bounds(&self) -> bool {
        match self.phase {
            Phase::Starting { next } => true,
            Phase::Settling { after } => after < self.minmax.1,
            Phase::Watching => true,
            Phase::Stopping { next } => next <= child_count(self.minmax),
            Phase::Finished => true,
        }
    }

    /// A supervisor for the window of `config`, about to start the process
    /// of its first shard. Without a run hook there is nothing to run.
    pub fn new(config: &ExperimentConfig) -> (made: Result<Supervisor, RunError>)
        ensures
            config.hooks.run is None ==> made == Err::<Supervisor, RunError>(RunError::MissingHook),
            config.hooks.run is Some ==> (made matches Ok(supervisor) && supervisor.minmax()
                == config.minmax && supervisor.phase() == (Phase::Starting {
                next: config.minmax.0,
            })),
    {
        if config.hooks.run.is_none() {
            return Err(RunError::MissingHook);
        }
        Ok(Supervisor { minmax: config.minmax, phase: Phase::Starting { next: config.minmax.0 } })
    }

    /// The current phase.
    pub fn current(&self) -> (phase: Phase)
        ensures
            phase == self.phase(),
    {
        self.phase
    }

    /// Moves on by one step and says what the caller is to do. `cancelled`
    /// is the caller's latest look at the termination request.
    pub fn step(&mut self, cancelled: bool) -> (action: Action)
        ensures
            final(self).minmax() == old(self).minmax(),
            (final(self).phase(), action) == next_step(
                old(self).minmax(),
                old(self).phase(),
                cancelled,
            ),
    {
        proof {
            use_type_invariant(&*self);
        }
        let (min, max) = self.minmax;
        let count = if max > min {
            max - min
        } else {
            0
        };
        let stop_from = match self.phase {
            Phase::Starting { next } => {
                if min <= next && next < max {
                    self.phase = Phase::Settling { after: next };
                    return Action::Spawn { shard: next };
                }
                if !cancelled {
                    self.phase = Phase::Watching;
                    return Action::Sleep { millis: POLL_INTERVAL_MS };
                }
                0
            },
            Phase::Settling { after } => {
                self.phase = Phase::Starting { next: after + 1 };
                return Action::Sleep { millis: SPAWN_DELAY_MS };
            },
            Phase::Watching => {
                if !cancelled {
                    return Action::Sleep { millis: POLL_INTERVAL_MS };
                }
                0
            },
            Phase::Stopping { next } => next,
            Phase::Finished => {
                return Action::Finish;
            },
        };
        if stop_from < count {
            self.phase = Phase::Stopping { next: stop_from + 1 };
            Action::Kill { child: stop_from }
        } else {
            self.phase = Phase::Finished;
            Action::Finish
        }
    }
}

impl RunError {
    /// The text of the message for this error.
    pub open spec fn message_text(&self) -> Seq<char> {
        "no run hook found"@
    }

    /// A message for the user.
    pub fn message(&self) -> (text: String)
        ensures
            text@ == self.message_text(),
    {
        "no run hook found".to_owned()
    }
}

/// Every shard of the window gets its process, in ascending order, and a
/// pause follows each start, whether or not termination is requested
/// meanwhile: step number `2 * k` starts the process of shard `min + k`,
/// and the step after it is the pause.
pub proof fn lemma_starts_every_shard(minmax: (usize, usize), cancelled: bool, k: nat)
    requires
        k < child_count(minmax),
    ensures
        phase_after(minmax, Phase::Starting { next: minmax.0 }, cancelled, 2 * k)
            == (Phase::Starting { next: (minmax.0 + k) as usize }),
        action_at(minmax, Phase::Starting { next: minmax.0 }, cancelled, 2 * k)
            == (Action::Spawn { shard: (minmax.0 + k) as usize }),
        action_at(minmax, Phase::Starting { next: minmax.0 }, cancelled, 2 * k + 1)
            == (Action::Sleep { millis: SPAWN_DELAY_MS }),
        phase_after(minmax, Phase::Starting { next: minmax.0 }, cancelled, 2 * k + 2)
            == (Phase::Starting { next: (minmax.0 + k + 1) as usize }),
    decreases k,
{
    let start = Phase::Starting { next: minmax.0 };
    if k > 0 {
        lemma_starts_every_shard(minmax, cancelled, (k - 1) as nat);
    }
    let here = phase_after(minmax, start, cancelled, 2 * k);
    let settling = phase_after(minmax, start, cancelled, 2 * k + 1);
    assert(settling == next_step(minmax, here, cancelled).0);
    assert(phase_after(minmax, start, cancelled, 2 * k + 2) == next_step(
        minmax,
        settling,
        cancelled,
    ).0);
}

/// Once every process was started the supervisor watches, and goes on
/// watching with a short pause per step for as long as termination is not
/// requested.
pub proof fn lemma_watches_until_requested(minmax: (usize, usize), more: nat)
    ensures
        action_at(
            minmax,
            Phase::Starting { next: minmax.0 },
            false,
            2 * child_count(minmax) + more,
        ) == (Action::Sleep { millis: POLL_INTERVAL_MS }),
        phase_after(
            minmax,
            Phase::Starting { next: minmax.0 },
            false,
            2 * child_count(minmax) + more + 1,
        ) == Phase::Watching,
    decreases more,
{
    let start = Phase::Starting { next: minmax.0 };
    let n = child_count(minmax);
    if more == 0 {
        if n > 0 {
            lemma_starts_every_shard(minmax, false, (n - 1) as nat);
        }
    } else {
        lemma_watches_until_requested(minmax, (more - 1) as nat);
    }
}

/// A termination request kills every child and then ends the run without
/// error: counted from the first step that sees the request, step number
/// `k` kills child number `k`, for every child, and the step after the
/// last kill finishes.
pub proof fn lemma_kills_every_child(minmax: (usize, usize), k: nat)
    requires
        k <= child_count(minmax),
    ensures
        k < child_count(minmax) ==> action_at(minmax, Phase::Watching, true, k) == (Action::Kill {
            child: k as usize,
        }),
        k == child_count(minmax) ==> action_at(minmax, Phase::Watching, true, k)
            == Action::Finish,
        phase_after(minmax, Phase::Watching, true, k + 1) == if k < child_count(minmax) {
            Phase::Stopping { next: (k + 1) as usize }
        } else {
            Phase::Finished
        },
    decreases k,
{
    if k > 0 {
        lemma_kills_every_child(minmax, (k - 1) as nat);
    }
}

} // verus!
