//! The build orchestrator's decisions: whether to start over, which shards
//! each treatment is applied to, and the lockfile to persist once all of it
//! has been carried out.

use crate::assignment::due_ids;
use crate::assignment::id_range;
use crate::assignment::identity_order;
use crate::assignment::in_window;
use crate::assignment::pending_shards;
use crate::assignment::resolve_count;
use crate::assignment::shard_order;
use crate::assignment::split_count;
use crate::assignment::strategy_order;
use crate::config::ExperimentConfig;
use crate::lockfile::form_lockfile;
use crate::lockfile::must_nuke;
use crate::lockfile::select_lockfile;
use crate::lockfile::starting_state;
use crate::lockfile::state_of;
use crate::lockfile::LockFile;
use vstd::prelude::*;

verus! {

/// What a build does for one configured treatment.
#[derive(Debug)]
pub enum TreatmentStep {
    /// No split is configured for the treatment: it is left out, which the
    /// caller should report as a warning.
    NoSplit,
    /// Apply the treatment to these shards, in this order.
    Apply(Vec<usize>),
}

impl View for TreatmentStep {
    type V = Option<Seq<usize>>;

    open spec fn view(&self) -> Option<Seq<usize>> {
        match self {
            TreatmentStep::NoSplit => None,
            TreatmentStep::Apply(shards) => Some(shards@),
        }
    }
}

/// Everything a build decides before it touches the disk.
#[derive(Debug)]
pub struct BuildPlan {
    /// Delete the build directory and clone the control revision anew
    /// before anything else.
    pub nuke: bool,
    /// The shards of this instance, ascending. Each needs a working copy
    /// before any treatment is applied: a copy of the control clone where
    /// it has none yet, its own otherwise.
    pub shards: Vec<usize>,
    /// One step per configured treatment, in configuration order.
    pub steps: Vec<TreatmentStep>,
    /// Whether each shard of the window is finished off with the build
    /// hook, the templates or the links; `false` when none is configured,
    /// which the caller should report as a warning.
    pub finish_shards: bool,
    /// The lockfile to write once every step has succeeded.
    pub lockfile: LockFile,
}

/// The shards recorded under `name`; none when the name is unknown.
pub open spec fn recorded(applied: Map<Seq<char>, Seq<usize>>, name: Seq<char>) -> Seq<usize> {
    if applied.contains_key(name) {
        applied[name]
    } else {
        Seq::empty()
    }
}

/// Whether a split is configured for treatment number `t`.
pub open spec fn has_split(config: &ExperimentConfig, t: int) -> bool {
    config.assignment.split@.contains_key(config.treatments@[t].label())
}

/// The shards that treatment number `t` is applied to when `applied` is
/// the progress recorded so far: of its order, the first ones as the split
/// selects, without as many as are recorded for it, as far as they lie in
/// the window of this instance.
pub open spec fn step_targets(
    config: &ExperimentConfig,
    applied: Map<Seq<char>, Seq<usize>>,
    t: int,
) -> Seq<usize> {
    let name = config.treatments@[t].label();
    let order = strategy_order(
        config.assignment.strategy,
        name,
        config.shard_count,
        config.minmax,
    );
    let count = split_count(order.len(), config.assignment.split@[name]);
    in_window(due_ids(order, count, recorded(applied, name).len()), config.minmax)
}

/// The progress after treatment number `t` was handled: its new shards are
/// appended to what was recorded under its name. A treatment without a
/// split leaves the record as it is.
pub open spec fn applied_after_step(
    config: &ExperimentConfig,
    applied: Map<Seq<char>, Seq<usize>>,
    t: int,
) -> Map<Seq<char>, Seq<usize>> {
    if has_split(config, t) {
        let name = config.treatments@[t].label();
        applied.insert(name, recorded(applied, name) + step_targets(config, applied, t))
    } else {
        applied
    }
}

/// The progress when the first `t` treatments were handled, starting from
/// `start`.
pub open spec fn applied_before(
    config: &ExperimentConfig,
    start: Map<Seq<char>, Seq<usize>>,
    t: nat,
) -> Map<Seq<char>, Seq<usize>>
    decreases t,
{
    if t == 0 {
        start
    } else {
        applied_after_step(config, applied_before(config, start, (t - 1) as nat), t - 1)
    }
}

/// The step for treatment number `t` of a build that starts from the
/// progress `start`.
pub open spec fn step_of(
    config: &ExperimentConfig,
    start: Map<Seq<char>, Seq<usize>>,
    t: int,
) -> Option<Seq<usize>> {
    if has_split(config, t) {
        Some(step_targets(config, applied_before(config, start, t as nat), t))
    } else {
        None
    }
}

/// Whether anything is configured that finishes a shard off.
pub open spec fn finishes_shards(config: &ExperimentConfig) -> bool {
    config.hooks.build is Some || config.templating is Some || config.symlinks is Some
}

/// `before`, if any, followed by `more`.
fn extended(before: Option<&Vec<usize>>, more: &Vec<usize>) -> (all: Vec<usize>)
    ensures
        all@ == match before {
            Some(list) => list@,
            None => Seq::empty(),
        } + more@,
{
    let mut all: Vec<usize> = Vec::new();
    if let Some(list) = before {
        let mut i: usize = 0;
        while i < list.len()
            invariant
                i <= list@.len(),
                all@ == list@.take(i as int),
            decreases list@.len() - i,
        {
            all.push(list[i]);
            assert(all@ =~= list@.take(i + 1));
            i += 1;
        }
        assert(all@ =~= list@);
    }
    let ghost head = all@;
    let mut i: usize = 0;
    while i < more.len()
        invariant
            i <= more@.len(),
            all@ == head + more@.take(i as int),
        decreases more@.len() - i,
    {
        all.push(more[i]);
        assert(all@ =~= head + more@.take(i + 1));
        i += 1;
    }
    assert(all@ =~= head + more@);
    all
}

/// Plans one build of `config`. `persisted` is the lockfile read back from
/// disk, `None` when there is none or it could not be read; `nuclear`
/// asks for a new start regardless.
///
/// The plan starts over exactly when it must, and then from a fresh
/// lockfile with nothing recorded. It holds one step per treatment, in
/// configuration order, and each step takes into account what the steps
/// before it recorded. The lockfile of the plan records all of it: for
/// each treatment with a split, what was recorded before followed by the
/// shards of its step. Unless the build starts over, nothing that the
/// persisted lockfile recorded is lost or reordered.
pub fn plan_build(config: &ExperimentConfig, persisted: Option<LockFile>, nuclear: bool) -> (plan:
    BuildPlan)
    ensures
        plan.nuke == must_nuke(state_of(persisted), config.settings(), nuclear),
        plan.shards@ == id_range(config.minmax.0 as int, config.minmax.1 as int),
        plan.steps@.len() == config.treatments@.len(),
        forall|t: int|
            0 <= t < plan.steps@.len() ==> (#[trigger] plan.steps@[t])@ == step_of(
                config,
                starting_state(state_of(persisted), config.settings(), nuclear).applied,
                t,
            ),
        plan.finish_shards == finishes_shards(config),
        plan.lockfile@.settings == starting_state(
            state_of(persisted),
            config.settings(),
            nuclear,
        ).settings,
        plan.lockfile@.applied == applied_before(
            config,
            starting_state(state_of(persisted), config.settings(), nuclear).applied,
            config.treatments@.len(),
        ),
        !plan.nuke ==> forall|name: Seq<char>| #[trigger]
            recorded(persisted->Some_0@.applied, name).is_prefix_of(
                recorded(plan.lockfile@.applied, name),
            ),
{
    let desired = form_lockfile(config);
    let (mut lockfile, nuke) = select_lockfile(persisted, desired, nuclear);
    let ghost start = lockfile@;
    assert(start == starting_state(state_of(persisted), config.settings(), nuclear));
    let mut steps: Vec<TreatmentStep> = Vec::new();
    let mut t: usize = 0;
    while t < config.treatments.len()
        invariant
            t <= config.treatments@.len(),
            steps@.len() == t,
            forall|k: int| 0 <= k < t ==> (#[trigger] steps@[k])@ == step_of(config, start.applied, k),
            lockfile@.settings == start.settings,
            lockfile@.applied == applied_before(config, start.applied, t as nat),
        decreases config.treatments@.len() - t,
    {
        let name = config.treatments[t].name();
        let ghost before = lockfile@.applied;
        match config.assignment.split.get(name) {
            None => {
                steps.push(TreatmentStep::NoSplit);
            },
            Some(percent) => {
                let order = shard_order(
                    &config.assignment.strategy,
                    name.as_str(),
                    config.shard_count,
                    config.minmax,
                );
                let count = resolve_count(&order, *percent);
                let earlier = lockfile.applied.get(name);
                let done = match earlier {
                    Some(list) => list.len(),
                    None => 0,
                };
                let shards = pending_shards(&order, count, done, config.minmax);
                assert(shards@ == step_targets(config, before, t as int));
                let all = extended(earlier, &shards);
                assert(all@ == recorded(before, name@) + shards@);
                lockfile.applied.insert(name.clone(), all);
                assert(lockfile@.applied =~= before.insert(name@, all@));
                steps.push(TreatmentStep::Apply(shards));
            },
        }
        t += 1;
    }
    proof {
        assert forall|name: Seq<char>| #[trigger]
            recorded(start.applied, name).is_prefix_of(recorded(lockfile@.applied, name)) by {
            lemma_progress_only_grows(config, start.applied, config.treatments@.len(), name);
        }
    }
    BuildPlan {
        nuke,
        shards: identity_order(config.minmax.0, config.minmax.1),
        steps,
        finish_shards: config.hooks.build.is_some() || config.templating.is_some()
            || config.symlinks.is_some(),
        lockfile,
    }
}

/// A build never loses progress: whatever was recorded under a name when
/// the build started is still there, at the front, after any number of
/// its steps.
pub proof fn lemma_progress_only_grows(
    config: &ExperimentConfig,
    start: Map<Seq<char>, Seq<usize>>,
    t: nat,
    name: Seq<char>,
)
    ensures
        start.contains_key(name) ==> applied_before(config, start, t).contains_key(name),
        recorded(start, name).is_prefix_of(recorded(applied_before(config, start, t), name)),
    decreases t,
{
    if t > 0 {
        lemma_progress_only_grows(config, start, (t - 1) as nat, name);
        let earlier = applied_before(config, start, (t - 1) as nat);
        let later = applied_before(config, start, t);
        assert(later == applied_after_step(config, earlier, t - 1));
        let first = recorded(start, name);
        let second = recorded(earlier, name);
        let third = recorded(later, name);
        assert(second.is_prefix_of(third)) by {
            if has_split(config, t - 1) && config.treatments@[t - 1].label() == name {
                assert(third == second + step_targets(config, earlier, t - 1));
            }
        }
        assert(first =~= third.subrange(0, first.len() as int));
    }
}

/// A treatment without a split is left out and changes nothing.
pub proof fn lemma_no_split_no_change(
    config: &ExperimentConfig,
    start: Map<Seq<char>, Seq<usize>>,
    t: int,
)
    requires
        0 <= t,
        !has_split(config, t),
    ensures
        step_of(config, start, t) is None,
        applied_before(config, start, (t + 1) as nat) == applied_before(config, start, t as nat),
{
}

} // verus!
