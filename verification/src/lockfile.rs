//! The lockfile: the settings a build ran under and, per treatment, the
//! shards it has been applied to so far. It decides whether a later build
//! may resume or has to start over.

use crate::config::Assignment;
use crate::config::ExperimentConfig;
use crate::config::Settings;
use crate::config::StrategyType;
use crate::names::NameMap;
use vstd::prelude::*;

verus! {

/// Persisted build state.
#[derive(Debug)]
pub struct LockFile {
    /// The assignment the state was built under.
    pub assignment: Assignment,
    pub base: String,
    pub repo: String,
    pub shard_count: usize,
    pub minmax: (usize, usize),
    /// Per treatment name, the shards already treated, oldest first.
    pub applied: NameMap<Vec<usize>>,
}

/// The abstract value of a lockfile.
pub struct LockState {
    pub settings: Settings,
    /// Per treatment name, the shards already treated, oldest first.
    pub applied: Map<Seq<char>, Seq<usize>>,
}

impl View for LockFile {
    type V = LockState;

    open spec fn view(&self) -> LockState {
        LockState {
            settings: Settings {
                base: self.base@,
                repo: self.repo@,
                shard_count: self.shard_count,
                minmax: self.minmax,
                split: self.assignment.split@,
                seed: self.assignment.strategy.seed(),
            },
            applied: self.applied@.map_values(|shards: Vec<usize>| shards@),
        }
    }
}

/// Whether state persisted under `persisted` may be reused by a build
/// under `desired`: the base revision, the repository, the shard count and
/// the window are the same, both use the seeded strategy with one seed,
/// and every treatment that had a split still has one that is no smaller.
/// Treatments that only `desired` splits do not matter.
pub open spec fn compatible(persisted: Settings, desired: Settings) -> bool {
    &&& persisted.base == desired.base
    &&& persisted.repo == desired.repo
    &&& persisted.shard_count == desired.shard_count
    &&& persisted.minmax == desired.minmax
    &&& persisted.seed is Some
    &&& persisted.seed == desired.seed
    &&& forall|name: Seq<char>| #[trigger]
        persisted.split.contains_key(name) ==> desired.split.contains_key(name)
            && persisted.split[name] <= desired.split[name]
}

/// The abstract value of what was read back from disk.
pub open spec fn state_of(persisted: Option<LockFile>) -> Option<LockState> {
    match persisted {
        Some(lockfile) => Some(lockfile@),
        None => None,
    }
}

/// Whether a build has to discard all earlier state: it was asked to, or
/// there is no usable lockfile, or the lockfile does not go with the
/// desired settings.
pub open spec fn must_nuke(persisted: Option<LockState>, desired: Settings, nuclear: bool) -> bool {
    nuclear || match persisted {
        Some(state) => !compatible(state.settings, desired),
        None => true,
    }
}

/// The state a build starts from: a fresh one under the desired settings
/// after a nuke, the persisted one otherwise.
pub open spec fn starting_state(
    persisted: Option<LockState>,
    desired: Settings,
    nuclear: bool,
) -> LockState {
    if must_nuke(persisted, desired, nuclear) {
        LockState { settings: desired, applied: Map::empty() }
    } else {
        persisted->Some_0
    }
}

impl LockFile {
    /// Whether `self`, read back from disk, may be reused by a build under
    /// the settings of `desired`.
    pub fn compatible(&self, desired: &LockFile) -> (ok: bool)
        ensures
            ok == compatible(self@.settings, desired@.settings),
    {
        if !(self.base == desired.base && self.repo == desired.repo && self.shard_count
            == desired.shard_count && self.minmax.0 == desired.minmax.0 && self.minmax.1
            == desired.minmax.1) {
            return false;
        }
        let seeds_agree = match (&self.assignment.strategy, &desired.assignment.strategy) {
            (StrategyType::Random(ours), StrategyType::Random(theirs)) => ours.seed == theirs.seed,
            _ => false,
        };
        if !seeds_agree {
            return false;
        }
        let count = self.assignment.split.len();
        let mut i: usize = 0;
        while i < count
            invariant
                i <= count == self.assignment.split.names().len(),
                forall|j: int|
                    0 <= j < i ==> desired.assignment.split@.contains_key(
                        #[trigger] self.assignment.split.names()[j],
                    ) && self.assignment.split@[self.assignment.split.names()[j]]
                        <= desired.assignment.split@[self.assignment.split.names()[j]],
            decreases count - i,
        {
            let name = self.assignment.split.name_at(i);
            let percent = *self.assignment.split.value_at(i);
            let kept = match desired.assignment.split.get(name) {
                Some(other) => *other >= percent,
                None => false,
            };
            if !kept {
                assert(self@.settings.split.contains_key(name@));
                return false;
            }
            i += 1;
        }
        proof {
            let ours = self.assignment.split;
            let theirs = desired.assignment.split;
            ours.lemma_names_are_keys();
            assert forall|name: Seq<char>| #[trigger] ours@.contains_key(name) implies theirs@.contains_key(
                name,
            ) && ours@[name] <= theirs@[name] by {
                assert(ours.names().contains(name));
                let j = choose|j: int| 0 <= j < ours.names().len() && ours.names()[j] == name;
                assert(theirs@.contains_key(ours.names()[j]));
            }
        }
        true
    }
}

/// The lockfile of a build that starts from nothing under `config`.
pub fn form_lockfile(config: &ExperimentConfig) -> (lockfile: LockFile)
    ensures
        lockfile@.settings == config.settings(),
        lockfile@.applied == Map::<Seq<char>, Seq<usize>>::empty(),
        lockfile.assignment.split.names() == config.assignment.split.names(),
{
    let lockfile = LockFile {
        assignment: config.assignment.clone(),
        base: config.base.clone(),
        repo: config.repo.clone(),
        shard_count: config.shard_count,
        minmax: config.minmax,
        applied: NameMap::new(),
    };
    assert(lockfile@.applied =~= Map::<Seq<char>, Seq<usize>>::empty());
    lockfile
}

/// Chooses the lockfile a build works on and says whether the build has to
/// start over. `persisted` is what was read back from disk, `None` when
/// there was no lockfile or it could not be read; `desired` is the fresh
/// lockfile of the current configuration. The persisted lockfile is taken
/// over as it is unless the build has to start over.
pub fn select_lockfile(persisted: Option<LockFile>, desired: LockFile, nuclear: bool) -> (chosen: (
    LockFile,
    bool,
))
    ensures
        chosen.1 == must_nuke(state_of(persisted), desired@.settings, nuclear),
        chosen.0 == if chosen.1 {
            desired
        } else {
            persisted->Some_0
        },
{
    match persisted {
        Some(current) => {
            if !nuclear && current.compatible(&desired) {
                (current, false)
            } else {
                (desired, true)
            }
        },
        None => (desired, true),
    }
}

/// A lockfile under the seeded strategy goes with its own settings.
pub proof fn lemma_compatible_reflexive(settings: Settings)
    requires
        settings.seed is Some,
    ensures
        compatible(settings, settings),
{
}

/// Compatibility carries over a chain of builds.
pub proof fn lemma_compatible_transitive(first: Settings, second: Settings, third: Settings)
    requires
        compatible(first, second),
        compatible(second, third),
    ensures
        compatible(first, third),
{
    assert forall|name: Seq<char>| #[trigger] first.split.contains_key(name) implies third.split.contains_key(
        name,
    ) && first.split[name] <= third.split[name] by {
        assert(second.split.contains_key(name));
    }
}

/// Lowering or dropping the split of one treatment forces a new start.
pub proof fn lemma_lowered_split_is_incompatible(
    persisted: Settings,
    desired: Settings,
    name: Seq<char>,
)
    requires
        persisted.split.contains_key(name),
        !desired.split.contains_key(name) || desired.split[name] < persisted.split[name],
    ensures
        !compatible(persisted, desired),
        forall|state: LockState, nuclear: bool|
            state.settings == persisted ==> #[trigger] must_nuke(Some(state), desired, nuclear),
{
}

/// When only splits were raised or added, and nothing else changed, the
/// persisted state is reused as it is.
pub proof fn lemma_raised_splits_resume(state: LockState, desired: Settings)
    requires
        state.settings.seed is Some,
        desired == (Settings { split: desired.split, ..state.settings }),
        forall|name: Seq<char>| #[trigger]
            state.settings.split.contains_key(name) ==> desired.split.contains_key(name)
                && state.settings.split[name] <= desired.split[name],
    ensures
        compatible(state.settings, desired),
        starting_state(Some(state), desired, false) == state,
{
}

} // verus!
