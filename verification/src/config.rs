//! The experiment description: where the code comes from, which treatments
//! exist, how shards are assigned to them, and which hooks run.

use crate::layout::child_path;
use crate::layout::joined;
use crate::names::NameMap;
use vstd::prelude::*;
use vstd::string::StringExecFns;

verus! {

/// File, under the repository root, that holds the configuration.
pub const CONFIG_FILE: &'static str = "bipolar.toml";

/// Everything one experiment is configured with.
#[derive(Debug)]
pub struct ExperimentConfig {
    pub name: String,
    /// Url of the repository that every shard is cloned from.
    pub repo: String,
    /// The control revision: a branch or any revision expression.
    pub base: String,
    /// The treatments, in the order in which they are applied to a shard.
    pub treatments: Vec<Treatment>,
    pub assignment: Assignment,
    pub hooks: Hooks,
    pub templating: Option<Templating>,
    /// Names, relative to a shard, that are linked to a shared directory.
    pub symlinks: Option<Vec<String>>,
    /// Directory, relative to the repository root, that the links point
    /// into; `symlinks/` when absent.
    pub symlinks_base: Option<String>,
    /// Variables exported to every process that the run hook starts.
    pub environment: Option<NameMap<String>>,
    /// Number of shards of the whole experiment, the same on every
    /// instance.
    pub shard_count: usize,
    /// The half-open range `[min, max)` of shard ids this instance owns.
    pub minmax: (usize, usize),
}

/// What identifies a build: persisted state may only be reused by a build
/// whose settings go with the ones it was made under.
pub struct Settings {
    pub base: Seq<char>,
    pub repo: Seq<char>,
    pub shard_count: usize,
    pub minmax: (usize, usize),
    /// Percentage per treatment name.
    pub split: Map<Seq<char>, u8>,
    /// The seed of the seeded strategy; `None` for the other one.
    pub seed: Option<u64>,
}

impl ExperimentConfig {
    /// The settings that a build of this configuration runs under.
    pub open spec fn settings(&self) -> Settings {
        Settings {
            base: self.base@,
            repo: self.repo@,
            shard_count: self.shard_count,
            minmax: self.minmax,
            split: self.assignment.split@,
            seed: self.assignment.strategy.seed(),
        }
    }
}

/// Where the per-shard templates live and the custom values they may use.
#[derive(Debug)]
pub struct Templating {
    pub path: String,
    pub config: NameMap<String>,
}

/// Shell commands run at fixed points of a build or a run.
#[derive(Debug)]
pub struct Hooks {
    pub control_build: Option<String>,
    pub build: Option<String>,
    pub run: Option<String>,
}

/// The strategy without parameters: shards keep their natural order.
#[derive(Debug)]
pub struct DefaultStrategy {}

/// The seeded strategy: each treatment gets its own reproducible order.
#[derive(Debug)]
pub struct RandomStrategy {
    pub seed: u64,
}

#[derive(Debug)]
pub enum StrategyType {
    Proxy(DefaultStrategy),
    Random(RandomStrategy),
}

impl StrategyType {
    /// The seed of a seeded strategy.
    pub open spec fn seed(&self) -> Option<u64> {
        match self {
            StrategyType::Proxy(_) => None,
            StrategyType::Random(random) => Some(random.seed),
        }
    }

    pub fn clone(&self) -> (copy: StrategyType)
        ensures
            copy == *self,
    {
        match self {
            StrategyType::Proxy(_) => StrategyType::Proxy(DefaultStrategy {  }),
            StrategyType::Random(random) => StrategyType::Random(
                RandomStrategy { seed: random.seed },
            ),
        }
    }
}

/// Which share of the shards each treatment receives, and in which order
/// shards are handed out.
#[derive(Debug)]
pub struct Assignment {
    /// Percentage of the shards per treatment name.
    pub split: NameMap<u8>,
    pub strategy: StrategyType,
}

impl Assignment {
    pub fn clone(&self) -> (copy: Assignment)
        ensures
            copy.split@ == self.split@,
            copy.split.names() == self.split.names(),
            copy.strategy == self.strategy,
    {
        Assignment { split: self.split.duplicate(), strategy: self.strategy.clone() }
    }
}

/// Merge a branch of the origin remote.
#[derive(Debug)]
pub struct BranchTreatment {
    pub name: String,
    pub ref_: String,
}

/// Merge one commit, given by its hexadecimal id.
#[derive(Debug)]
pub struct CommitTreatment {
    pub name: String,
    pub ref_: String,
}

/// Apply a unified diff to the working tree.
#[derive(Debug)]
pub struct PatchTreatment {
    pub name: String,
    pub patch: String,
}

#[derive(Debug)]
pub enum Treatment {
    Branch(BranchTreatment),
    Commit(CommitTreatment),
    Patch(PatchTreatment),
}

impl Treatment {
    /// The name under which splits and progress are recorded.
    pub open spec fn label(&self) -> Seq<char> {
        match self {
            Treatment::Branch(t) => t.name@,
            Treatment::Commit(t) => t.name@,
            Treatment::Patch(t) => t.name@,
        }
    }

    pub fn name(&self) -> (name: &String)
        ensures
            name@ == self.label(),
    {
        match self {
            Treatment::Branch(t) => &t.name,
            Treatment::Commit(t) => &t.name,
            Treatment::Patch(t) => &t.name,
        }
    }
}

/// The part of `url` after its last `/`; all of it when it has none.
pub open spec fn last_segment(url: Seq<char>) -> Seq<char>
    decreases url.len(),
{
    if url.len() == 0 {
        url
    } else if url.last() == '/' {
        Seq::empty()
    } else {
        last_segment(url.drop_last()).push(url.last())
    }
}

/// Start of the last segment of the first `upto` characters of `url`.
pub open spec fn segment_start(url: Seq<char>, upto: int) -> int
    decreases upto,
{
    if upto <= 0 {
        0
    } else if url[upto - 1] == '/' {
        upto
    } else {
        segment_start(url, upto - 1)
    }
}

proof fn lemma_last_segment(url: Seq<char>, upto: int)
    requires
        0 <= upto <= url.len(),
    ensures
        0 <= segment_start(url, upto) <= upto,
        last_segment(url.take(upto)) == url.subrange(segment_start(url, upto), upto),
    decreases upto,
{
    let head = url.take(upto);
    if upto == 0 {
        assert(head =~= url.subrange(0, 0));
    } else if url[upto - 1] == '/' {
        assert(head.last() == '/');
        assert(url.subrange(upto, upto) =~= Seq::<char>::empty());
    } else {
        lemma_last_segment(url, upto - 1);
        assert(head.drop_last() =~= url.take(upto - 1));
        assert(url.subrange(segment_start(url, upto - 1), upto - 1).push(url[upto - 1])
            =~= url.subrange(segment_start(url, upto), upto));
    }
}

/// The name a repository goes by: the last path segment of its url.
pub fn repo_name_from_url(url: &str) -> (name: String)
    ensures
        name@ == last_segment(url@),
{
    let len = url.unicode_len();
    let mut start: usize = len;
    while start > 0 && url.get_char(start - 1) != '/'
        invariant
            start <= len,
            len == url@.len(),
            segment_start(url@, len as int) == segment_start(url@, start as int),
        decreases start,
    {
        start -= 1;
    }
    proof {
        lemma_last_segment(url@, len as int);
        assert(url@.take(len as int) =~= url@);
    }
    String::from_str(url.substring_char(start, len))
}

/// The configuration a fresh experiment starts from: no treatments, no
/// hooks, a seeded strategy with seed 0, and one shard of which this
/// instance owns none. It is named `name`, or after the repository when no
/// name is given.
pub fn default_config(name: Option<String>, url: String, base: String) -> (config:
    ExperimentConfig)
    ensures
        config.name@ == match name {
            Some(given) => given@,
            None => last_segment(url@),
        },
        config.repo@ == url@,
        config.base@ == base@,
        config.treatments@.len() == 0,
        config.assignment.split@ == Map::<Seq<char>, u8>::empty(),
        config.assignment.strategy == StrategyType::Random(RandomStrategy { seed: 0 }),
        config.hooks == (Hooks { control_build: None, build: None, run: None }),
        config.templating is None,
        config.symlinks is None,
        config.symlinks_base is None,
        config.environment is None,
        config.shard_count == 1,
        config.minmax == (0usize, 0usize),
{
    let name = match name {
        Some(given) => given,
        None => repo_name_from_url(url.as_str()),
    };
    ExperimentConfig {
        name,
        repo: url,
        base,
        treatments: Vec::new(),
        assignment: Assignment {
            split: NameMap::new(),
            strategy: StrategyType::Random(RandomStrategy { seed: 0 }),
        },
        hooks: Hooks { control_build: None, build: None, run: None },
        templating: None,
        symlinks: None,
        symlinks_base: None,
        environment: None,
        shard_count: 1,
        minmax: (0, 0),
    }
}

/// The path of the configuration file of the repository rooted at `base`.
pub fn get_config_path(base: &str) -> (path: String)
    ensures
        path@ == joined(base@, CONFIG_FILE@),
{
    child_path(base, CONFIG_FILE)
}

} // verus!
