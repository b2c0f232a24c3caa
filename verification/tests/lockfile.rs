use bipolar::config::{
    default_config, Assignment, DefaultStrategy, ExperimentConfig, RandomStrategy, StrategyType,
};
use bipolar::lockfile::{form_lockfile, select_lockfile, LockFile};
use bipolar::names::NameMap;

fn split_of(pairs: &[(&str, u8)]) -> NameMap<u8> {
    let mut split = NameMap::new();
    for (name, percent) in pairs {
        split.insert(name.to_string(), *percent);
    }
    split
}

fn lockfile(pairs: &[(&str, u8)], seed: u64) -> LockFile {
    LockFile {
        assignment: Assignment {
            split: split_of(pairs),
            strategy: StrategyType::Random(RandomStrategy { seed }),
        },
        base: "main".to_string(),
        repo: "https://example.com/team/project".to_string(),
        shard_count: 10,
        minmax: (0, 10),
        applied: NameMap::new(),
    }
}

fn config(pairs: &[(&str, u8)], seed: u64) -> ExperimentConfig {
    let mut config = default_config(None, "https://example.com/team/project".into(), "main".into());
    config.assignment = Assignment {
        split: split_of(pairs),
        strategy: StrategyType::Random(RandomStrategy { seed }),
    };
    config.shard_count = 10;
    config.minmax = (0, 10);
    config
}

#[test]
fn equal_settings_are_compatible() {
    assert!(lockfile(&[("A", 30)], 42).compatible(&lockfile(&[("A", 30)], 42)));
    assert!(lockfile(&[], 0).compatible(&lockfile(&[], 0)));
}

#[test]
fn progress_does_not_matter_for_compatibility() {
    let mut persisted = lockfile(&[("A", 30)], 42);
    persisted.applied.insert("A".to_string(), vec![4, 9, 8]);
    assert!(persisted.compatible(&lockfile(&[("A", 30)], 42)));
}

#[test]
fn a_raised_split_is_compatible() {
    assert!(lockfile(&[("A", 30)], 42).compatible(&lockfile(&[("A", 60)], 42)));
    assert!(lockfile(&[("A", 0)], 42).compatible(&lockfile(&[("A", 100)], 42)));
    assert!(lockfile(&[("A", 30), ("B", 10)], 42).compatible(&lockfile(&[("B", 10), ("A", 31)], 42)));
}

#[test]
fn a_lowered_split_is_incompatible() {
    assert!(!lockfile(&[("A", 30)], 42).compatible(&lockfile(&[("A", 20)], 42)));
    assert!(!lockfile(&[("A", 30)], 42).compatible(&lockfile(&[("A", 29)], 42)));
    assert!(!lockfile(&[("A", 30), ("B", 10)], 42).compatible(&lockfile(&[("A", 60), ("B", 9)], 42)));
}

#[test]
fn a_removed_split_is_incompatible() {
    assert!(!lockfile(&[("A", 30)], 42).compatible(&lockfile(&[], 42)));
    assert!(!lockfile(&[("A", 30), ("B", 10)], 42).compatible(&lockfile(&[("A", 30)], 42)));
    assert!(!lockfile(&[("A", 0)], 42).compatible(&lockfile(&[("a", 50)], 42)));
}

#[test]
fn an_added_split_does_not_matter() {
    assert!(lockfile(&[("A", 30)], 42).compatible(&lockfile(&[("A", 30), ("B", 50)], 42)));
    assert!(lockfile(&[], 42).compatible(&lockfile(&[("B", 50)], 42)));
}

#[test]
fn another_seed_is_incompatible() {
    assert!(!lockfile(&[("A", 30)], 42).compatible(&lockfile(&[("A", 30)], 43)));
}

#[test]
fn another_base_repo_count_or_window_is_incompatible() {
    let persisted = lockfile(&[("A", 30)], 42);
    let mut desired = lockfile(&[("A", 30)], 42);
    desired.base = "develop".to_string();
    assert!(!persisted.compatible(&desired));
    let mut desired = lockfile(&[("A", 30)], 42);
    desired.repo = "https://example.com/team/other".to_string();
    assert!(!persisted.compatible(&desired));
    let mut desired = lockfile(&[("A", 30)], 42);
    desired.shard_count = 11;
    assert!(!persisted.compatible(&desired));
    let mut desired = lockfile(&[("A", 30)], 42);
    desired.minmax = (1, 10);
    assert!(!persisted.compatible(&desired));
    let mut desired = lockfile(&[("A", 30)], 42);
    desired.minmax = (0, 9);
    assert!(!persisted.compatible(&desired));
}

#[test]
fn the_unseeded_strategy_is_never_compatible() {
    let mut persisted = lockfile(&[("A", 30)], 42);
    persisted.assignment.strategy = StrategyType::Proxy(DefaultStrategy {});
    let mut desired = lockfile(&[("A", 30)], 42);
    assert!(!persisted.compatible(&desired));
    desired.assignment.strategy = StrategyType::Proxy(DefaultStrategy {});
    assert!(!persisted.compatible(&desired));
    assert!(!lockfile(&[("A", 30)], 42).compatible(&desired));
}

#[test]
fn form_lockfile_mirrors_the_configuration() {
    let made = form_lockfile(&config(&[("A", 30), ("B", 5)], 42));
    assert_eq!(made.base, "main");
    assert_eq!(made.repo, "https://example.com/team/project");
    assert_eq!(made.shard_count, 10);
    assert_eq!(made.minmax, (0, 10));
    assert_eq!(made.assignment.split.len(), 2);
    assert_eq!(made.assignment.split.get(&"A".to_string()), Some(&30));
    assert_eq!(made.assignment.split.get(&"B".to_string()), Some(&5));
    match made.assignment.strategy {
        StrategyType::Random(random) => assert_eq!(random.seed, 42),
        StrategyType::Proxy(_) => panic!("the strategy is seeded"),
    }
    assert_eq!(made.applied.len(), 0);
}

#[test]
fn without_a_lockfile_the_build_starts_over() {
    let (chosen, nuke) = select_lockfile(None, lockfile(&[("A", 30)], 42), false);
    assert!(nuke);
    assert_eq!(chosen.applied.len(), 0);
    assert_eq!(chosen.assignment.split.get(&"A".to_string()), Some(&30));
}

#[test]
fn a_compatible_lockfile_is_taken_over_as_it_is() {
    let mut persisted = lockfile(&[("A", 30)], 42);
    persisted.applied.insert("A".to_string(), vec![4, 9, 8]);
    let (chosen, nuke) = select_lockfile(Some(persisted), lockfile(&[("A", 60)], 42), false);
    assert!(!nuke);
    assert_eq!(chosen.applied.get(&"A".to_string()), Some(&vec![4, 9, 8]));
    assert_eq!(chosen.assignment.split.get(&"A".to_string()), Some(&30));
}

#[test]
fn an_incompatible_lockfile_is_discarded() {
    let mut persisted = lockfile(&[("A", 30)], 42);
    persisted.applied.insert("A".to_string(), vec![4, 9, 8]);
    let (chosen, nuke) = select_lockfile(Some(persisted), lockfile(&[("A", 20)], 42), false);
    assert!(nuke);
    assert_eq!(chosen.applied.len(), 0);
    assert_eq!(chosen.assignment.split.get(&"A".to_string()), Some(&20));
}

#[test]
fn a_forced_new_start_discards_even_a_compatible_lockfile() {
    let mut persisted = lockfile(&[("A", 30)], 42);
    persisted.applied.insert("A".to_string(), vec![4, 9, 8]);
    let (chosen, nuke) = select_lockfile(Some(persisted), lockfile(&[("A", 30)], 42), true);
    assert!(nuke);
    assert_eq!(chosen.applied.len(), 0);
}
