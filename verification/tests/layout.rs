use bipolar::layout::{
    child_path, decimal_string, get_build_dir, get_control_dir, get_lockfile_path, get_shard_dir,
    is_hidden, symlink_source, template_glob, BUILD_DIR, CONTROL_REPO_DIR, DEFAULT_SYMLINKS_BASE,
    LOCKFILE_FILE,
};

#[test]
fn names_of_the_build_state() {
    assert_eq!(BUILD_DIR, ".bipolar");
    assert_eq!(CONTROL_REPO_DIR, ".control");
    assert_eq!(LOCKFILE_FILE, "lockfile.toml");
    assert_eq!(DEFAULT_SYMLINKS_BASE, "symlinks/");
}

#[test]
fn child_path_puts_one_separator_between() {
    assert_eq!(child_path("/a/b", "c"), "/a/b/c");
    assert_eq!(child_path("/a/b/", "c"), "/a/b/c");
    assert_eq!(child_path("a", "b/c"), "a/b/c");
    assert_eq!(child_path("/", "c"), "/c");
    assert_eq!(child_path("/a", ""), "/a/");
    assert_eq!(child_path("/a/", ""), "/a/");
}

#[test]
fn child_path_of_the_empty_path_is_the_name() {
    assert_eq!(child_path("", "c"), "c");
    assert_eq!(child_path("", ""), "");
}

#[test]
fn child_path_lets_an_absolute_name_stand() {
    assert_eq!(child_path("/a/b", "/etc/shared"), "/etc/shared");
    assert_eq!(child_path("", "/x"), "/x");
    assert_eq!(child_path("/a/", "/"), "/");
}

#[test]
fn child_path_counts_characters_not_bytes() {
    assert_eq!(child_path("/dépôt", "näme"), "/dépôt/näme");
    assert_eq!(child_path("/dépôt/", "näme"), "/dépôt/näme");
}

#[test]
fn decimal_string_writes_numbers() {
    assert_eq!(decimal_string(0), "0");
    assert_eq!(decimal_string(7), "7");
    assert_eq!(decimal_string(9), "9");
    assert_eq!(decimal_string(10), "10");
    assert_eq!(decimal_string(99), "99");
    assert_eq!(decimal_string(100), "100");
    assert_eq!(decimal_string(1234567890), "1234567890");
    assert_eq!(decimal_string(usize::MAX), usize::MAX.to_string());
    for n in 0..1000usize {
        assert_eq!(decimal_string(n), n.to_string());
    }
}

#[test]
fn build_state_lies_under_the_root() {
    assert_eq!(get_build_dir("/work/repo"), "/work/repo/.bipolar");
    assert_eq!(get_lockfile_path("/work/repo"), "/work/repo/.bipolar/lockfile.toml");
    assert_eq!(get_control_dir("/work/repo"), "/work/repo/.bipolar/.control");
    assert_eq!(get_build_dir("/work/repo/"), "/work/repo/.bipolar");
    assert_eq!(get_lockfile_path(""), ".bipolar/lockfile.toml");
}

#[test]
fn shard_directories_are_numbered() {
    assert_eq!(get_shard_dir("/work/repo", 0), "/work/repo/.bipolar/shard_0");
    assert_eq!(get_shard_dir("/work/repo", 7), "/work/repo/.bipolar/shard_7");
    assert_eq!(get_shard_dir("/work/repo", 12), "/work/repo/.bipolar/shard_12");
    assert_eq!(get_shard_dir("/work/repo/", 305), "/work/repo/.bipolar/shard_305");
}

#[test]
fn links_point_into_the_shared_directory() {
    assert_eq!(symlink_source("/work/repo", &None, "data"), "/work/repo/symlinks/data");
    assert_eq!(
        symlink_source("/work/repo", &Some("shared".to_string()), "data"),
        "/work/repo/shared/data"
    );
    assert_eq!(
        symlink_source("/work/repo", &Some("shared/".to_string()), "a/b"),
        "/work/repo/shared/a/b"
    );
    assert_eq!(
        symlink_source("/work/repo", &Some("/mnt/shared".to_string()), "data"),
        "/mnt/shared/data"
    );
}

#[test]
fn template_glob_matches_everything_below() {
    assert_eq!(template_glob("/work/repo/templates"), "/work/repo/templates/**/*");
    assert_eq!(template_glob(""), "/**/*");
}

#[test]
fn names_with_a_leading_dot_are_hidden() {
    assert!(is_hidden(".env"));
    assert!(is_hidden("."));
    assert!(is_hidden(".."));
    assert!(!is_hidden("env"));
    assert!(!is_hidden("a.env"));
    assert!(!is_hidden(""));
    assert!(!is_hidden("é.txt"));
}
