use agentpacknest::utils::ignore::IgnorePatterns;

#[test]
fn empty_file_matches_nothing() {
    let p = IgnorePatterns::default();
    assert!(!p.is_ignored("anything.txt"));
}

#[test]
fn exact_filename_match() {
    let p = IgnorePatterns::from_str("secrets.env\n");
    assert!(p.is_ignored("secrets.env"));
    assert!(p.is_ignored("dir/secrets.env"));
    assert!(!p.is_ignored("secrets.env.bak"));
}

#[test]
fn glob_match() {
    let p = IgnorePatterns::from_str("*.log\n*.tmp\n");
    assert!(p.is_ignored("debug.log"));
    assert!(p.is_ignored("logs/debug.log"));
    assert!(p.is_ignored("file.tmp"));
    assert!(!p.is_ignored("debug.log.bak"));
}

#[test]
fn directory_pattern() {
    let p = IgnorePatterns::from_str("cache\n");
    assert!(p.is_ignored("cache/some-file"));
    assert!(p.is_ignored("my/cache/dir/file"));
    assert!(!p.is_ignored("cache_file"));
}

#[test]
fn prefix_match() {
    let p = IgnorePatterns::from_str("/tmp\n");
    assert!(p.is_ignored("tmp/file"));
    assert!(p.is_ignored("tmp/deep/file"));
    assert!(!p.is_ignored("not-tmp/file"));
}

#[test]
fn comments_and_blank_lines() {
    let p = IgnorePatterns::from_str("# comment\n\n*.log\n  \n# another\n");
    assert_eq!(p.len(), 1);
    assert!(p.is_ignored("test.log"));
}

#[test]
fn from_file_nonexistent() {
    let p = IgnorePatterns::load(None);
    assert!(p.is_empty());
}

#[test]
fn glob_needs_a_name_before_the_extension() {
    let p = IgnorePatterns::from_str("*.log\n");
    assert!(!p.is_ignored(".log"));
    assert!(p.is_ignored("a.log"));
    assert!(p.is_ignored("/abs/x.log"));
}

#[test]
fn ignore_patterns_filter_files() {
    let patterns = IgnorePatterns::from_str("*.log\nsecrets.env\ncache\n");
    assert!(!patterns.is_empty());
    assert_eq!(patterns.len(), 3);
    assert!(patterns.is_ignored("debug.log"));
    assert!(patterns.is_ignored("logs/debug.log"));
    assert!(patterns.is_ignored("secrets.env"));
    assert!(patterns.is_ignored("my/cache/file.txt"));
    assert!(!patterns.is_ignored("config.json"));
    assert!(!patterns.is_ignored("agent/settings.json"));
}

#[test]
fn glob_keeps_the_dot() {
    let p = IgnorePatterns::from_str("*.log\n");
    assert!(p.is_ignored("a.log"));
    assert!(p.is_ignored("logs/a.log"));
    assert!(!p.is_ignored("catalog"));
    assert!(!p.is_ignored("dir/backlog"));
}

#[test]
fn joined_files_ignore_what_either_ignores() {
    let a = "*.log";
    let b = "cache";
    let joined = IgnorePatterns::from_str(&format!("{}\n{}", a, b));
    let pa = IgnorePatterns::from_str(a);
    let pb = IgnorePatterns::from_str(b);
    for rel in ["debug.log", "cache/x.txt", "src/main.rs", "cache", "catalog"] {
        assert_eq!(joined.is_ignored(rel), pa.is_ignored(rel) || pb.is_ignored(rel));
    }
    assert!(joined.is_ignored("debug.log"));
    assert!(joined.is_ignored("cache/x.txt"));
    assert!(!joined.is_ignored("src/main.rs"));
    assert!(!IgnorePatterns::default().is_ignored("debug.log"));
}
