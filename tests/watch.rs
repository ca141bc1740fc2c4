use demongrep::watch::{ChangeKind, FileEvent, FileWatcher, RawChange};

#[test]
fn test_should_ignore() {
    let watcher = FileWatcher::new("/tmp".to_string());

    assert!(watcher.should_ignore("/tmp/.git/config"));
    assert!(watcher.should_ignore("/tmp/node_modules/foo"));
    assert!(watcher.should_ignore("/tmp/Cargo.lock"));
    assert!(watcher.should_ignore("/tmp/.hidden_file"));

    assert!(!watcher.should_ignore("/tmp/src/main.rs"));
    assert!(!watcher.should_ignore("/tmp/.gitignore"));
}

#[test]
fn extra_patterns_apply() {
    let w = FileWatcher::new("/r".to_string()).with_ignore_patterns(vec!["*.md".to_string(), "vendor".to_string()]);
    assert_eq!(w.ignore_patterns.len(), 10);
    assert!(w.should_ignore("/r/README.md"));
    assert!(w.should_ignore("/r/vendor/x.rs"));
    assert!(!w.should_ignore("/r/src/lib.rs"));
}

#[test]
fn batch_becomes_deduplicated_events() {
    let w = FileWatcher::new("/r".to_string());
    let ch = |kind, path: &str, exists| RawChange { kind, path: path.to_string(), exists };
    let batch = vec![
        ch(ChangeKind::Modified, "/r/a.rs", true),
        ch(ChangeKind::Modified, "/r/a.rs", true),
        ch(ChangeKind::Removed, "/r/b.rs", false),
        ch(ChangeKind::Created, "/r/c.rs", false),
        ch(ChangeKind::Created, "/r/target/x", true),
        ch(ChangeKind::Other, "/r/d.rs", true),
    ];
    let events = w.collect_events(&batch);
    assert_eq!(events.len(), 2);
    assert!(matches!(&events[0], FileEvent::Modified(p) if p == "/r/a.rs"));
    assert!(matches!(&events[1], FileEvent::Deleted(p) if p == "/r/b.rs"));
}
