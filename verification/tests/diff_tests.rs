use commit_ingest::diff::{count_lines, diff, ChangeKind, DeltaStatus, FileDelta};

fn delta(status: DeltaStatus, old: Option<&str>, new: Option<&str>, origins: &str) -> FileDelta {
    FileDelta {
        status,
        old_path: old.map(|s| s.to_string()),
        new_path: new.map(|s| s.to_string()),
        origins: origins.chars().collect(),
        patch: None,
    }
}

#[test]
fn statuses_are_classified() {
    assert_eq!(DeltaStatus::Added.classify(), ChangeKind::Added);
    assert_eq!(DeltaStatus::Deleted.classify(), ChangeKind::Deleted);
    assert_eq!(DeltaStatus::Modified.classify(), ChangeKind::Modified);
    assert_eq!(DeltaStatus::Renamed.classify(), ChangeKind::Renamed);
    assert_eq!(DeltaStatus::Copied.classify(), ChangeKind::Copied);
}

#[test]
fn other_statuses_count_as_modified() {
    assert_eq!(DeltaStatus::Unmodified.classify(), ChangeKind::Modified);
    assert_eq!(DeltaStatus::Ignored.classify(), ChangeKind::Modified);
    assert_eq!(DeltaStatus::Untracked.classify(), ChangeKind::Modified);
    assert_eq!(DeltaStatus::Typechange.classify(), ChangeKind::Modified);
    assert_eq!(DeltaStatus::Unreadable.classify(), ChangeKind::Modified);
    assert_eq!(DeltaStatus::Conflicted.classify(), ChangeKind::Modified);
}

#[test]
fn kinds_have_names() {
    assert_eq!(ChangeKind::Added.name(), "ADDED");
    assert_eq!(ChangeKind::Deleted.name(), "DELETED");
    assert_eq!(ChangeKind::Modified.name(), "MODIFIED");
    assert_eq!(ChangeKind::Renamed.name(), "RENAMED");
    assert_eq!(ChangeKind::Copied.name(), "COPIED");
}

#[test]
fn lines_are_counted_by_marker() {
    let origins: Vec<char> = "++ -+ --=".chars().collect();
    assert_eq!(count_lines(&origins, '+'), 3);
    assert_eq!(count_lines(&origins, '-'), 3);
    assert_eq!(count_lines(&Vec::new(), '+'), 0);
}

#[test]
fn diff_sums_up_the_files() {
    let deltas = vec![
        delta(DeltaStatus::Modified, Some("src/b.rs"), Some("src/b.rs"), " +-+ "),
        delta(DeltaStatus::Added, None, Some("src/a.rs"), "+++"),
        delta(DeltaStatus::Deleted, Some("gone.rs"), None, "--"),
        delta(DeltaStatus::Renamed, Some("old.rs"), Some("new.rs"), ""),
        delta(DeltaStatus::Typechange, Some("link"), Some("link"), ""),
    ];
    let r = diff(&deltas);
    assert_eq!(r.files_changed, 5);
    assert_eq!(r.insertions, 5);
    assert_eq!(r.deletions, 3);
    assert_eq!(
        r.summary,
        "MODIFIED: src/b.rs\nADDED: src/a.rs\nDELETED: gone.rs\nRENAMED: new.rs\nMODIFIED: link"
    );
    assert_eq!(r.files.len(), 5);
    assert_eq!(r.files[0].path, "src/b.rs");
    assert_eq!(r.files[0].kind, ChangeKind::Modified);
    assert_eq!(r.files[0].additions, 2);
    assert_eq!(r.files[0].deletions, 1);
    assert_eq!(r.files[2].path, "gone.rs");
    assert_eq!(r.files[2].kind, ChangeKind::Deleted);
    assert_eq!(r.files[2].deletions, 2);
    assert_eq!(r.files[3].additions, 0);
    assert_eq!(r.files[3].deletions, 0);
}

#[test]
fn diff_of_nothing() {
    let r = diff(&Vec::new());
    assert_eq!(r.files_changed, 0);
    assert_eq!(r.insertions, 0);
    assert_eq!(r.deletions, 0);
    assert_eq!(r.summary, "");
    assert!(r.files.is_empty());
}

#[test]
fn root_commit_adds_every_line() {
    let deltas = vec![
        delta(DeltaStatus::Added, None, Some("README.md"), "++++"),
        delta(DeltaStatus::Added, None, Some("src/lib.rs"), "++"),
    ];
    let r = diff(&deltas);
    assert_eq!(r.deletions, 0);
    assert_eq!(r.insertions, 6);
    assert_eq!(r.files[0].kind, ChangeKind::Added);
    assert_eq!(r.files[0].additions, 4);
    assert_eq!(r.files[0].deletions, 0);
    assert_eq!(r.files[1].kind, ChangeKind::Added);
    assert_eq!(r.files[1].additions, 2);
    assert_eq!(r.summary, "ADDED: README.md\nADDED: src/lib.rs");
}

#[test]
fn patch_text_is_carried_over() {
    let mut d = delta(DeltaStatus::Modified, Some("a"), Some("a"), "+");
    d.patch = Some("@@ -0,0 +1 @@\n+x\n".to_string());
    let file = d.changed_file();
    assert_eq!(file.patch, Some("@@ -0,0 +1 @@\n+x\n".to_string()));
    assert_eq!(d.line(), "MODIFIED: a");
    assert_eq!(d.reported_path(), "a");
}
