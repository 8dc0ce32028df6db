use commit_ingest::diff::{ChangeKind, DeltaStatus, FileDelta};
use commit_ingest::history::DateWindow;
use commit_ingest::git::{title_of, Credential, GitProcessor, SyncPlan, WalkSeed};
use commit_ingest::md5::{compute, to_hex};
use commit_ingest::models::RawCommit;

fn delta(status: DeltaStatus, old: Option<&str>, new: Option<&str>) -> FileDelta {
    FileDelta {
        status,
        old_path: old.map(|s| s.to_string()),
        new_path: new.map(|s| s.to_string()),
        origins: Vec::new(),
        patch: None,
    }
}

fn commit(sha: &str, name: &str, email: &str, time: i64, message: &str) -> RawCommit {
    RawCommit {
        sha: sha.to_string(),
        author_name: name.to_string(),
        author_email: email.to_string(),
        time,
        message: message.to_string(),
        deltas: vec![delta(DeltaStatus::Added, None, Some("README.md"))],
    }
}

#[test]
fn digest_is_stable() {
    assert_eq!(compute("https://example.com/a.git"), compute("https://example.com/a.git"));
    assert_ne!(compute("https://example.com/a.git"), compute("https://example.com/b.git"));
    assert!(compute("https://example.com/a.git") <= u64::MAX as u128);
}

#[test]
fn hex_is_lower_case_without_leading_zeros() {
    assert_eq!(to_hex(0), "0");
    assert_eq!(to_hex(9), "9");
    assert_eq!(to_hex(10), "a");
    assert_eq!(to_hex(255), "ff");
    assert_eq!(to_hex(4096), "1000");
    assert_eq!(to_hex(0xdead_beef), "deadbeef");
    assert_eq!(to_hex(u128::MAX), "ffffffffffffffffffffffffffffffff");
}

#[test]
fn repo_path_is_the_digest_under_the_work_dir() {
    let url = "https://example.com/a.git";
    let name = to_hex(compute(url));
    assert_eq!(GitProcessor::new("/tmp/repos").repo_path(url), format!("/tmp/repos/{}", name));
    assert_eq!(GitProcessor::new("/tmp/repos/").repo_path(url), format!("/tmp/repos/{}", name));
    assert_eq!(GitProcessor::new("").repo_path(url), name);
}

#[test]
fn one_url_has_one_working_copy() {
    let p = GitProcessor::new("/work");
    let url = "https://example.com/a.git";
    let first = p.clone_or_fetch(url, "main", None, false, false);
    let second = p.clone_or_fetch(url, "develop", Some("secret"), false, true);
    let (a, b) = match (first, second) {
        (SyncPlan::Clone { path: a, .. }, SyncPlan::FetchBranch { path: b, .. }) => (a, b),
        _ => panic!("a clone and then a fetch were expected"),
    };
    assert_eq!(a, b);
    assert_eq!(a, p.repo_path(url));
}

#[test]
fn missing_copy_is_cloned() {
    let p = GitProcessor::new("/work");
    match p.clone_or_fetch("https://example.com/a.git", "main", Some("tok"), true, false) {
        SyncPlan::Clone { url, branch, credential, .. } => {
            assert_eq!(url, "https://example.com/a.git");
            assert_eq!(branch, "main");
            let c = credential.unwrap();
            assert_eq!(c.username, "x-access-token");
            assert_eq!(c.password, "tok");
        }
        _ => panic!("a clone was expected"),
    }
}

#[test]
fn existing_copy_is_fetched_by_branch() {
    let p = GitProcessor::new("/work");
    match p.clone_or_fetch("https://example.com/a.git", "main", None, false, true) {
        SyncPlan::FetchBranch { refspec, local_ref, credential, .. } => {
            assert_eq!(refspec, "main");
            assert_eq!(local_ref, "refs/heads/main");
            assert!(credential.is_none());
        }
        _ => panic!("a fetch of one branch was expected"),
    }
}

#[test]
fn existing_copy_is_fetched_with_all_branches() {
    let p = GitProcessor::new("/work");
    match p.clone_or_fetch("https://example.com/a.git", "main", None, true, true) {
        SyncPlan::FetchAll { refspec, .. } => {
            assert_eq!(refspec, "refs/heads/*:refs/remotes/origin/*");
        }
        _ => panic!("a fetch of all branches was expected"),
    }
}

#[test]
fn credential_presents_the_token() {
    let c = Credential::from_token("abc");
    assert_eq!(c.username, "x-access-token");
    assert_eq!(c.password, "abc");
}

#[test]
fn walk_prefers_remote_then_local_then_head() {
    let p = GitProcessor::new("/work");
    match p.walk_seed("main", true, true, true) {
        WalkSeed::AllBranches { local, remote } => {
            assert_eq!(local, "refs/heads/*");
            assert_eq!(remote, "refs/remotes/origin/*");
        }
        _ => panic!("a walk from all branches was expected"),
    }
    match p.walk_seed("main", false, true, true) {
        WalkSeed::Remote(name) => assert_eq!(name, "refs/remotes/origin/main"),
        _ => panic!("the remote-tracking reference was expected"),
    }
    match p.walk_seed("main", false, false, true) {
        WalkSeed::Local(name) => assert_eq!(name, "refs/heads/main"),
        _ => panic!("the local reference was expected"),
    }
}

#[test]
fn unknown_branch_falls_back_to_head() {
    let p = GitProcessor::new("/work");
    assert!(matches!(p.walk_seed("no-such-branch", false, false, false), WalkSeed::Head));
}

#[test]
fn title_is_the_first_line() {
    assert_eq!(title_of("Fix bug\n\nLong text"), "Fix bug");
    assert_eq!(title_of("Fix bug\r\nmore"), "Fix bug");
    assert_eq!(title_of("one line"), "one line");
    assert_eq!(title_of("one line\r"), "one line\r");
    assert_eq!(title_of("\r\nsecond"), "");
    assert_eq!(title_of("\r"), "\r");
    assert_eq!(title_of("\nsecond"), "");
    assert_eq!(title_of(""), "");
    assert_eq!(title_of("a\rb\nc"), "a\rb");
}

#[test]
fn changed_files_are_summed_up_line_by_line() {
    let p = GitProcessor::new("/work");
    let deltas = vec![
        delta(DeltaStatus::Added, None, Some("b.rs")),
        delta(DeltaStatus::Deleted, Some("a.rs"), None),
        delta(DeltaStatus::Renamed, Some("old.rs"), Some("new.rs")),
        delta(DeltaStatus::Modified, None, None),
    ];
    let (n, text) = p.get_changed_paths(&deltas);
    assert_eq!(n, 4);
    assert_eq!(text, "ADDED: b.rs\nDELETED: a.rs\nRENAMED: new.rs\nMODIFIED: unknown");
    let (n, text) = p.get_changed_paths(&Vec::new());
    assert_eq!(n, 0);
    assert_eq!(text, "");
}

#[test]
fn parse_commits_keeps_the_date_range() {
    let p = GitProcessor::new("/work");
    let commits = vec![
        commit("c3", "Ann", "ann@example.com", 1706745600, "third"),
        commit("c2", "Ann", "ann@example.com", 1705276800, "second\nbody"),
        commit("c1", "Ann", "ann@example.com", 1704067200, "first"),
    ];
    let r = p.parse_commits(&commits, Some("2024-01-10"), Some("2024-01-31"), None);
    assert_eq!(r.len(), 1);
    assert_eq!(r[0].sha, "c2");
    assert_eq!(r[0].author_name, "Ann");
    assert_eq!(r[0].author_email, "ann@example.com");
    assert_eq!(r[0].commit_date, 1705276800);
    assert_eq!(r[0].message, "second\nbody");
    assert_eq!(r[0].message_title, "second");
    assert_eq!(r[0].files_changed, 1);
    assert_eq!(r[0].insertions, 0);
    assert_eq!(r[0].deletions, 0);
    assert_eq!(r[0].changed_paths, "ADDED: README.md");
    assert_eq!(r[0].files.len(), 1);
    assert_eq!(r[0].files[0].path, "README.md");
    assert_eq!(r[0].files[0].kind, ChangeKind::Added);
    assert_eq!(r[0].id.len(), 36);
}

#[test]
fn parse_commits_keeps_the_order_of_the_walk() {
    let p = GitProcessor::new("/work");
    let commits = vec![
        commit("c3", "Ann", "ann@example.com", 300, "third"),
        commit("c2", "Bob", "bob@example.com", 200, "second"),
        commit("c1", "Ann", "ann@example.com", 100, "first"),
    ];
    let all = p.parse_commits(&commits, None, None, None);
    let shas: Vec<&str> = all.iter().map(|c| c.sha.as_str()).collect();
    assert_eq!(shas, vec!["c3", "c2", "c1"]);
    let anns = p.parse_commits(&commits, None, None, Some("ann"));
    let shas: Vec<&str> = anns.iter().map(|c| c.sha.as_str()).collect();
    assert_eq!(shas, vec!["c3", "c1"]);
    assert_ne!(all[0].id, all[1].id);
}

#[test]
fn parse_commits_filters_by_author() {
    let p = GitProcessor::new("/work");
    let commits = vec![
        commit("a", "Alice", "alice@example.com", 30, "one"),
        commit("b", "Bob Smith", "robert.bob@example.com", 20, "two"),
        commit("c", "Carol", "carol@example.com", 10, "three"),
    ];
    let r = p.parse_commits(&commits, None, None, Some("alice@example.com,bob"));
    let shas: Vec<&str> = r.iter().map(|c| c.sha.as_str()).collect();
    assert_eq!(shas, vec!["a", "b"]);
}

#[test]
fn parse_commits_of_an_empty_walk() {
    let p = GitProcessor::new("/work");
    assert!(p.parse_commits(&Vec::new(), None, None, None).is_empty());
}

#[test]
fn select_commits_takes_a_window() {
    let p = GitProcessor::new("/work");
    let commits = vec![
        commit("c3", "Ann", "ann@example.com", 300, "third"),
        commit("c2", "Bob", "bob@example.com", 200, "second"),
        commit("c1", "Ann", "ann@example.com", 100, "first"),
    ];
    let window = DateWindow { start: Some(150), end: Some(300) };
    let r = p.select_commits(&commits, window, None);
    let shas: Vec<&str> = r.iter().map(|c| c.sha.as_str()).collect();
    assert_eq!(shas, vec!["c3", "c2"]);
    let r = p.select_commits(&commits, window, Some("bob"));
    let shas: Vec<&str> = r.iter().map(|c| c.sha.as_str()).collect();
    assert_eq!(shas, vec!["c2"]);
    let window = DateWindow { start: Some(301), end: None };
    assert!(p.select_commits(&commits, window, None).is_empty());
}

#[test]
fn records_of_a_walk_back_in_time_go_back_in_time() {
    let p = GitProcessor::new("/work");
    let commits = vec![
        commit("c4", "Ann", "ann@example.com", 400, "fourth"),
        commit("c3", "Bob", "bob@example.com", 300, "third"),
        commit("c2", "Ann", "ann@example.com", 300, "second"),
        commit("c1", "Ann", "ann@example.com", 100, "first"),
    ];
    let r = p.parse_commits(&commits, None, None, Some("ann"));
    let times: Vec<i64> = r.iter().map(|c| c.commit_date).collect();
    assert_eq!(times, vec![400, 300, 100]);
}

#[test]
fn records_carry_the_counts_of_the_changes() {
    let p = GitProcessor::new("/work");
    let mut c = commit("c1", "Ann", "ann@example.com", 100, "first");
    c.deltas = vec![
        FileDelta {
            status: DeltaStatus::Modified,
            old_path: Some("a.rs".to_string()),
            new_path: Some("a.rs".to_string()),
            origins: vec!['+', '-', ' ', '+'],
            patch: None,
        },
        FileDelta {
            status: DeltaStatus::Deleted,
            old_path: Some("b.rs".to_string()),
            new_path: None,
            origins: vec!['-', '-', '-'],
            patch: None,
        },
    ];
    let r = p.parse_commits(&vec![c], None, None, None);
    assert_eq!(r[0].files_changed, 2);
    assert_eq!(r[0].insertions, 2);
    assert_eq!(r[0].deletions, 4);
    assert_eq!(r[0].changed_paths, "MODIFIED: a.rs\nDELETED: b.rs");
    assert_eq!(r[0].files[0].additions, 2);
    assert_eq!(r[0].files[0].deletions, 1);
    assert_eq!(r[0].files[1].kind, ChangeKind::Deleted);
    assert_eq!(r[0].files[1].deletions, 3);
}

#[test]
fn different_urls_have_different_working_copies() {
    let p = GitProcessor::new("/work");
    assert_ne!(p.repo_path("https://example.com/a.git"), p.repo_path("https://example.com/b.git"));
}
