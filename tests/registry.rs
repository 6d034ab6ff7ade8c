use gradelib::provider::{ExposedCloneStatus, ExposedCloneTask, GitHubProvider};
use gradelib::registry::CloneRegistry;
use gradelib::traits::Provider;
use gradelib::types::{CloneStatus, ProviderCredentials, RepoCloneTask};

const U: &str = "https://github.com/acme/widgets";

fn urls(list: &[&str]) -> Vec<String> {
    list.iter().map(|s| s.to_string()).collect()
}

#[test]
fn new_registry_entries_are_queued() {
    let r = CloneRegistry::with_urls(&urls(&[U, "git@github.com:a/b", U]));
    assert_eq!(r.snapshot().len(), 2);
    let t = r.get(U).unwrap();
    assert!(matches!(t.status, CloneStatus::Queued));
    assert_eq!(t.url, U);
    assert_eq!(t.temp_dir, None);
    assert!(r.get("https://github.com/x/y").is_none());
}

#[test]
fn clone_state_machine_path() {
    let mut r = CloneRegistry::with_urls(&urls(&[U]));
    assert!(r.begin_clone(U));
    assert!(r.mark_cloning(U, "/tmp/ws1".to_string()));
    let t = r.get(U).unwrap();
    assert!(matches!(t.status, CloneStatus::Cloning(0)));
    assert_eq!(t.temp_dir.as_deref(), Some("/tmp/ws1"));
    assert!(r.mark_completed(U));
    let t = r.get(U).unwrap();
    assert!(matches!(t.status, CloneStatus::Completed));
    assert_eq!(t.temp_dir.as_deref(), Some("/tmp/ws1"));
    assert_eq!(r.path_if_completed(U).unwrap(), "/tmp/ws1");
    // A completed clone is not scheduled again, and stays completed.
    assert!(!r.begin_clone(U));
    assert!(!r.mark_cloning(U, "/tmp/ws2".to_string()));
    assert!(!r.mark_failed(U, "late".to_string()));
    assert!(matches!(r.get(U).unwrap().status, CloneStatus::Completed));
}

#[test]
fn refused_transitions() {
    let mut r = CloneRegistry::with_urls(&urls(&[U]));
    assert!(!r.mark_completed(U));
    assert!(matches!(r.get(U).unwrap().status, CloneStatus::Queued));
    assert!(r.mark_failed(U, "Failed to create temp dir: x".to_string()));
    match r.get(U).unwrap().status {
        CloneStatus::Failed(e) => assert_eq!(e, "Failed to create temp dir: x"),
        _ => panic!("expected a failure"),
    }
    assert!(!r.mark_cloning(U, "/tmp/w".to_string()));
    assert!(!r.mark_cloning("https://github.com/x/y", "/tmp/w".to_string()));
    assert!(r.begin_clone("https://github.com/x/y"));
    assert!(matches!(r.get("https://github.com/x/y").unwrap().status, CloneStatus::Queued));
}

#[test]
fn path_if_completed_errors() {
    let mut r = CloneRegistry::with_urls(&urls(&[U]));
    assert_eq!(
        r.path_if_completed("https://github.com/x/y").unwrap_err(),
        "Repository https://github.com/x/y not found in managed repositories"
    );
    assert_eq!(
        r.path_if_completed(U).unwrap_err(),
        "Repository is not in a completed state: queued"
    );
    r.mark_cloning(U, "/w".to_string());
    assert_eq!(
        r.path_if_completed(U).unwrap_err(),
        "Repository is not in a completed state: cloning"
    );
}

#[test]
fn select_completed_for_branches() {
    let other = "https://github.com/o/q";
    let mut r = CloneRegistry::with_urls(&urls(&[U, other]));
    r.mark_cloning(U, "/w".to_string());
    r.mark_completed(U);
    let (paths, errors) = r.select_completed(&urls(&[U, other, "https://github.com/z/z"]));
    assert_eq!(paths, vec![(U.to_string(), "/w".to_string())]);
    assert_eq!(errors.len(), 2);
    assert_eq!(errors[0].0, other);
    assert_eq!(errors[0].1, "Repository https://github.com/o/q is not in completed state");
    assert_eq!(errors[1].1, "Repository https://github.com/z/z is not managed");
}

#[test]
fn exposed_status_names() {
    let cases = [
        (CloneStatus::Queued, "queued", None, None),
        (CloneStatus::Cloning(0), "cloning", Some(0u8), None),
        (CloneStatus::Completed, "completed", None, None),
        (CloneStatus::Failed("boom".to_string()), "failed", None, Some("boom")),
    ];
    for (s, name, progress, error) in cases {
        let e = ExposedCloneStatus::from(s);
        assert_eq!(e.status_type, name);
        assert_eq!(e.progress, progress);
        assert_eq!(e.error.as_deref(), error);
    }
    let t = ExposedCloneTask::from(RepoCloneTask {
        url: U.to_string(),
        status: CloneStatus::Cloning(0),
        temp_dir: Some("/w".to_string()),
    });
    assert_eq!(t.url, U);
    assert_eq!(t.temp_dir.as_deref(), Some("/w"));
    assert_eq!(t.status.status_type, "cloning");
}

#[test]
fn provider_with_repos_and_tasks_view() {
    let mut p = GitHubProvider::with_repos("me".to_string(), "tok".to_string(), &[U, "git@github.com:a/b"]);
    assert_eq!(p.name(), "github");
    match p.get_credentials() {
        ProviderCredentials::Basic { username, token } => {
            assert_eq!(username, "me");
            assert_eq!(token, "tok");
        }
        _ => panic!("expected basic credentials"),
    }
    let view = p.fetch_clone_tasks();
    assert_eq!(view.len(), 2);
    assert!(view.iter().all(|t| t.status.status_type == "queued"));
    assert!(p.commit_target(U).is_err());
    p.tasks.mark_cloning(U, "/ws".to_string());
    p.tasks.mark_completed(U);
    assert_eq!(
        p.commit_target(U).unwrap(),
        ("/ws".to_string(), "acme/widgets".to_string())
    );
    assert!(GitHubProvider::new("a".to_string(), "b".to_string()).fetch_clone_tasks().is_empty());
}
