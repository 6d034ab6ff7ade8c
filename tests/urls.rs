use gradelib::endpoints::{
    collaborators_url, issues_url, pull_detail_url, pulls_url, rate_limit_url, user_url,
};
use gradelib::pull_requests::parse_repo_parts;
use gradelib::provider::clone_url;
use gradelib::utils::{extract_repo_name, parse_repo_url};

#[test]
fn https_url_with_git_suffix() {
    let (o, r) = parse_repo_url("https://github.com/acme/widgets.git").unwrap();
    assert_eq!(o, "acme");
    assert_eq!(r, "widgets");
}

#[test]
fn ssh_url_without_suffix() {
    let (o, r) = parse_repo_url("git@github.com:acme/widgets").unwrap();
    assert_eq!(o, "acme");
    assert_eq!(r, "widgets");
}

#[test]
fn unsupported_scheme() {
    assert_eq!(parse_repo_url("ftp://example.com/foo"), None);
}

#[test]
fn slug_round_trip_forms() {
    for u in [
        "https://github.com/O/R",
        "https://github.com/O/R.git",
        "git@github.com:O/R.git",
    ] {
        assert_eq!(extract_repo_name(u).unwrap(), "O/R");
    }
}

#[test]
fn slug_errors() {
    assert_eq!(
        extract_repo_name("https://github.com/acme").unwrap_err(),
        "Invalid GitHub URL format"
    );
    assert_eq!(
        extract_repo_name("ftp://example.com/foo").unwrap_err(),
        "Unsupported URL format: ftp://example.com/foo"
    );
    assert_eq!(extract_repo_name("https://github.com/a/b.git.git/tree").unwrap(), "a/b");
}

#[test]
fn repo_parts_error() {
    assert_eq!(
        parse_repo_parts("http://github.com/a/b").unwrap_err(),
        "Invalid repository URL format: http://github.com/a/b"
    );
    assert_eq!(
        parse_repo_parts("git@github.com:a/b.git").unwrap(),
        ("a".to_string(), "b".to_string())
    );
}

#[test]
fn clone_url_carries_credentials() {
    assert_eq!(
        clone_url("https://github.com/acme/widgets", "u", "t"),
        "https://u:t@github.com/acme/widgets"
    );
    assert_eq!(
        clone_url("git@github.com:acme/widgets", "u", "t"),
        "git@github.com:acme/widgets"
    );
}

#[test]
fn endpoint_addresses() {
    assert_eq!(
        collaborators_url("o", "r", 12),
        "https://api.github.com/repos/o/r/collaborators?per_page=100&page=12"
    );
    assert_eq!(
        issues_url("o", "r", None, 1),
        "https://api.github.com/repos/o/r/issues?state=all&per_page=100&page=1"
    );
    assert_eq!(
        pulls_url("o", "r", Some("open"), 305),
        "https://api.github.com/repos/o/r/pulls?state=open&per_page=100&page=305"
    );
    assert_eq!(pull_detail_url("o", "r", 42), "https://api.github.com/repos/o/r/pulls/42");
    assert_eq!(pull_detail_url("o", "r", -3), "https://api.github.com/repos/o/r/pulls/-3");
    assert_eq!(user_url("octo"), "https://api.github.com/users/octo");
    assert_eq!(rate_limit_url(), "https://api.github.com/rate_limit");
}
