//! Records produced by the analyses, and the state of a clone task.

use vstd::prelude::*;

verus! {

/// Credentials for a code-forge provider.
#[derive(Clone, Debug)]
pub enum ProviderCredentials {
    Basic { username: String, token: String },
    OAuth { token: String },
    Anonymous,
}

/// One commit of a repository's log.
#[derive(Clone, Debug)]
pub struct CommitInfo {
    pub sha: String,
    pub repo_name: String,
    pub message: String,
    pub author_name: String,
    pub author_email: String,
    pub author_timestamp: i64,
    pub author_offset: i32,
    pub committer_name: String,
    pub committer_email: String,
    pub committer_timestamp: i64,
    pub committer_offset: i32,
    pub additions: usize,
    pub deletions: usize,
    pub is_merge: bool,
}

/// The authorship of one line of a file.
#[derive(Clone, Debug)]
pub struct BlameLineInfo {
    pub commit_id: String,
    pub author_name: String,
    pub author_email: String,
    pub orig_line_no: usize,
    pub final_line_no: usize,
    pub line_content: String,
}

/// One local or remote branch.
#[derive(Clone, Debug)]
pub struct BranchInfo {
    pub name: String,
    pub remote_name: Option<String>,
    pub is_remote: bool,
    pub commit_id: String,
    pub commit_message: String,
    pub author_name: String,
    pub author_email: String,
    pub author_time: i64,
    pub is_head: bool,
}

/// A collaborator of a repository.
#[derive(Clone, Debug)]
pub struct CollaboratorInfo {
    pub login: String,
    pub github_id: i64,
    pub full_name: Option<String>,
    pub email: Option<String>,
    pub avatar_url: Option<String>,
}

/// An issue of a repository.
#[derive(Clone, Debug)]
pub struct IssueInfo {
    pub id: i64,
    pub number: i32,
    pub title: String,
    pub state: String,
    pub created_at: String,
    pub updated_at: String,
    pub closed_at: Option<String>,
    pub user_login: String,
    pub user_id: i64,
    pub body: Option<String>,
    pub comments_count: i32,
    pub is_pull_request: bool,
    pub labels: Vec<String>,
    pub assignees: Vec<String>,
    pub milestone: Option<String>,
    pub locked: bool,
    pub html_url: String,
}

/// A pull request of a repository, with its aggregate statistics.
#[derive(Clone, Debug)]
pub struct PullRequestInfo {
    pub id: i64,
    pub number: i32,
    pub title: String,
    pub state: String,
    pub created_at: String,
    pub updated_at: String,
    pub closed_at: Option<String>,
    pub merged_at: Option<String>,
    pub user_login: String,
    pub user_id: i64,
    pub body: Option<String>,
    pub comments: i32,
    pub commits: i32,
    pub additions: i32,
    pub deletions: i32,
    pub changed_files: i32,
    pub mergeable: Option<bool>,
    pub labels: Vec<String>,
    pub draft: bool,
    pub merged: bool,
    pub merged_by: Option<String>,
}

/// The state of one clone: `Queued`, then `Cloning`, then `Completed` or
/// `Failed`. The percentage of `Cloning` is not advanced yet: it stays 0.
#[derive(Clone, Debug)]
pub enum CloneStatus {
    Queued,
    Cloning(u8),
    Completed,
    Failed(String),
}

/// `CloneStatus` with its text as a character sequence.
pub ghost enum CloneStatusView {
    Queued,
    Cloning(u8),
    Completed,
    Failed(Seq<char>),
}

impl View for CloneStatus {
    type V = CloneStatusView;

    open spec fn view(&self) -> CloneStatusView {
        match self {
            CloneStatus::Queued => CloneStatusView::Queued,
            CloneStatus::Cloning(p) => CloneStatusView::Cloning(*p),
            CloneStatus::Completed => CloneStatusView::Completed,
            CloneStatus::Failed(e) => CloneStatusView::Failed(e@),
        }
    }
}

/// One clone task: the repository URL, its status and, once cloning has
/// begun, the directory it is cloned into.
#[derive(Clone, Debug)]
pub struct RepoCloneTask {
    pub url: String,
    pub status: CloneStatus,
    pub temp_dir: Option<String>,
}

pub ghost struct RepoCloneTaskView {
    pub url: Seq<char>,
    pub status: CloneStatusView,
    pub temp_dir: Option<Seq<char>>,
}

pub open spec fn opt_view(o: Option<String>) -> Option<Seq<char>> {
    match o {
        Some(s) => Some(s@),
        None => None,
    }
}

impl View for RepoCloneTask {
    type V = RepoCloneTaskView;

    open spec fn view(&self) -> RepoCloneTaskView {
        RepoCloneTaskView { url: self.url@, status: self.status@, temp_dir: opt_view(self.temp_dir) }
    }
}

} // verus!
