//! Pull requests: a listing entry joined with the statistics of its detail
//! request, and the owner and name that the requests are made for.

use vstd::prelude::*;
use crate::types::{opt_view, PullRequestInfo};
use crate::utils::{parse_repo_url, repo_parts};

verus! {

/// A pull request as the listing gives it.
#[derive(Clone, Debug)]
pub struct PullRequestBasic {
    pub id: i64,
    pub number: i32,
    pub title: String,
    pub state: String,
    pub created_at: String,
    pub updated_at: String,
    pub closed_at: Option<String>,
    pub merged_at: Option<String>,
    pub user_login: String,
    pub user_id: i64,
    pub body: Option<String>,
    pub draft: bool,
    pub labels: Vec<String>,
}

/// The statistics of a pull request, from its detail request.
#[derive(Clone, Debug)]
pub struct PullRequestDetail {
    pub mergeable: Option<bool>,
    pub merged: bool,
    pub merged_by: Option<String>,
    pub comments: i32,
    pub commits: i32,
    pub additions: i32,
    pub deletions: i32,
    pub changed_files: i32,
}

/// The pull request `p` is the listing entry `b` with the statistics `d`;
/// without them the counts are 0, nothing is known of merging but whether
/// a merge time is given.
pub open spec fn joined(p: PullRequestInfo, b: PullRequestBasic, d: Option<PullRequestDetail>) -> bool {
    &&& p.id == b.id && p.number == b.number && p.title@ == b.title@ && p.state@ == b.state@
    &&& p.created_at@ == b.created_at@ && p.updated_at@ == b.updated_at@
    &&& opt_view(p.closed_at) == opt_view(b.closed_at) && opt_view(p.merged_at) == opt_view(b.merged_at)
    &&& p.user_login@ == b.user_login@ && p.user_id == b.user_id && opt_view(p.body) == opt_view(b.body)
    &&& p.draft == b.draft && p.labels@.len() == b.labels@.len()
    &&& forall|i: int| 0 <= i < p.labels@.len() ==> (#[trigger] p.labels@[i])@ == b.labels@[i]@
    &&& match d {
        Some(d) => p.comments == d.comments && p.commits == d.commits && p.additions == d.additions
            && p.deletions == d.deletions && p.changed_files == d.changed_files && p.mergeable
            == d.mergeable && p.merged == d.merged && opt_view(p.merged_by) == opt_view(d.merged_by),
        None => p.comments == 0 && p.commits == 0 && p.additions == 0 && p.deletions == 0
            && p.changed_files == 0 && p.mergeable is None && p.merged == (b.merged_at is Some)
            && p.merged_by is None,
    }
}

/// The pull request from its listing entry and, where its detail request
/// succeeded, its statistics.
pub fn pull_request_from_parts(b: PullRequestBasic, d: Option<PullRequestDetail>) -> (p: PullRequestInfo)
    ensures
        joined(p, b, d),
{
    let merged_at_known = b.merged_at.is_some();
    let ghost gb = b;
    let p = match d {
        Some(d) => PullRequestInfo {
            id: b.id,
            number: b.number,
            title: b.title,
            state: b.state,
            created_at: b.created_at,
            updated_at: b.updated_at,
            closed_at: b.closed_at,
            merged_at: b.merged_at,
            user_login: b.user_login,
            user_id: b.user_id,
            body: b.body,
            comments: d.comments,
            commits: d.commits,
            additions: d.additions,
            deletions: d.deletions,
            changed_files: d.changed_files,
            mergeable: d.mergeable,
            labels: b.labels,
            draft: b.draft,
            merged: d.merged,
            merged_by: d.merged_by,
        },
        None => PullRequestInfo {
            id: b.id,
            number: b.number,
            title: b.title,
            state: b.state,
            created_at: b.created_at,
            updated_at: b.updated_at,
            closed_at: b.closed_at,
            merged_at: b.merged_at,
            user_login: b.user_login,
            user_id: b.user_id,
            body: b.body,
            comments: 0,
            commits: 0,
            additions: 0,
            deletions: 0,
            changed_files: 0,
            mergeable: None,
            labels: b.labels,
            draft: b.draft,
            merged: merged_at_known,
            merged_by: None,
        },
    };
    p
}

/// The owner and name of the repository at `repo_url`.
pub fn parse_repo_parts(repo_url: &str) -> (r: Result<(String, String), String>)
    ensures
        match repo_parts(repo_url@) {
            Some((o, n)) => r matches Ok((ro, rn)) && ro@ == o && rn@ == n,
            None => r matches Err(e) && e@ == "Invalid repository URL format: "@ + repo_url@,
        },
{
    match parse_repo_url(repo_url) {
        Some(parts) => Ok(parts),
        None => {
            let mut e = String::from_str("Invalid repository URL format: ");
            e.append(repo_url);
            Err(e)
        },
    }
}

} // verus!
