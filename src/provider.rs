//! The provider for the GitHub forge: its credentials and its registry of
//! clone tasks, and the view of that registry that is shown outside.

use vstd::prelude::*;
use crate::registry::{copy_task, status_name, status_name_of, CloneRegistry};
use crate::text::{chars_of, has_prefix, starts_with, string_of};
use crate::traits::Provider;
use crate::utils::{extract_repo_name, slug_of};
use crate::types::{opt_view, CloneStatus, CloneStatusView, ProviderCredentials, RepoCloneTask};

verus! {

/// A status as it is shown outside: its name, the progress of a clone under
/// way and the reason of a failure.
#[derive(Clone, Debug)]
pub struct ExposedCloneStatus {
    pub status_type: String,
    pub progress: Option<u8>,
    pub error: Option<String>,
}

/// A clone task as it is shown outside.
#[derive(Clone, Debug)]
pub struct ExposedCloneTask {
    pub url: String,
    pub status: ExposedCloneStatus,
    pub temp_dir: Option<String>,
}

/// `e` shows the status `s`.
pub open spec fn shows_status(e: ExposedCloneStatus, s: CloneStatusView) -> bool {
    &&& e.status_type@ == status_name(s)
    &&& e.progress == match s {
        CloneStatusView::Cloning(p) => Some(p),
        _ => None,
    }
    &&& opt_view(e.error) == match s {
        CloneStatusView::Failed(m) => Some(m),
        _ => None,
    }
}

impl ExposedCloneStatus {
    pub fn from(status: CloneStatus) -> (r: Self)
        ensures
            shows_status(r, status@),
    {
        let status_type = String::from_str(status_name_of(&status));
        match status {
            CloneStatus::Cloning(p) => ExposedCloneStatus { status_type, progress: Some(p), error: None },
            CloneStatus::Failed(e) => ExposedCloneStatus { status_type, progress: None, error: Some(e) },
            _ => ExposedCloneStatus { status_type, progress: None, error: None },
        }
    }
}

impl ExposedCloneTask {
    pub fn from(task: RepoCloneTask) -> (r: Self)
        ensures
            r.url@ == task.url@,
            shows_status(r.status, task.status@),
            opt_view(r.temp_dir) == opt_view(task.temp_dir),
    {
        ExposedCloneTask { url: task.url, status: ExposedCloneStatus::from(task.status), temp_dir: task.temp_dir }
    }
}

/// Every status is shown under one of four names, and statuses of different
/// kinds under different names.
pub proof fn lemma_status_names(s: CloneStatusView, t: CloneStatusView)
    ensures
        status_name(s) == "queued"@ || status_name(s) == "cloning"@ || status_name(s)
            == "completed"@ || status_name(s) == "failed"@,
        status_name(s) == status_name(t) <==> (s is Queued && t is Queued) || (s is Cloning
            && t is Cloning) || (s is Completed && t is Completed) || (s is Failed && t is Failed),
{
    reveal_strlit("queued");
    reveal_strlit("cloning");
    reveal_strlit("completed");
    reveal_strlit("failed");
    assert("queued"@[0] != "cloning"@[0]);
    assert("queued"@[0] != "completed"@[0]);
    assert("queued"@[0] != "failed"@[0]);
    assert("cloning"@.len() != "completed"@.len());
    assert("cloning"@[0] != "failed"@[0]);
    assert("completed"@[0] != "failed"@[0]);
}

/// The URL that the clone is made from: an `https://github.com/` URL with
/// `user:token@` put before the host; any other URL as it is.
pub open spec fn authenticated_url(url: Seq<char>, user: Seq<char>, token: Seq<char>) -> Seq<char> {
    if starts_with(url, "https://github.com/"@) {
        "https://"@ + user + ":"@ + token + "@github.com/"@ + url.skip(
            "https://github.com/"@.len() as int,
        )
    } else {
        url
    }
}

/// The URL to clone `url` from, with the credentials in it.
pub fn clone_url(url: &str, user: &str, token: &str) -> (r: String)
    ensures
        r@ == authenticated_url(url@, user@, token@),
{
    let v = chars_of(url);
    let host = chars_of("https://github.com/");
    assert(v@.subrange(0, v.len() as int) == v@);
    if has_prefix(&v, 0, v.len(), &host) {
        assert(url@.skip(host.len() as int) == v@.subrange(host.len() as int, v.len() as int));
        let mut r = String::from_str("https://");
        r.append(user);
        r.append(":");
        r.append(token);
        r.append("@github.com/");
        let rest = string_of(&v, host.len(), v.len());
        r.append(rest.as_str());
        r
    } else {
        String::from_str(url)
    }
}

/// The GitHub provider: the credentials it acts with and its clone tasks.
pub struct GitHubProvider {
    pub username: String,
    pub token: String,
    pub tasks: CloneRegistry,
}

impl GitHubProvider {
    /// A provider with no clone tasks.
    pub fn new(username: String, token: String) -> (r: Self)
        ensures
            r.username@ == username@,
            r.token@ == token@,
            r.tasks.wf(),
            r.tasks@.is_empty(),
    {
        let tasks = CloneRegistry::new();
        GitHubProvider { username, token, tasks }
    }

    /// A provider with a `Queued` clone task for each of `urls`.
    pub fn with_repos(username: String, token: String, urls: &[&str]) -> (r: Self)
        ensures
            r.username@ == username@,
            r.token@ == token@,
            r.tasks.wf(),
            forall|u: Seq<char>| #[trigger] r.tasks@.contains_key(u) <==> exists|i: int| 0 <= i < urls@.len() && urls@[i]@ == u,
            forall|u: Seq<char>| #[trigger] r.tasks@.contains_key(u) ==> r.tasks@[u].status is Queued && r.tasks@[u].url == u && r.tasks@[u].temp_dir is None,
    {
        let mut tasks = CloneRegistry::new();
        let mut i: usize = 0;
        while i < urls.len()
            invariant
                i <= urls@.len(),
                tasks.wf(),
                forall|u: Seq<char>| #[trigger] tasks@.contains_key(u) <==> exists|k: int| 0 <= k < i && urls@[k]@ == u,
                forall|u: Seq<char>| #[trigger] tasks@.contains_key(u) ==> tasks@[u].status is Queued && tasks@[u].url == u && tasks@[u].temp_dir is None,
            decreases urls@.len() - i,
        {
            tasks.insert_if_absent(urls[i]);
            assert forall|u: Seq<char>| #[trigger] tasks@.contains_key(u) <==> exists|k: int| 0 <= k < i + 1 && urls@[k]@ == u by {
                if u == urls@[i as int]@ {
                    assert(0 <= i < i + 1 && urls@[i as int]@ == u);
                }
            }
            i = i + 1;
        }
        GitHubProvider { username, token, tasks }
    }

    /// What the commit analysis of `url` reads: the workspace of its
    /// completed clone and its slug `owner/name`.
    pub fn commit_target(&self, url: &str) -> (r: Result<(String, String), String>)
        requires
            self.tasks.wf(),
        ensures
            r matches Ok((p, n)) ==> self.tasks@.contains_key(url@) && self.tasks@[url@].status is Completed
                && self.tasks@[url@].temp_dir == Some(p@) && slug_of(url@) == Some(n@),
            (self.tasks@.contains_key(url@) && self.tasks@[url@].status is Completed
                && self.tasks@[url@].temp_dir is Some && slug_of(url@) is Some) ==> r is Ok,
    {
        let path = self.tasks.path_if_completed(url)?;
        let name = extract_repo_name(url)?;
        Ok((path, name))
    }

    /// Every clone task, as it is shown outside.
    pub fn fetch_clone_tasks(&self) -> (r: Vec<ExposedCloneTask>)
        requires
            self.tasks.wf(),
        ensures
            forall|i: int| 0 <= i < r.len() ==> #[trigger] self.tasks@.contains_key(r@[i].url@)
                && shows_status(r@[i].status, self.tasks@[r@[i].url@].status)
                && opt_view(r@[i].temp_dir) == self.tasks@[r@[i].url@].temp_dir,
            forall|u: Seq<char>| #[trigger] self.tasks@.contains_key(u) ==> exists|i: int| 0 <= i < r.len() && r@[i].url@ == u,
            forall|i: int, j: int| 0 <= i < j < r.len() ==> r@[i].url@ != r@[j].url@,
    {
        let snap = self.tasks.snapshot();
        let mut r: Vec<ExposedCloneTask> = Vec::new();
        let mut i: usize = 0;
        while i < snap.len()
            invariant
                i <= snap.len(),
                r.len() == i,
                forall|k: int| 0 <= k < i ==> (#[trigger] r@[k]).url@ == snap@[k].url@
                    && shows_status(r@[k].status, snap@[k].status@)
                    && opt_view(r@[k].temp_dir) == opt_view(snap@[k].temp_dir),
            decreases snap.len() - i,
        {
            r.push(ExposedCloneTask::from(copy_task(&snap[i])));
            i = i + 1;
        }
        assert forall|k: int| 0 <= k < r.len() implies #[trigger] self.tasks@.contains_key(r@[k].url@)
            && shows_status(r@[k].status, self.tasks@[r@[k].url@].status)
            && opt_view(r@[k].temp_dir) == self.tasks@[r@[k].url@].temp_dir by {
            assert(self.tasks@.contains_key(snap@[k].url@));
        }
        assert forall|u: Seq<char>| #[trigger] self.tasks@.contains_key(u) implies exists|k: int| 0 <= k < r.len() && r@[k].url@ == u by {
            let k = choose|k: int| 0 <= k < snap.len() && snap@[k].url@ == u;
            assert(r@[k].url@ == u);
        }
        assert forall|a: int, b: int| 0 <= a < b < r.len() implies r@[a].url@ != r@[b].url@ by {
            assert(r@[a].url@ == snap@[a].url@);
            assert(r@[b].url@ == snap@[b].url@);
        }
        r
    }
}

impl Provider for GitHubProvider {
    fn name(&self) -> &str {
        "github"
    }

    fn get_credentials(&self) -> ProviderCredentials {
        ProviderCredentials::Basic { username: self.username.clone(), token: self.token.clone() }
    }
}

} // verus!
