//! The clone task registry: one entry per repository URL, each following
//! `Queued -> Cloning -> Completed | Failed`. A transition that the state
//! machine does not allow is refused and leaves the entry as it was.
//!
//! The registry holds no lock of its own: whoever shares it puts it behind
//! one mutex, and holds that mutex only for the length of one call.

use vstd::prelude::*;
use crate::types::{opt_view, CloneStatus, CloneStatusView, RepoCloneTask, RepoCloneTaskView};

verus! {

/// The name under which a status is shown outside: `queued`, `cloning`,
/// `completed` or `failed`.
pub open spec fn status_name(s: CloneStatusView) -> Seq<char> {
    match s {
        CloneStatusView::Queued => "queued"@,
        CloneStatusView::Cloning(_) => "cloning"@,
        CloneStatusView::Completed => "completed"@,
        CloneStatusView::Failed(_) => "failed"@,
    }
}

pub open spec fn is_terminal(s: CloneStatusView) -> bool {
    s is Completed || s is Failed
}

/// `b` may follow `a`: the same status, a step of `Queued -> Cloning ->
/// Completed | Failed`, or a clone that fails before it could begin (its
/// workspace could not be made).
pub open spec fn valid_step(a: CloneStatusView, b: CloneStatusView) -> bool {
    a == b || (a is Queued && b is Cloning) || (a is Cloning && b is Cloning) || (a is Cloning
        && b is Completed) || (a is Cloning && b is Failed) || (a is Queued && b is Failed)
}

/// From `a` to `b` every entry took a step of the state machine, no entry
/// left, and every new entry is `Queued`.
pub open spec fn steps_valid(
    a: Map<Seq<char>, RepoCloneTaskView>,
    b: Map<Seq<char>, RepoCloneTaskView>,
) -> bool {
    &&& forall|u: Seq<char>| #[trigger] a.contains_key(u) ==> b.contains_key(u) && valid_step(a[u].status, b[u].status)
    &&& forall|u: Seq<char>| #[trigger] b.contains_key(u) && !a.contains_key(u) ==> b[u].status is Queued
}

/// Every entry whose clone has begun records its workspace.
pub open spec fn workspaces_recorded(m: Map<Seq<char>, RepoCloneTaskView>) -> bool {
    forall|u: Seq<char>| #[trigger] m.contains_key(u) && (m[u].status is Cloning || m[u].status is Completed) ==> m[u].temp_dir is Some
}

/// A repository whose clone completed has its workspace recorded, so that
/// `path_if_completed` returns it: the registry's operations keep
/// `workspaces_recorded`, and a registry starts with it.
pub proof fn lemma_completed_has_workspace(m: Map<Seq<char>, RepoCloneTaskView>, u: Seq<char>)
    requires
        workspaces_recorded(m),
        m.contains_key(u),
        m[u].status is Completed,
    ensures
        m[u].temp_dir is Some,
{
}

/// A clone that began in the workspace `w` and then completed keeps `w`:
/// after `mark_cloning(u, w)` and `mark_completed(u)` both succeed, the
/// entry is `Completed` with workspace `w`, which `path_if_completed(u)`
/// then returns.
pub proof fn lemma_clone_keeps_workspace(
    r0: Map<Seq<char>, RepoCloneTaskView>,
    r1: Map<Seq<char>, RepoCloneTaskView>,
    r2: Map<Seq<char>, RepoCloneTaskView>,
    u: Seq<char>,
    w: Seq<char>,
)
    requires
        r1 == r0.insert(
            u,
            RepoCloneTaskView { url: u, status: CloneStatusView::Cloning(0), temp_dir: Some(w) },
        ),
        r2 == r1.insert(u, RepoCloneTaskView { status: CloneStatusView::Completed, ..r1[u] }),
    ensures
        r2.contains_key(u),
        r2[u].status is Completed,
        r2[u].temp_dir == Some(w),
        workspaces_recorded(r0) ==> workspaces_recorded(r2),
{
}

/// Along any run of registry states, each taking a step of the state
/// machine from the one before, the statuses of a URL form a path of the
/// state machine: once a URL has an entry it keeps one, each status follows
/// the one before, and a terminal status never changes again.
pub proof fn lemma_status_path(rs: Seq<Map<Seq<char>, RepoCloneTaskView>>, u: Seq<char>, i: int, j: int)
    requires
        forall|k: int| 0 <= k < rs.len() - 1 ==> steps_valid(#[trigger] rs[k], rs[k + 1]),
        0 <= i <= j < rs.len(),
        rs[i].contains_key(u),
    ensures
        rs[j].contains_key(u),
        j == i + 1 ==> valid_step(rs[i][u].status, rs[j][u].status),
        is_terminal(rs[i][u].status) ==> rs[j][u].status == rs[i][u].status,
    decreases j - i,
{
    if j > i {
        lemma_status_path(rs, u, i, j - 1);
        assert(steps_valid(rs[j - 1], rs[j]));
    }
}

pub open spec fn queued_entry(url: Seq<char>) -> RepoCloneTaskView {
    RepoCloneTaskView { url, status: CloneStatusView::Queued, temp_dir: None }
}

/// The name under which `s` is shown outside.
pub fn status_name_of(s: &CloneStatus) -> (r: &'static str)
    ensures
        r@ == status_name(s@),
{
    match s {
        CloneStatus::Queued => "queued",
        CloneStatus::Cloning(_) => "cloning",
        CloneStatus::Completed => "completed",
        CloneStatus::Failed(_) => "failed",
    }
}

/// A deep copy of a status.
pub fn copy_status(s: &CloneStatus) -> (r: CloneStatus)
    ensures
        r@ == s@,
{
    match s {
        CloneStatus::Queued => CloneStatus::Queued,
        CloneStatus::Cloning(p) => CloneStatus::Cloning(*p),
        CloneStatus::Completed => CloneStatus::Completed,
        CloneStatus::Failed(e) => CloneStatus::Failed(e.clone()),
    }
}

/// A deep copy of a task.
pub fn copy_task(t: &RepoCloneTask) -> (r: RepoCloneTask)
    ensures
        r@ == t@,
{
    let temp_dir = match &t.temp_dir {
        Some(p) => Some(p.clone()),
        None => None,
    };
    RepoCloneTask { url: t.url.clone(), status: copy_status(&t.status), temp_dir }
}

/// The registry of clone tasks, keyed by repository URL.
pub struct CloneRegistry {
    tasks: Vec<RepoCloneTask>,
}

impl View for CloneRegistry {
    type V = Map<Seq<char>, RepoCloneTaskView>;

    closed spec fn view(&self) -> Map<Seq<char>, RepoCloneTaskView> {
        Map::new(
            |u: Seq<char>| exists|i: int| 0 <= i < self.tasks.len() && self.tasks@[i].url@ == u,
            |u: Seq<char>|
                self.tasks@[choose|i: int| 0 <= i < self.tasks.len() && self.tasks@[i].url@ == u]@,
        )
    }
}

impl CloneRegistry {
    /// Each URL has one entry, and each entry is keyed by its own URL.
    pub closed spec fn wf(&self) -> bool {
        forall|i: int, j: int|
            0 <= i < j < self.tasks.len() ==> self.tasks@[i].url@ != self.tasks@[j].url@
    }

    proof fn lemma_entry(&self, i: int)
        requires
            self.wf(),
            0 <= i < self.tasks.len(),
        ensures
            self@.contains_key(self.tasks@[i].url@),
            self@[self.tasks@[i].url@] == self.tasks@[i]@,
    {
        let u = self.tasks@[i].url@;
        assert(self@.dom().contains(u));
        let j = choose|j: int| 0 <= j < self.tasks.len() && self.tasks@[j].url@ == u;
        assert(j == i);
    }

    /// Entries keyed by `url@` point at position `i`: every key is where it
    /// was, with the entry at `i` replaced by `t`.
    proof fn lemma_replace(old_r: &Self, new_r: &Self, i: int, t: RepoCloneTask)
        requires
            old_r.wf(),
            0 <= i < old_r.tasks.len(),
            t.url@ == old_r.tasks@[i].url@,
            new_r.tasks@ == old_r.tasks@.update(i, t),
        ensures
            new_r.wf(),
            new_r@ == old_r@.insert(t.url@, t@),
    {
        assert forall|u: Seq<char>| #[trigger] new_r@.contains_key(u) == old_r@.insert(t.url@, t@).contains_key(u) by {
            if old_r@.contains_key(u) {
                let j = choose|j: int| 0 <= j < old_r.tasks.len() && old_r.tasks@[j].url@ == u;
                assert(new_r.tasks@[j].url@ == u);
            }
            if new_r@.contains_key(u) {
                let j = choose|j: int| 0 <= j < new_r.tasks.len() && new_r.tasks@[j].url@ == u;
                assert(old_r.tasks@[j].url@ == u);
            }
        }
        assert forall|u: Seq<char>| #[trigger] new_r@.contains_key(u) implies new_r@[u] == old_r@.insert(t.url@, t@)[u] by {
            let j = choose|j: int| 0 <= j < new_r.tasks.len() && new_r.tasks@[j].url@ == u;
            new_r.lemma_entry(j);
            if j != i {
                old_r.lemma_entry(j);
            }
        }
        assert(new_r@ =~= old_r@.insert(t.url@, t@));
    }

    /// Position of the entry for `url`, if any.
    fn find(&self, url: &str) -> (r: Option<usize>)
        requires
            self.wf(),
        ensures
            match r {
                Some(i) => i < self.tasks.len() && self.tasks@[i as int].url@ == url@
                    && self@.contains_key(url@) && self@[url@] == self.tasks@[i as int]@,
                None => !self@.contains_key(url@),
            },
    {
        let key = String::from_str(url);
        let mut i: usize = 0;
        while i < self.tasks.len()
            invariant
                i <= self.tasks.len(),
                self.wf(),
                key@ == url@,
                forall|k: int| 0 <= k < i ==> self.tasks@[k].url@ != url@,
            decreases self.tasks.len() - i,
        {
            if self.tasks[i].url == key {
                proof {
                    self.lemma_entry(i as int);
                }
                return Some(i);
            }
            i = i + 1;
        }
        None
    }

    /// An empty registry.
    pub fn new() -> (r: Self)
        ensures
            r.wf(),
            r@ == Map::<Seq<char>, RepoCloneTaskView>::empty(),
            workspaces_recorded(r@),
    {
        let r = CloneRegistry { tasks: Vec::new() };
        assert(r@ =~= Map::<Seq<char>, RepoCloneTaskView>::empty());
        r
    }

    /// Adds a `Queued` entry for `url` unless it has one.
    pub fn insert_if_absent(&mut self, url: &str)
        requires
            old(self).wf(),
        ensures
            final(self).wf(),
            steps_valid(old(self)@, final(self)@),
            workspaces_recorded(old(self)@) ==> workspaces_recorded(final(self)@),
            old(self)@.contains_key(url@) ==> final(self)@ == old(self)@,
            !old(self)@.contains_key(url@) ==> final(self)@ == old(self)@.insert(url@, queued_entry(url@)),
    {
        match self.find(url) {
            Some(_) => {},
            None => {
                let ghost old_r = *self;
                let t = RepoCloneTask {
                    url: String::from_str(url),
                    status: CloneStatus::Queued,
                    temp_dir: None,
                };
                self.tasks.push(t);
                proof {
                    let n = old_r.tasks.len() as int;
                    assert(self.tasks@[n] == t);
                    assert forall|u: Seq<char>| #[trigger] self@.contains_key(u) == old_r@.insert(url@, queued_entry(url@)).contains_key(u) by {
                        if old_r@.contains_key(u) {
                            let j = choose|j: int| 0 <= j < old_r.tasks.len() && old_r.tasks@[j].url@ == u;
                            assert(self.tasks@[j].url@ == u);
                        }
                        if self@.contains_key(u) {
                            let j = choose|j: int| 0 <= j < self.tasks.len() && self.tasks@[j].url@ == u;
                            if j < n {
                                assert(old_r.tasks@[j].url@ == u);
                            }
                        }
                    }
                    assert forall|u: Seq<char>| #[trigger] self@.contains_key(u) implies self@[u] == old_r@.insert(url@, queued_entry(url@))[u] by {
                        let j = choose|j: int| 0 <= j < self.tasks.len() && self.tasks@[j].url@ == u;
                        self.lemma_entry(j);
                        if j < n {
                            old_r.lemma_entry(j);
                        }
                    }
                    assert(self@ =~= old_r@.insert(url@, queued_entry(url@)));
                }
            },
        }
    }

    /// A registry with a `Queued` entry for each of `urls`, and no other.
    pub fn with_urls(urls: &Vec<String>) -> (r: Self)
        ensures
            r.wf(),
            workspaces_recorded(r@),
            forall|u: Seq<char>| #[trigger] r@.contains_key(u) <==> exists|i: int| 0 <= i < urls.len() && urls@[i]@ == u,
            forall|u: Seq<char>| #[trigger] r@.contains_key(u) ==> r@[u] == queued_entry(u),
    {
        let mut r = CloneRegistry::new();
        let mut i: usize = 0;
        while i < urls.len()
            invariant
                i <= urls.len(),
                r.wf(),
                forall|u: Seq<char>| #[trigger] r@.contains_key(u) <==> exists|k: int| 0 <= k < i && urls@[k]@ == u,
                forall|u: Seq<char>| #[trigger] r@.contains_key(u) ==> r@[u] == queued_entry(u),
            decreases urls.len() - i,
        {
            r.insert_if_absent(urls[i].as_str());
            assert forall|u: Seq<char>| #[trigger] r@.contains_key(u) <==> exists|k: int| 0 <= k < i + 1 && urls@[k]@ == u by {
                if u == urls@[i as int]@ {
                    assert(0 <= i < i + 1 && urls@[i as int]@ == u);
                }
            }
            i = i + 1;
        }
        r
    }

    /// Marks `url` as cloning into `workspace`, where its entry is `Queued`
    /// or `Cloning`; returns whether it did.
    pub fn mark_cloning(&mut self, url: &str, workspace: String) -> (done: bool)
        requires
            old(self).wf(),
        ensures
            final(self).wf(),
            steps_valid(old(self)@, final(self)@),
            workspaces_recorded(old(self)@) ==> workspaces_recorded(final(self)@),
            done == (old(self)@.contains_key(url@) && (old(self)@[url@].status is Queued
                || old(self)@[url@].status is Cloning)),
            done ==> final(self)@ == old(self)@.insert(
                url@,
                RepoCloneTaskView {
                    url: url@,
                    status: CloneStatusView::Cloning(0),
                    temp_dir: Some(workspace@),
                },
            ),
            !done ==> final(self)@ == old(self)@,
    {
        match self.find(url) {
            Some(i) => {
                let ready = match &self.tasks[i].status {
                    CloneStatus::Queued => true,
                    CloneStatus::Cloning(_) => true,
                    _ => false,
                };
                if ready {
                    let ghost old_r = *self;
                    let t = RepoCloneTask {
                        url: self.tasks[i].url.clone(),
                        status: CloneStatus::Cloning(0),
                        temp_dir: Some(workspace),
                    };
                    self.tasks.set(i, t);
                    proof {
                        Self::lemma_replace(&old_r, self, i as int, t);
                    }
                }
                ready
            },
            None => false,
        }
    }

    /// Sets the final status of `url` to `status`, where its entry is
    /// `Cloning`, or `Queued` and `from_queued` holds.
    fn finish(&mut self, url: &str, status: CloneStatus, from_queued: bool) -> (done: bool)
        requires
            old(self).wf(),
            status@ is Completed || status@ is Failed,
            from_queued ==> status@ is Failed,
        ensures
            final(self).wf(),
            steps_valid(old(self)@, final(self)@),
            workspaces_recorded(old(self)@) ==> workspaces_recorded(final(self)@),
            done == (old(self)@.contains_key(url@) && (old(self)@[url@].status is Cloning || (
            from_queued && old(self)@[url@].status is Queued))),
            done ==> final(self)@ == old(self)@.insert(
                url@,
                RepoCloneTaskView { status: status@, ..old(self)@[url@] },
            ),
            !done ==> final(self)@ == old(self)@,
    {
        match self.find(url) {
            Some(i) => {
                let ready = match &self.tasks[i].status {
                    CloneStatus::Queued => from_queued,
                    CloneStatus::Cloning(_) => true,
                    _ => false,
                };
                if ready {
                    let ghost old_r = *self;
                    let temp_dir = match &self.tasks[i].temp_dir {
                        Some(p) => Some(p.clone()),
                        None => None,
                    };
                    let t = RepoCloneTask { url: self.tasks[i].url.clone(), status, temp_dir };
                    self.tasks.set(i, t);
                    proof {
                        Self::lemma_replace(&old_r, self, i as int, t);
                    }
                }
                ready
            },
            None => false,
        }
    }

    /// Marks the clone of `url` completed, where it is `Cloning`; returns
    /// whether it did. The workspace stays recorded.
    pub fn mark_completed(&mut self, url: &str) -> (done: bool)
        requires
            old(self).wf(),
        ensures
            final(self).wf(),
            steps_valid(old(self)@, final(self)@),
            workspaces_recorded(old(self)@) ==> workspaces_recorded(final(self)@),
            done == (old(self)@.contains_key(url@) && old(self)@[url@].status is Cloning),
            done ==> final(self)@ == old(self)@.insert(
                url@,
                RepoCloneTaskView { status: CloneStatusView::Completed, ..old(self)@[url@] },
            ),
            !done ==> final(self)@ == old(self)@,
    {
        self.finish(url, CloneStatus::Completed, false)
    }

    /// Marks the clone of `url` failed with `reason`, where it is `Queued`
    /// or `Cloning`; returns whether it did.
    pub fn mark_failed(&mut self, url: &str, reason: String) -> (done: bool)
        requires
            old(self).wf(),
        ensures
            final(self).wf(),
            steps_valid(old(self)@, final(self)@),
            workspaces_recorded(old(self)@) ==> workspaces_recorded(final(self)@),
            done == (old(self)@.contains_key(url@) && (old(self)@[url@].status is Queued
                || old(self)@[url@].status is Cloning)),
            done ==> final(self)@ == old(self)@.insert(
                url@,
                RepoCloneTaskView { status: CloneStatusView::Failed(reason@), ..old(self)@[url@] },
            ),
            !done ==> final(self)@ == old(self)@,
    {
        self.finish(url, CloneStatus::Failed(reason), true)
    }

    /// Records a request to clone `url`, adding a `Queued` entry where it
    /// has none; returns whether clone work is to be scheduled, which it is
    /// unless the entry is `Completed`.
    pub fn begin_clone(&mut self, url: &str) -> (schedule: bool)
        requires
            old(self).wf(),
        ensures
            final(self).wf(),
            steps_valid(old(self)@, final(self)@),
            workspaces_recorded(old(self)@) ==> workspaces_recorded(final(self)@),
            old(self)@.contains_key(url@) ==> final(self)@ == old(self)@,
            !old(self)@.contains_key(url@) ==> final(self)@ == old(self)@.insert(url@, queued_entry(url@)),
            schedule == !(final(self)@[url@].status is Completed),
    {
        self.insert_if_absent(url);
        match self.find(url) {
            Some(i) => match &self.tasks[i].status {
                CloneStatus::Completed => false,
                _ => true,
            },
            None => true,
        }
    }

    /// The workspace of `url`, where its clone has completed; otherwise a
    /// message saying why there is none.
    pub fn path_if_completed(&self, url: &str) -> (r: Result<String, String>)
        requires
            self.wf(),
        ensures
            match r {
                Ok(p) => self@.contains_key(url@) && self@[url@].status is Completed
                    && self@[url@].temp_dir == Some(p@),
                Err(e) => if !self@.contains_key(url@) {
                    e@ == "Repository "@ + url@ + " not found in managed repositories"@
                } else if self@[url@].status is Completed {
                    self@[url@].temp_dir is None && e@ == "Repository path not found"@
                } else {
                    e@ == "Repository is not in a completed state: "@ + status_name(self@[url@].status)
                },
            },
    {
        match self.find(url) {
            Some(i) => {
                let t = &self.tasks[i];
                match &t.status {
                    CloneStatus::Completed => match &t.temp_dir {
                        Some(p) => Ok(p.clone()),
                        None => Err(String::from_str("Repository path not found")),
                    },
                    other => {
                        let mut e = String::from_str("Repository is not in a completed state: ");
                        e.append(status_name_of(other));
                        Err(e)
                    },
                }
            },
            None => {
                let mut e = String::from_str("Repository ");
                e.append(url);
                e.append(" not found in managed repositories");
                Err(e)
            },
        }
    }

    /// For each of `urls`, the workspace of its completed clone, or why
    /// there is none: it is not managed, or not completed. A completed
    /// entry without a recorded workspace is left out of both.
    pub fn select_completed(&self, urls: &Vec<String>) -> (r: (Vec<(String, String)>, Vec<(String, String)>))
        requires
            self.wf(),
        ensures
            forall|k: int| 0 <= k < r.0.len() ==> {
                let (u, p) = #[trigger] r.0@[k];
                self@.contains_key(u@) && self@[u@].status is Completed && self@[u@].temp_dir == Some(p@)
            },
            forall|k: int| 0 <= k < r.1.len() ==> {
                let (u, e) = #[trigger] r.1@[k];
                if !self@.contains_key(u@) {
                    e@ == "Repository "@ + u@ + " is not managed"@
                } else {
                    !(self@[u@].status is Completed) && e@ == "Repository "@ + u@ + " is not in completed state"@
                }
            },
            forall|i: int| 0 <= i < urls.len() ==> {
                let u = #[trigger] urls@[i]@;
                if self@.contains_key(u) && self@[u].status is Completed {
                    self@[u].temp_dir is Some ==> exists|k: int| 0 <= k < r.0.len() && r.0@[k].0@ == u
                } else {
                    exists|k: int| 0 <= k < r.1.len() && r.1@[k].0@ == u
                }
            },
    {
        let mut paths: Vec<(String, String)> = Vec::new();
        let mut errors: Vec<(String, String)> = Vec::new();
        let mut i: usize = 0;
        while i < urls.len()
            invariant
                i <= urls.len(),
                self.wf(),
                forall|k: int| 0 <= k < paths.len() ==> {
                    let (u, p) = #[trigger] paths@[k];
                    self@.contains_key(u@) && self@[u@].status is Completed && self@[u@].temp_dir == Some(p@)
                },
                forall|k: int| 0 <= k < errors.len() ==> {
                    let (u, e) = #[trigger] errors@[k];
                    if !self@.contains_key(u@) {
                        e@ == "Repository "@ + u@ + " is not managed"@
                    } else {
                        !(self@[u@].status is Completed) && e@ == "Repository "@ + u@ + " is not in completed state"@
                    }
                },
                forall|j: int| 0 <= j < i ==> {
                    let u = #[trigger] urls@[j]@;
                    if self@.contains_key(u) && self@[u].status is Completed {
                        self@[u].temp_dir is Some ==> exists|k: int| 0 <= k < paths.len() && paths@[k].0@ == u
                    } else {
                        exists|k: int| 0 <= k < errors.len() && errors@[k].0@ == u
                    }
                },
            decreases urls.len() - i,
        {
            let url = &urls[i];
            let ghost old_paths = paths@;
            let ghost old_errors = errors@;
            match self.find(url.as_str()) {
                Some(t) => {
                    let task = &self.tasks[t];
                    match &task.status {
                        CloneStatus::Completed => {
                            match &task.temp_dir {
                                Some(p) => {
                                    paths.push((url.clone(), p.clone()));
                                    assert(paths@[paths.len() - 1].0@ == url@);
                                },
                                None => {},
                            }
                        },
                        _ => {
                            let mut e = String::from_str("Repository ");
                            e.append(url.as_str());
                            e.append(" is not in completed state");
                            errors.push((url.clone(), e));
                            assert(errors@[errors.len() - 1].0@ == url@);
                        },
                    }
                },
                None => {
                    let mut e = String::from_str("Repository ");
                    e.append(url.as_str());
                    e.append(" is not managed");
                    errors.push((url.clone(), e));
                    assert(errors@[errors.len() - 1].0@ == url@);
                },
            }
            assert forall|j: int| 0 <= j < i + 1 implies {
                let u = #[trigger] urls@[j]@;
                if self@.contains_key(u) && self@[u].status is Completed {
                    self@[u].temp_dir is Some ==> exists|k: int| 0 <= k < paths.len() && paths@[k].0@ == u
                } else {
                    exists|k: int| 0 <= k < errors.len() && errors@[k].0@ == u
                }
            } by {
                let u = urls@[j]@;
                if j < i {
                    if self@.contains_key(u) && self@[u].status is Completed {
                        if self@[u].temp_dir is Some {
                            let k = choose|k: int| 0 <= k < old_paths.len() && old_paths[k].0@ == u;
                            assert(paths@[k] == old_paths[k]);
                        }
                    } else {
                        let k = choose|k: int| 0 <= k < old_errors.len() && old_errors[k].0@ == u;
                        assert(errors@[k] == old_errors[k]);
                    }
                }
            }
            i = i + 1;
        }
        (paths, errors)
    }

    /// A copy of the entry for `url`.
    pub fn get(&self, url: &str) -> (r: Option<RepoCloneTask>)
        requires
            self.wf(),
        ensures
            match r {
                Some(t) => self@.contains_key(url@) && t@ == self@[url@],
                None => !self@.contains_key(url@),
            },
    {
        match self.find(url) {
            Some(i) => Some(copy_task(&self.tasks[i])),
            None => None,
        }
    }

    /// A copy of every entry, one per URL.
    pub fn snapshot(&self) -> (r: Vec<RepoCloneTask>)
        requires
            self.wf(),
        ensures
            forall|i: int| 0 <= i < r.len() ==> #[trigger] self@.contains_key(r@[i].url@) && self@[r@[i].url@] == r@[i]@,
            forall|u: Seq<char>| #[trigger] self@.contains_key(u) ==> exists|i: int| 0 <= i < r.len() && r@[i].url@ == u,
            forall|i: int, j: int| 0 <= i < j < r.len() ==> r@[i].url@ != r@[j].url@,
    {
        let mut r: Vec<RepoCloneTask> = Vec::new();
        let mut i: usize = 0;
        while i < self.tasks.len()
            invariant
                i <= self.tasks.len(),
                self.wf(),
                r.len() == i,
                forall|k: int| 0 <= k < i ==> r@[k]@ == self.tasks@[k]@,
            decreases self.tasks.len() - i,
        {
            r.push(copy_task(&self.tasks[i]));
            i = i + 1;
        }
        assert forall|k: int| 0 <= k < r.len() implies #[trigger] self@.contains_key(r@[k].url@) && self@[r@[k].url@] == r@[k]@ by {
            self.lemma_entry(k);
        }
        assert forall|u: Seq<char>| #[trigger] self@.contains_key(u) implies exists|k: int| 0 <= k < r.len() && r@[k].url@ == u by {
            let k = choose|k: int| 0 <= k < self.tasks.len() && self.tasks@[k].url@ == u;
            assert(r@[k].url@ == u);
        }
        r
    }
}

} // verus!
