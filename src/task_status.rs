//! A registry of long-running remote operations and their status, keyed by
//! `type:resource:operation`. Pure bookkeeping: no other part consults it.
//! Times are Unix seconds, passed in by the caller.

use vstd::prelude::*;

verus! {

/// The status of a remote operation.
#[derive(Clone, Debug)]
pub enum TaskStatus {
    /// Not started, or waiting.
    Idle,
    /// Under way, with a percentage of completion in `0..=100`.
    InProgress { completion_percentage: u8 },
    /// Done, at the given time.
    Completed { completed_at: u64 },
    /// Failed with a message, at the given time.
    Failed { error: String, failed_at: u64 },
}

pub ghost enum TaskStatusView {
    Idle,
    InProgress { completion_percentage: u8 },
    Completed { completed_at: u64 },
    Failed { error: Seq<char>, failed_at: u64 },
}

impl View for TaskStatus {
    type V = TaskStatusView;

    open spec fn view(&self) -> TaskStatusView {
        match self {
            TaskStatus::Idle => TaskStatusView::Idle,
            TaskStatus::InProgress { completion_percentage } => TaskStatusView::InProgress {
                completion_percentage: *completion_percentage,
            },
            TaskStatus::Completed { completed_at } => TaskStatusView::Completed {
                completed_at: *completed_at,
            },
            TaskStatus::Failed { error, failed_at } => TaskStatusView::Failed {
                error: error@,
                failed_at: *failed_at,
            },
        }
    }
}

/// A registered operation.
#[derive(Clone, Debug)]
pub struct TaskInfo {
    pub id: String,
    pub task_type: String,
    pub resource: String,
    pub status: TaskStatus,
    pub created_at: u64,
    pub updated_at: u64,
}

pub ghost struct TaskInfoView {
    pub id: Seq<char>,
    pub task_type: Seq<char>,
    pub resource: Seq<char>,
    pub status: TaskStatusView,
    pub created_at: u64,
    pub updated_at: u64,
}

impl View for TaskInfo {
    type V = TaskInfoView;

    open spec fn view(&self) -> TaskInfoView {
        TaskInfoView {
            id: self.id@,
            task_type: self.task_type@,
            resource: self.resource@,
            status: self.status@,
            created_at: self.created_at,
            updated_at: self.updated_at,
        }
    }
}

pub open spec fn task_id(task_type: Seq<char>, resource: Seq<char>, operation: Seq<char>) -> Seq<char> {
    task_type + ":"@ + resource + ":"@ + operation
}

/// A completed task whose completion lies more than `older_than` seconds
/// before `now`.
pub open spec fn expired(t: TaskInfoView, older_than: u64, now: u64) -> bool {
    match t.status {
        TaskStatusView::Completed { completed_at } => now > completed_at && now - completed_at
            > older_than,
        _ => false,
    }
}

pub fn copy_task_status(s: &TaskStatus) -> (r: TaskStatus)
    ensures
        r@ == s@,
{
    match s {
        TaskStatus::Idle => TaskStatus::Idle,
        TaskStatus::InProgress { completion_percentage } => TaskStatus::InProgress {
            completion_percentage: *completion_percentage,
        },
        TaskStatus::Completed { completed_at } => TaskStatus::Completed { completed_at: *completed_at },
        TaskStatus::Failed { error, failed_at } => TaskStatus::Failed {
            error: error.clone(),
            failed_at: *failed_at,
        },
    }
}

pub fn copy_task_info(t: &TaskInfo) -> (r: TaskInfo)
    ensures
        r@ == t@,
{
    TaskInfo {
        id: t.id.clone(),
        task_type: t.task_type.clone(),
        resource: t.resource.clone(),
        status: copy_task_status(&t.status),
        created_at: t.created_at,
        updated_at: t.updated_at,
    }
}

/// The registered operations, keyed by id.
pub struct TaskRegistry {
    tasks: Vec<TaskInfo>,
}

impl View for TaskRegistry {
    type V = Map<Seq<char>, TaskInfoView>;

    closed spec fn view(&self) -> Map<Seq<char>, TaskInfoView> {
        Map::new(
            |u: Seq<char>| exists|i: int| 0 <= i < self.tasks.len() && self.tasks@[i].id@ == u,
            |u: Seq<char>|
                self.tasks@[choose|i: int| 0 <= i < self.tasks.len() && self.tasks@[i].id@ == u]@,
        )
    }
}

impl TaskRegistry {
    /// Each id appears once.
    pub closed spec fn wf(&self) -> bool {
        forall|i: int, j: int|
            0 <= i < j < self.tasks.len() ==> self.tasks@[i].id@ != self.tasks@[j].id@
    }

    /// The number of registered operations.
    pub closed spec fn size(&self) -> nat {
        self.tasks@.len()
    }

    proof fn lemma_entry(&self, i: int)
        requires
            self.wf(),
            0 <= i < self.tasks.len(),
        ensures
            self@.contains_key(self.tasks@[i].id@),
            self@[self.tasks@[i].id@] == self.tasks@[i]@,
    {
        let u = self.tasks@[i].id@;
        assert(self@.dom().contains(u));
        let j = choose|j: int| 0 <= j < self.tasks.len() && self.tasks@[j].id@ == u;
        assert(j == i);
    }

    proof fn lemma_replace(old_r: &Self, new_r: &Self, i: int, t: TaskInfo)
        requires
            old_r.wf(),
            0 <= i < old_r.tasks.len(),
            t.id@ == old_r.tasks@[i].id@,
            new_r.tasks@ == old_r.tasks@.update(i, t),
        ensures
            new_r.wf(),
            new_r.size() == old_r.size(),
            new_r@ == old_r@.insert(t.id@, t@),
    {
        assert forall|u: Seq<char>| #[trigger] new_r@.contains_key(u) == old_r@.insert(t.id@, t@).contains_key(u) by {
            if old_r@.contains_key(u) {
                let j = choose|j: int| 0 <= j < old_r.tasks.len() && old_r.tasks@[j].id@ == u;
                assert(new_r.tasks@[j].id@ == u);
            }
            if new_r@.contains_key(u) {
                let j = choose|j: int| 0 <= j < new_r.tasks.len() && new_r.tasks@[j].id@ == u;
                assert(old_r.tasks@[j].id@ == u);
            }
        }
        assert forall|u: Seq<char>| #[trigger] new_r@.contains_key(u) implies new_r@[u] == old_r@.insert(t.id@, t@)[u] by {
            let j = choose|j: int| 0 <= j < new_r.tasks.len() && new_r.tasks@[j].id@ == u;
            new_r.lemma_entry(j);
            if j != i {
                old_r.lemma_entry(j);
            }
        }
        assert(new_r@ =~= old_r@.insert(t.id@, t@));
    }

    fn find(&self, id: &str) -> (r: Option<usize>)
        requires
            self.wf(),
        ensures
            match r {
                Some(i) => i < self.tasks.len() && self.tasks@[i as int].id@ == id@
                    && self@.contains_key(id@) && self@[id@] == self.tasks@[i as int]@,
                None => !self@.contains_key(id@),
            },
    {
        let key = String::from_str(id);
        let mut i: usize = 0;
        while i < self.tasks.len()
            invariant
                i <= self.tasks.len(),
                self.wf(),
                key@ == id@,
                forall|k: int| 0 <= k < i ==> self.tasks@[k].id@ != id@,
            decreases self.tasks.len() - i,
        {
            if self.tasks[i].id == key {
                proof {
                    self.lemma_entry(i as int);
                }
                return Some(i);
            }
            i = i + 1;
        }
        None
    }

    pub fn new() -> (r: Self)
        ensures
            r.wf(),
            r@ == Map::<Seq<char>, TaskInfoView>::empty(),
            r.size() == 0,
    {
        let r = TaskRegistry { tasks: Vec::new() };
        assert(r@ =~= Map::<Seq<char>, TaskInfoView>::empty());
        r
    }

    /// Records `t` under its id, replacing an earlier entry with that id.
    fn put(&mut self, t: TaskInfo)
        requires
            old(self).wf(),
        ensures
            final(self).wf(),
            final(self)@ == old(self)@.insert(t.id@, t@),
    {
        match self.find(t.id.as_str()) {
            Some(i) => {
                let ghost old_r = *self;
                let ghost tv = t;
                self.tasks.set(i, t);
                proof {
                    Self::lemma_replace(&old_r, self, i as int, tv);
                }
            },
            None => {
                let ghost old_r = *self;
                let ghost tv = t;
                self.tasks.push(t);
                proof {
                    let n = old_r.tasks.len() as int;
                    assert(self.tasks@[n] == tv);
                    assert forall|u: Seq<char>| #[trigger] self@.contains_key(u) == old_r@.insert(tv.id@, tv@).contains_key(u) by {
                        if old_r@.contains_key(u) {
                            let j = choose|j: int| 0 <= j < old_r.tasks.len() && old_r.tasks@[j].id@ == u;
                            assert(self.tasks@[j].id@ == u);
                        }
                        if self@.contains_key(u) {
                            let j = choose|j: int| 0 <= j < self.tasks.len() && self.tasks@[j].id@ == u;
                            if j < n {
                                assert(old_r.tasks@[j].id@ == u);
                            }
                        }
                    }
                    assert forall|u: Seq<char>| #[trigger] self@.contains_key(u) implies self@[u] == old_r@.insert(tv.id@, tv@)[u] by {
                        let j = choose|j: int| 0 <= j < self.tasks.len() && self.tasks@[j].id@ == u;
                        self.lemma_entry(j);
                        if j < n {
                            old_r.lemma_entry(j);
                        }
                    }
                    assert(self@ =~= old_r@.insert(tv.id@, tv@));
                }
            },
        }
    }
}

fn is_expired(t: &TaskInfo, older_than: u64, now: u64) -> (r: bool)
    ensures
        r == expired(t@, older_than, now),
{
    match &t.status {
        TaskStatus::Completed { completed_at } => now > *completed_at && now - *completed_at > older_than,
        _ => false,
    }
}

/// The field that a listing selects on.
pub open spec fn selected(t: TaskInfoView, by_type: bool, key: Seq<char>) -> bool {
    if by_type {
        t.task_type == key
    } else {
        t.resource == key
    }
}

/// A copy of every entry whose type (`by_type`) or resource equals `key`.
fn list_where(registry: &TaskRegistry, by_type: bool, key: &str) -> (r: Vec<TaskInfo>)
    requires
        registry.wf(),
    ensures
        forall|i: int| 0 <= i < r.len() ==> #[trigger] registry@.contains_key(r@[i].id@) && r@[i]@ == registry@[r@[i].id@] && selected(r@[i]@, by_type, key@),
        forall|u: Seq<char>| #[trigger] registry@.contains_key(u) && selected(registry@[u], by_type, key@) ==> exists|i: int| 0 <= i < r.len() && r@[i].id@ == u,
        forall|i: int, j: int| 0 <= i < j < r.len() ==> r@[i].id@ != r@[j].id@,
{
    let key_s = String::from_str(key);
    let ghost tasks = registry.tasks@;
    let mut r: Vec<TaskInfo> = Vec::new();
    let ghost mut src: Seq<int> = Seq::empty();
    let mut i: usize = 0;
    while i < registry.tasks.len()
        invariant
            i <= registry.tasks.len(),
            tasks == registry.tasks@,
            registry.wf(),
            key_s@ == key@,
            r.len() == src.len(),
            forall|k: int| 0 <= k < src.len() ==> 0 <= #[trigger] src[k] < i && r@[k]@ == tasks[src[k]]@ && selected(tasks[src[k]]@, by_type, key@),
            forall|k: int, l: int| 0 <= k < l < src.len() ==> src[k] < src[l],
            forall|j: int| 0 <= j < i && selected(#[trigger] tasks[j]@, by_type, key@) ==> exists|k: int| 0 <= k < src.len() && src[k] == j,
        decreases registry.tasks.len() - i,
    {
        let t = &registry.tasks[i];
        let hit = if by_type {
            t.task_type == key_s
        } else {
            t.resource == key_s
        };
        let ghost old_src = src;
        if hit {
            r.push(copy_task_info(t));
            proof {
                src = src.push(i as int);
                assert(src[src.len() - 1] == i);
            }
        }
        assert forall|j: int| 0 <= j < i + 1 && selected(#[trigger] tasks[j]@, by_type, key@) implies exists|k: int| 0 <= k < src.len() && src[k] == j by {
            if j < i {
                let k = choose|k: int| 0 <= k < old_src.len() && old_src[k] == j;
                assert(src[k] == j);
            } else {
                assert(src[src.len() - 1] == j);
            }
        }
        i = i + 1;
    }
    assert forall|k: int| 0 <= k < r.len() implies #[trigger] registry@.contains_key(r@[k].id@) && r@[k]@ == registry@[r@[k].id@] && selected(r@[k]@, by_type, key@) by {
        registry.lemma_entry(src[k]);
    }
    assert forall|u: Seq<char>| #[trigger] registry@.contains_key(u) && selected(registry@[u], by_type, key@) implies exists|k: int| 0 <= k < r.len() && r@[k].id@ == u by {
        let j = choose|j: int| 0 <= j < tasks.len() && tasks[j].id@ == u;
        registry.lemma_entry(j);
        let k = choose|k: int| 0 <= k < src.len() && src[k] == j;
        assert(r@[k].id@ == u);
    }
    assert forall|a: int, b: int| 0 <= a < b < r.len() implies r@[a].id@ != r@[b].id@ by {
        assert(r@[a].id@ == tasks[src[a]].id@);
        assert(r@[b].id@ == tasks[src[b]].id@);
    }
    r
}

/// A copy of every operation of type `task_type`.
pub fn list_tasks_by_type(registry: &TaskRegistry, task_type: &str) -> (r: Vec<TaskInfo>)
    requires
        registry.wf(),
    ensures
        forall|i: int| 0 <= i < r.len() ==> #[trigger] registry@.contains_key(r@[i].id@) && r@[i]@ == registry@[r@[i].id@] && r@[i].task_type@ == task_type@,
        forall|u: Seq<char>| #[trigger] registry@.contains_key(u) && registry@[u].task_type == task_type@ ==> exists|i: int| 0 <= i < r.len() && r@[i].id@ == u,
        forall|i: int, j: int| 0 <= i < j < r.len() ==> r@[i].id@ != r@[j].id@,
{
    let r = list_where(registry, true, task_type);
    assert forall|i: int| 0 <= i < r.len() implies #[trigger] registry@.contains_key(r@[i].id@) && r@[i]@ == registry@[r@[i].id@] && r@[i].task_type@ == task_type@ by {
        assert(registry@.contains_key(r@[i].id@));
        assert(selected(r@[i]@, true, task_type@));
    }
    r
}

/// A copy of every operation on `resource`.
pub fn list_tasks_for_resource(registry: &TaskRegistry, resource: &str) -> (r: Vec<TaskInfo>)
    requires
        registry.wf(),
    ensures
        forall|i: int| 0 <= i < r.len() ==> #[trigger] registry@.contains_key(r@[i].id@) && r@[i]@ == registry@[r@[i].id@] && r@[i].resource@ == resource@,
        forall|u: Seq<char>| #[trigger] registry@.contains_key(u) && registry@[u].resource == resource@ ==> exists|i: int| 0 <= i < r.len() && r@[i].id@ == u,
        forall|i: int, j: int| 0 <= i < j < r.len() ==> r@[i].id@ != r@[j].id@,
{
    let r = list_where(registry, false, resource);
    assert forall|i: int| 0 <= i < r.len() implies #[trigger] registry@.contains_key(r@[i].id@) && r@[i]@ == registry@[r@[i].id@] && r@[i].resource@ == resource@ by {
        assert(registry@.contains_key(r@[i].id@));
        assert(selected(r@[i]@, false, resource@));
    }
    r
}

/// Removes the operations completed more than `older_than_seconds` before
/// `now`; returns how many it removed.
pub fn clear_old_completed_tasks(registry: &mut TaskRegistry, older_than_seconds: u64, now: u64) -> (removed: usize)
    requires
        old(registry).wf(),
    ensures
        final(registry).wf(),
        forall|u: Seq<char>| #[trigger] final(registry)@.contains_key(u) <==> old(registry)@.contains_key(u) && !expired(old(registry)@[u], older_than_seconds, now),
        forall|u: Seq<char>| #[trigger] final(registry)@.contains_key(u) ==> final(registry)@[u] == old(registry)@[u],
        removed == old(registry).size() - final(registry).size(),
{
    let ghost old_r = *registry;
    let ghost tasks = registry.tasks@;
    let mut kept: Vec<TaskInfo> = Vec::new();
    let ghost mut src: Seq<int> = Seq::empty();
    let mut removed: usize = 0;
    let mut i: usize = 0;
    while i < registry.tasks.len()
        invariant
            i <= registry.tasks.len(),
            tasks == registry.tasks@,
            *registry == old_r,
            registry.wf(),
            kept.len() == src.len(),
            kept.len() + removed == i,
            forall|k: int| 0 <= k < src.len() ==> 0 <= #[trigger] src[k] < i && kept@[k]@ == tasks[src[k]]@ && !expired(tasks[src[k]]@, older_than_seconds, now),
            forall|k: int, l: int| 0 <= k < l < src.len() ==> src[k] < src[l],
            forall|j: int| 0 <= j < i && !expired(#[trigger] tasks[j]@, older_than_seconds, now) ==> exists|k: int| 0 <= k < src.len() && src[k] == j,
        decreases registry.tasks.len() - i,
    {
        let t = &registry.tasks[i];
        let ghost old_src = src;
        if is_expired(t, older_than_seconds, now) {
            removed = removed + 1;
        } else {
            kept.push(copy_task_info(t));
            proof {
                src = src.push(i as int);
                assert(src[src.len() - 1] == i);
            }
        }
        assert forall|j: int| 0 <= j < i + 1 && !expired(#[trigger] tasks[j]@, older_than_seconds, now) implies exists|k: int| 0 <= k < src.len() && src[k] == j by {
            if j < i {
                let k = choose|k: int| 0 <= k < old_src.len() && old_src[k] == j;
                assert(src[k] == j);
            } else {
                assert(src[src.len() - 1] == j);
            }
        }
        i = i + 1;
    }
    registry.tasks = kept;
    proof {
        assert forall|a: int, b: int| 0 <= a < b < registry.tasks.len() implies registry.tasks@[a].id@ != registry.tasks@[b].id@ by {
            assert(registry.tasks@[a].id@ == tasks[src[a]].id@);
            assert(registry.tasks@[b].id@ == tasks[src[b]].id@);
        }
        assert forall|u: Seq<char>| #[trigger] registry@.contains_key(u) <==> old_r@.contains_key(u) && !expired(old_r@[u], older_than_seconds, now) by {
            if registry@.contains_key(u) {
                let k = choose|k: int| 0 <= k < registry.tasks.len() && registry.tasks@[k].id@ == u;
                old_r.lemma_entry(src[k]);
            }
            if old_r@.contains_key(u) && !expired(old_r@[u], older_than_seconds, now) {
                let j = choose|j: int| 0 <= j < tasks.len() && tasks[j].id@ == u;
                old_r.lemma_entry(j);
                let k = choose|k: int| 0 <= k < src.len() && src[k] == j;
                assert(registry.tasks@[k].id@ == u);
            }
        }
        assert forall|u: Seq<char>| #[trigger] registry@.contains_key(u) implies registry@[u] == old_r@[u] by {
            let k = choose|k: int| 0 <= k < registry.tasks.len() && registry.tasks@[k].id@ == u;
            registry.lemma_entry(k);
            old_r.lemma_entry(src[k]);
        }
    }
    removed
}

/// The id of the operation `operation` of type `task_type` on `resource`.
pub fn create_task_id(task_type: &str, resource: &str, operation: &str) -> (r: String)
    ensures
        r@ == task_id(task_type@, resource@, operation@),
{
    let mut id = String::from_str(task_type);
    id.append(":");
    id.append(resource);
    id.append(":");
    id.append(operation);
    id
}

/// Registers an operation as `Idle` at `now`, replacing any earlier entry
/// with the same id; returns the id.
pub fn register_task(
    registry: &mut TaskRegistry,
    task_type: &str,
    resource: &str,
    operation: &str,
    now: u64,
) -> (id: String)
    requires
        old(registry).wf(),
    ensures
        final(registry).wf(),
        id@ == task_id(task_type@, resource@, operation@),
        final(registry)@ == old(registry)@.insert(
            id@,
            TaskInfoView {
                id: id@,
                task_type: task_type@,
                resource: resource@,
                status: TaskStatusView::Idle,
                created_at: now,
                updated_at: now,
            },
        ),
{
    let id = create_task_id(task_type, resource, operation);
    let info = TaskInfo {
        id: id.clone(),
        task_type: String::from_str(task_type),
        resource: String::from_str(resource),
        status: TaskStatus::Idle,
        created_at: now,
        updated_at: now,
    };
    registry.put(info);
    id
}

/// Sets the status of a registered operation, stamping `now`; returns
/// whether `task_id` is registered.
pub fn update_task_status(registry: &mut TaskRegistry, task_id: &str, status: TaskStatus, now: u64) -> (found: bool)
    requires
        old(registry).wf(),
    ensures
        final(registry).wf(),
        found == old(registry)@.contains_key(task_id@),
        found ==> final(registry)@ == old(registry)@.insert(
            task_id@,
            TaskInfoView { status: status@, updated_at: now, ..old(registry)@[task_id@] },
        ),
        !found ==> final(registry)@ == old(registry)@,
{
    match registry.find(task_id) {
        Some(i) => {
            let old_t = &registry.tasks[i];
            let t = TaskInfo {
                id: old_t.id.clone(),
                task_type: old_t.task_type.clone(),
                resource: old_t.resource.clone(),
                status,
                created_at: old_t.created_at,
                updated_at: now,
            };
            registry.put(t);
            true
        },
        None => false,
    }
}

/// A copy of the entry of `task_id`.
pub fn get_task_info(registry: &TaskRegistry, task_id: &str) -> (r: Option<TaskInfo>)
    requires
        registry.wf(),
    ensures
        match r {
            Some(t) => registry@.contains_key(task_id@) && t@ == registry@[task_id@],
            None => !registry@.contains_key(task_id@),
        },
{
    match registry.find(task_id) {
        Some(i) => Some(copy_task_info(&registry.tasks[i])),
        None => None,
    }
}

pub open spec fn clamp_percentage(p: int) -> u8 {
    if p < 0 {
        0
    } else if p > 100 {
        100
    } else {
        p as u8
    }
}

/// Marks an operation under way at `percentage`, held to `0..=100`.
pub fn set_task_in_progress(registry: &mut TaskRegistry, task_id: &str, percentage: i64, now: u64) -> (found: bool)
    requires
        old(registry).wf(),
    ensures
        final(registry).wf(),
        found == old(registry)@.contains_key(task_id@),
        found ==> final(registry)@ == old(registry)@.insert(
            task_id@,
            TaskInfoView {
                status: TaskStatusView::InProgress { completion_percentage: clamp_percentage(percentage as int) },
                updated_at: now,
                ..old(registry)@[task_id@]
            },
        ),
        !found ==> final(registry)@ == old(registry)@,
{
    let p: u8 = if percentage < 0 {
        0
    } else if percentage > 100 {
        100
    } else {
        percentage as u8
    };
    update_task_status(registry, task_id, TaskStatus::InProgress { completion_percentage: p }, now)
}

/// Marks an operation completed at `now`.
pub fn set_task_completed(registry: &mut TaskRegistry, task_id: &str, now: u64) -> (found: bool)
    requires
        old(registry).wf(),
    ensures
        final(registry).wf(),
        found == old(registry)@.contains_key(task_id@),
        found ==> final(registry)@ == old(registry)@.insert(
            task_id@,
            TaskInfoView {
                status: TaskStatusView::Completed { completed_at: now },
                updated_at: now,
                ..old(registry)@[task_id@]
            },
        ),
        !found ==> final(registry)@ == old(registry)@,
{
    update_task_status(registry, task_id, TaskStatus::Completed { completed_at: now }, now)
}

/// Marks an operation failed with `error` at `now`.
pub fn set_task_failed(registry: &mut TaskRegistry, task_id: &str, error: &str, now: u64) -> (found: bool)
    requires
        old(registry).wf(),
    ensures
        final(registry).wf(),
        found == old(registry)@.contains_key(task_id@),
        found ==> final(registry)@ == old(registry)@.insert(
            task_id@,
            TaskInfoView {
                status: TaskStatusView::Failed { error: error@, failed_at: now },
                updated_at: now,
                ..old(registry)@[task_id@]
            },
        ),
        !found ==> final(registry)@ == old(registry)@,
{
    update_task_status(
        registry,
        task_id,
        TaskStatus::Failed { error: String::from_str(error), failed_at: now },
        now,
    )
}

} // verus!
