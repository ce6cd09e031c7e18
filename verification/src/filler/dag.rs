//! # Pipeline Execution DAG
//!
//! The scheduling rules of a pipeline run. A run starts every model whose
//! in-pipeline parents have all completed, waits for a completion, and
//! repeats; when nothing runs and models remain, the remaining models wait on
//! each other and the run stops with a circular dependency error.
//!
//! The executor that performs the work (and the cancellation signal) drives
//! this state machine: it asks for the models to launch, reports each
//! completion, and asks what to do next.

use vstd::prelude::*;
use crate::error::TitanError;
use crate::text::{views, index_of_str, to_owned_string};
use crate::seqs::{distinct, lemma_distinct, lemma_seq_push_contains};

verus! {

/// A model of the pipeline as the scheduler sees it: its name and the names
/// of the models it reads from.
pub struct TaskNode {
    pub name: String,
    pub parent_names: Vec<String>,
}

impl TaskNode {
    pub open spec fn name_view(&self) -> Seq<char> {
        self.name@
    }

    pub open spec fn parents_view(&self) -> Seq<Seq<char>> {
        views(self.parent_names@)
    }
}

/// Where a model stands in the run.
#[derive(Clone, Copy, Debug, PartialEq, Eq, Structural)]
pub enum TaskStatus {
    Pending,
    Running,
    Completed,
}

/// What the executor does after launching the ready models.
#[derive(Clone, Copy, Debug, PartialEq, Eq, Structural)]
pub enum DagDecision {
    /// Some models run: wait for the next completion.
    Wait,
    /// Nothing runs and nothing remains: the run is done.
    Finished,
    /// Nothing runs but models remain: they wait on each other.
    Stalled,
}

/// The names of a task list.
pub open spec fn task_names(tasks: Seq<TaskNode>) -> Seq<Seq<char>> {
    tasks.map_values(|t: TaskNode| t.name@)
}

/// Index of the last task named `name` (the one a name lookup resolves to);
/// -1 when there is none.
pub open spec fn last_task_named(tasks: Seq<TaskNode>, name: Seq<char>) -> int
    decreases tasks.len(),
{
    if tasks.len() == 0 {
        -1
    } else if tasks.last().name@ == name {
        tasks.len() - 1
    } else {
        last_task_named(tasks.drop_last(), name)
    }
}

pub proof fn lemma_last_task_named(tasks: Seq<TaskNode>, name: Seq<char>)
    ensures
        -1 <= last_task_named(tasks, name) < tasks.len(),
        last_task_named(tasks, name) >= 0 ==> tasks[last_task_named(tasks, name)].name@ == name,
        last_task_named(tasks, name) >= 0 ==> forall|k: int|
            last_task_named(tasks, name) < k < tasks.len() ==> tasks[k].name@ != name,
        last_task_named(tasks, name) == -1 ==> forall|k: int|
            0 <= k < tasks.len() ==> tasks[k].name@ != name,
    decreases tasks.len(),
{
    if tasks.len() > 0 {
        lemma_last_task_named(tasks.drop_last(), name);
        assert forall|k: int| 0 <= k < tasks.len() - 1 implies tasks.drop_last()[k] == tasks[k] by {}
    }
}

/// The scheduling state of one run: the distinct model names, the
/// positions of each model's in-pipeline parents, and each model's status.
pub struct DagScheduler {
    names: Vec<String>,
    parents: Vec<Vec<usize>>,
    status: Vec<TaskStatus>,
}

impl DagScheduler {
    pub closed spec fn names_view(&self) -> Seq<Seq<char>> {
        views(self.names@)
    }

    pub closed spec fn parent_at(&self, i: int, k: int) -> int {
        self.parents@[i]@[k] as int
    }

    pub closed spec fn parent_count(&self, i: int) -> int {
        self.parents@[i]@.len() as int
    }

    pub closed spec fn status_at(&self, i: int) -> TaskStatus {
        self.status@[i]
    }

    pub closed spec fn len(&self) -> int {
        self.names@.len() as int
    }

    /// `j` is an in-pipeline parent of `i`.
    pub open spec fn has_parent(&self, i: int, j: int) -> bool {
        exists|k: int| 0 <= k < self.parent_count(i) && self.parent_at(i, k) == j
    }

    pub closed spec fn wf(&self) -> bool {
        &&& self.parents@.len() == self.names@.len()
        &&& self.status@.len() == self.names@.len()
        &&& self.names_view().no_duplicates()
        &&& forall|i: int, k: int|
            0 <= i < self.len() && 0 <= k < self.parent_count(i) ==> 0 <= #[trigger] self.parent_at(i, k) < self.len()
    }

    /// Model `i` waits for nothing: it is pending and each of its
    /// in-pipeline parents has completed.
    pub open spec fn is_ready(&self, i: int) -> bool {
        &&& self.status_at(i) == TaskStatus::Pending
        &&& forall|k: int| 0 <= k < self.parent_count(i) ==>
            self.status_at(#[trigger] self.parent_at(i, k)) == TaskStatus::Completed
    }

    /// Names of the ready models among the first `n`, in order.
    pub open spec fn ready_prefix(&self, n: int) -> Seq<Seq<char>>
        decreases n,
    {
        if n <= 0 {
            Seq::empty()
        } else if self.is_ready(n - 1) {
            self.ready_prefix(n - 1).push(self.names_view()[n - 1])
        } else {
            self.ready_prefix(n - 1)
        }
    }

    pub open spec fn ready_names(&self) -> Seq<Seq<char>> {
        self.ready_prefix(self.len())
    }

    pub open spec fn any_with_status(&self, st: TaskStatus) -> bool {
        exists|i: int| 0 <= i < self.len() && self.status_at(i) == st
    }

    /// The decision that follows from the current statuses.
    pub open spec fn spec_decision(&self) -> DagDecision {
        if self.any_with_status(TaskStatus::Running) {
            DagDecision::Wait
        } else if self.any_with_status(TaskStatus::Pending) {
            DagDecision::Stalled
        } else {
            DagDecision::Finished
        }
    }
}

/// The distinct names of `tasks`, in order of first appearance.
fn distinct_task_names(tasks: &Vec<TaskNode>) -> (names: Vec<String>)
    ensures
        views(names@) == distinct(task_names(tasks@)),
{
    let mut names: Vec<String> = Vec::new();
    let mut i: usize = 0;
    while i < tasks.len()
        invariant
            i <= tasks.len(),
            views(names@) == distinct(task_names(tasks@.take(i as int))),
        decreases tasks.len() - i,
    {
        let ghost prev = task_names(tasks@.take(i as int));
        let ghost cur = task_names(tasks@.take(i as int + 1));
        assert(cur.drop_last() =~= prev);
        assert(cur.last() == tasks@[i as int].name@);
        let found = index_of_str(&names, tasks[i].name.as_str());
        if found.is_none() {
            let ghost before = names@;
            let nm = tasks[i].name.clone();
            names.push(nm);
            assert(views(names@) =~= views(before).push(tasks@[i as int].name@)) by {
                assert(views(names@).len() == views(before).len() + 1);
            }
        }
        i = i + 1;
    }
    assert(tasks@.take(tasks.len() as int) =~= tasks@);
    names
}

/// Position of the last task named `name`.
fn last_task_index(tasks: &Vec<TaskNode>, name: &str) -> (r: Option<usize>)
    ensures
        match r {
            Some(t) => t as int == last_task_named(tasks@, name@),
            None => last_task_named(tasks@, name@) == -1,
        },
{
    proof { lemma_last_task_named(tasks@, name@); }
    let mut j: usize = tasks.len();
    while j > 0
        invariant
            j <= tasks.len(),
            forall|k: int| j <= k < tasks.len() ==> tasks@[k].name@ != name@,
            -1 <= last_task_named(tasks@, name@) < tasks.len(),
            last_task_named(tasks@, name@) >= 0 ==> tasks@[last_task_named(tasks@, name@)].name@ == name@,
            last_task_named(tasks@, name@) >= 0 ==> forall|k: int|
                last_task_named(tasks@, name@) < k < tasks.len() ==> tasks@[k].name@ != name@,
            last_task_named(tasks@, name@) == -1 ==> forall|k: int|
                0 <= k < tasks.len() ==> tasks@[k].name@ != name@,
        decreases j,
    {
        if crate::text::str_eq(tasks[j - 1].name.as_str(), name) {
            return Some(j - 1);
        }
        j = j - 1;
    }
    None
}

/// The positions in `names` of the entries of `parent_names` (names that are
/// not models of the run are left out).
fn parent_positions(names: &Vec<String>, parent_names: &Vec<String>) -> (r: Vec<usize>)
    requires
        views(names@).no_duplicates(),
    ensures
        forall|m: int| 0 <= m < r@.len() ==> r@[m] < names@.len(),
        forall|j: int| 0 <= j < names@.len() ==>
            (r@.contains(j as usize) <==> views(parent_names@).contains(views(names@)[j])),
{
    let mut r: Vec<usize> = Vec::new();
    let mut k: usize = 0;
    while k < parent_names.len()
        invariant
            k <= parent_names.len(),
            views(names@).no_duplicates(),
            forall|m: int| 0 <= m < r@.len() ==> r@[m] < names@.len(),
            forall|j: int| 0 <= j < names@.len() ==>
                (r@.contains(j as usize) <==> views(parent_names@.take(k as int)).contains(views(names@)[j])),
        decreases parent_names.len() - k,
    {
        let ghost pv = parent_names@[k as int]@;
        assert(views(parent_names@.take(k as int + 1)) =~= views(parent_names@.take(k as int)).push(pv));
        let found = index_of_str(names, parent_names[k].as_str());
        let ghost old_r = r@;
        match found {
            Some(j0) => {
                r.push(j0);
                assert forall|j: int| 0 <= j < names@.len() implies
                    (r@.contains(j as usize) <==> views(parent_names@.take(k as int + 1)).contains(views(names@)[j])) by {
                    lemma_seq_push_contains(old_r, j0, j as usize);
                    lemma_seq_push_contains(views(parent_names@.take(k as int)), pv, views(names@)[j]);
                    assert(views(names@)[j0 as int] == pv);
                    if views(names@)[j] == pv && j != j0 as int {
                        assert(views(names@)[j] == views(names@)[j0 as int]);
                    }
                }
            },
            None => {
                assert forall|j: int| 0 <= j < names@.len() implies
                    (r@.contains(j as usize) <==> views(parent_names@.take(k as int + 1)).contains(views(names@)[j])) by {
                    lemma_seq_push_contains(views(parent_names@.take(k as int)), pv, views(names@)[j]);
                    assert(views(names@)[j] == names@[j]@);
                }
            },
        }
        k = k + 1;
    }
    assert(parent_names@.take(parent_names.len() as int) =~= parent_names@);
    r
}

impl DagScheduler {
    /// Builds the scheduler for a run over `tasks`. A name that occurs more
    /// than once stands for its last task; parents that are not models of
    /// the run (sources, seeds) are not waited for.
    pub fn new(tasks: &Vec<TaskNode>) -> (s: Self)
        ensures
            s.wf(),
            s.names_view() == distinct(task_names(tasks@)),
            forall|i: int| 0 <= i < s.len() ==> s.status_at(i) == TaskStatus::Pending,
            forall|i: int, j: int| 0 <= i < s.len() && 0 <= j < s.len() ==>
                (s.has_parent(i, j) <==> tasks@[last_task_named(tasks@, s.names_view()[i])].parents_view().contains(
                    s.names_view()[j])),
    {
        let names = distinct_task_names(tasks);
        proof { lemma_distinct(task_names(tasks@)); }
        let mut parents: Vec<Vec<usize>> = Vec::new();
        let mut status: Vec<TaskStatus> = Vec::new();
        let mut i: usize = 0;
        while i < names.len()
            invariant
                i <= names.len(),
                views(names@) == distinct(task_names(tasks@)),
                views(names@).no_duplicates(),
                forall|x: Seq<char>| views(names@).contains(x) <==> task_names(tasks@).contains(x),
                parents@.len() == i,
                status@.len() == i,
                forall|q: int| 0 <= q < i ==> status@[q] == TaskStatus::Pending,
                forall|q: int, m: int| 0 <= q < i && 0 <= m < parents@[q]@.len() ==> parents@[q]@[m] < names@.len(),
                forall|q: int, j: int| 0 <= q < i && 0 <= j < names@.len() ==>
                    (parents@[q]@.contains(j as usize) <==> tasks@[last_task_named(tasks@, views(names@)[q])].parents_view().contains(
                        views(names@)[j])),
            decreases names.len() - i,
        {
            let ghost nm = views(names@)[i as int];
            assert(views(names@).contains(nm));
            assert(task_names(tasks@).contains(nm));
            proof { lemma_last_task_named(tasks@, nm); }
            let t = last_task_index(tasks, names[i].as_str());
            let plist = match t {
                Some(t) => parent_positions(&names, &tasks[t].parent_names),
                None => {
                    proof {
                        let tn = task_names(tasks@);
                        let k = choose|k: int| 0 <= k < tn.len() && tn[k] == nm;
                        assert(tasks@[k].name@ == nm);
                    }
                    Vec::new()
                },
            };
            parents.push(plist);
            status.push(TaskStatus::Pending);
            i = i + 1;
        }
        let s = DagScheduler { names, parents, status };
        assert forall|q: int, j: int| 0 <= q < s.len() && 0 <= j < s.len() implies
            (s.has_parent(q, j) <==> s.parents@[q]@.contains(j as usize)) by {
            if s.parents@[q]@.contains(j as usize) {
                let m = choose|m: int| 0 <= m < s.parents@[q]@.len() && s.parents@[q]@[m] == j as usize;
                assert(s.parent_at(q, m) == j);
            }
        }
        s
    }
}

/// Order of the statuses: a model only moves forward.
pub open spec fn status_rank(s: TaskStatus) -> int {
    match s {
        TaskStatus::Pending => 0,
        TaskStatus::Running => 1,
        TaskStatus::Completed => 2,
    }
}

impl DagScheduler {
    /// Number of distinct models in the run.
    pub fn num_tasks(&self) -> (n: usize)
        ensures
            n == self.len(),
    {
        self.names.len()
    }

    /// Name of model `i`.
    pub fn name_of(&self, i: usize) -> (r: String)
        requires
            self.wf(),
            i < self.len(),
        ensures
            r@ == self.names_view()[i as int],
    {
        self.names[i].clone()
    }

    /// Status of model `i`.
    pub fn status_of(&self, i: usize) -> (r: TaskStatus)
        requires
            self.wf(),
            i < self.len(),
        ensures
            r == self.status_at(i as int),
    {
        self.status[i]
    }

    fn parents_completed(&self, i: usize) -> (b: bool)
        requires
            self.wf(),
            i < self.len(),
        ensures
            b == (forall|k: int| 0 <= k < self.parent_count(i as int) ==>
                self.status_at(#[trigger] self.parent_at(i as int, k)) == TaskStatus::Completed),
    {
        let ps = &self.parents[i];
        let mut k: usize = 0;
        while k < ps.len()
            invariant
                self.wf(),
                i < self.len(),
                ps@ == self.parents@[i as int]@,
                k <= ps.len(),
                forall|q: int| 0 <= q < k ==>
                    self.status_at(#[trigger] self.parent_at(i as int, q)) == TaskStatus::Completed,
            decreases ps.len() - k,
        {
            let j = ps[k];
            assert(self.parent_at(i as int, k as int) == j);
            if self.status[j] != TaskStatus::Completed {
                return false;
            }
            k = k + 1;
        }
        true
    }

    /// Launches the ready models: every pending model whose in-pipeline
    /// parents have all completed becomes running, and their names are
    /// returned in the run's order.
    pub fn take_ready(&mut self) -> (r: Vec<String>)
        requires
            old(self).wf(),
        ensures
            final(self).wf(),
            views(r@) == old(self).ready_names(),
            final(self).names_view() == old(self).names_view(),
            final(self).len() == old(self).len(),
            forall|i: int, k: int| 0 <= i < old(self).len() ==>
                final(self).parent_count(i) == old(self).parent_count(i)
                && final(self).parent_at(i, k) == old(self).parent_at(i, k),
            forall|i: int| 0 <= i < old(self).len() ==> final(self).status_at(i) == (
                if old(self).is_ready(i) { TaskStatus::Running } else { old(self).status_at(i) }),
            // a model is launched only when each of its in-pipeline parents has completed
            forall|i: int, j: int| 0 <= i < old(self).len() && 0 <= j < old(self).len()
                && old(self).status_at(i) != TaskStatus::Running
                && final(self).status_at(i) == TaskStatus::Running
                && old(self).has_parent(i, j)
                ==> old(self).status_at(j) == TaskStatus::Completed,
            forall|i: int| 0 <= i < old(self).len() ==>
                status_rank(old(self).status_at(i)) <= status_rank(final(self).status_at(i)),
            forall|i: int| 0 <= i < old(self).len() ==> !final(self).is_ready(i),
    {
        let n = self.names.len();
        let mut r: Vec<String> = Vec::new();
        let mut idx: Vec<usize> = Vec::new();
        let mut i: usize = 0;
        while i < n
            invariant
                self.wf(),
                n == self.len(),
                i <= n,
                views(r@) == self.ready_prefix(i as int),
                forall|m: int| 0 <= m < idx@.len() ==> idx@[m] < n && self.is_ready(idx@[m] as int),
                forall|q: int| 0 <= q < i && self.is_ready(q) ==> idx@.contains(q as usize),
            decreases n - i,
        {
            if self.status[i] == TaskStatus::Pending && self.parents_completed(i) {
                let nm = self.names[i].clone();
                let ghost before = r@;
                let ghost idx_before = idx@;
                r.push(nm);
                idx.push(i);
                assert forall|q: int| 0 <= q < i + 1 && self.is_ready(q) implies idx@.contains(q as usize) by {
                    lemma_seq_push_contains(idx_before, i, q as usize);
                }
                assert(views(r@) =~= views(before).push(self.names_view()[i as int])) by {
                    assert(views(r@).len() == views(before).len() + 1);
                }
                assert(idx@[idx@.len() - 1] == i);
            }
            i = i + 1;
        }
        let ghost pre = *self;
        let mut m: usize = 0;
        while m < idx.len()
            invariant
                pre.wf(),
                n == pre.len(),
                self.names == pre.names,
                self.parents == pre.parents,
                self.status@.len() == n,
                forall|q: int| 0 <= q < idx@.len() ==> idx@[q] < n && pre.is_ready(idx@[q] as int),
                forall|q: int| 0 <= q < n && pre.is_ready(q) ==> idx@.contains(q as usize),
                m <= idx@.len(),
                forall|q: int| 0 <= q < n ==> self.status@[q] == (
                    if idx@.take(m as int).contains(q as usize) { TaskStatus::Running } else { pre.status@[q] }),
            decreases idx.len() - m,
        {
            let q0 = idx[m];
            self.status.set(q0, TaskStatus::Running);
            assert forall|q: int| 0 <= q < n implies self.status@[q] == (
                if idx@.take(m as int + 1).contains(q as usize) { TaskStatus::Running } else { pre.status@[q] }) by {
                assert(idx@.take(m as int + 1) =~= idx@.take(m as int).push(q0));
                lemma_seq_push_contains(idx@.take(m as int), q0, q as usize);
            }
            m = m + 1;
        }
        assert(idx@.take(idx@.len() as int) =~= idx@);
        assert forall|q: int| 0 <= q < n implies self.status_at(q) == (
            if pre.is_ready(q) { TaskStatus::Running } else { pre.status_at(q) }) by {
            if idx@.contains(q as usize) {
                let w = choose|w: int| 0 <= w < idx@.len() && idx@[w] == q as usize;
                assert(pre.is_ready(idx@[w] as int));
            }
        }
        assert forall|q: int, k: int| 0 <= q < n && 0 <= k < self.parent_count(q)
            implies self.parent_at(q, k) == pre.parent_at(q, k) && 0 <= #[trigger] self.parent_at(q, k) < self.len() by {
            assert(pre.parent_at(q, k) < pre.len());
        }
        assert forall|q: int, j: int| 0 <= q < n && 0 <= j < n
            && pre.status_at(q) != TaskStatus::Running
            && self.status_at(q) == TaskStatus::Running
            && pre.has_parent(q, j)
            implies pre.status_at(j) == TaskStatus::Completed by {
            let k = choose|k: int| 0 <= k < pre.parent_count(q) && pre.parent_at(q, k) == j;
            assert(pre.is_ready(q));
        }
        assert forall|q: int| 0 <= q < n implies !self.is_ready(q) by {
            if self.status_at(q) == TaskStatus::Pending {
                assert(!pre.is_ready(q));
                assert(pre.status_at(q) == TaskStatus::Pending);
                let k = choose|k: int| 0 <= k < pre.parent_count(q)
                    && pre.status_at(pre.parent_at(q, k)) != TaskStatus::Completed;
                let j = pre.parent_at(q, k);
                assert(self.parent_at(q, k) == j);
                assert(self.status_at(j) != TaskStatus::Completed);
            }
        }
        r
    }

    /// Records that model `name` has completed. Returns whether the run
    /// holds a model of that name (the statuses are unchanged otherwise).
    pub fn mark_completed(&mut self, name: &str) -> (found: bool)
        requires
            old(self).wf(),
        ensures
            final(self).wf(),
            found == old(self).names_view().contains(name@),
            final(self).names_view() == old(self).names_view(),
            final(self).len() == old(self).len(),
            forall|i: int, k: int| 0 <= i < old(self).len() ==>
                final(self).parent_count(i) == old(self).parent_count(i)
                && final(self).parent_at(i, k) == old(self).parent_at(i, k),
            forall|i: int| 0 <= i < old(self).len() ==> final(self).status_at(i) == (
                if old(self).names_view()[i] == name@ { TaskStatus::Completed } else { old(self).status_at(i) }),
            forall|i: int| 0 <= i < old(self).len() ==>
                status_rank(old(self).status_at(i)) <= status_rank(final(self).status_at(i)),
    {
        let found = index_of_str(&self.names, name);
        match found {
            Some(i) => {
                let ghost pre = *self;
                self.status.set(i, TaskStatus::Completed);
                assert forall|q: int, k: int| 0 <= q < pre.len() && 0 <= k < self.parent_count(q)
                    implies 0 <= #[trigger] self.parent_at(q, k) < self.len() by {
                    assert(self.parent_at(q, k) == pre.parent_at(q, k));
                }
                assert forall|q: int| 0 <= q < pre.len() implies self.status_at(q) == (
                    if pre.names_view()[q] == name@ { TaskStatus::Completed } else { pre.status_at(q) }) by {
                    assert(pre.names_view()[i as int] == name@);
                    if pre.names_view()[q] == name@ && q != i {
                        assert(pre.names_view()[q] == pre.names_view()[i as int]);
                    }
                }
                true
            },
            None => {
                assert forall|q: int| 0 <= q < self.len() implies self.names_view()[q] != name@ by {
                    assert(self.names_view()[q] == self.names@[q]@);
                }
                false
            },
        }
    }

    /// What the executor does next, given the statuses.
    pub fn decision(&self) -> (d: DagDecision)
        requires
            self.wf(),
        ensures
            d == self.spec_decision(),
    {
        let mut any_running = false;
        let mut any_pending = false;
        let mut i: usize = 0;
        while i < self.status.len()
            invariant
                self.wf(),
                i <= self.len(),
                any_running == exists|q: int| 0 <= q < i && self.status_at(q) == TaskStatus::Running,
                any_pending == exists|q: int| 0 <= q < i && self.status_at(q) == TaskStatus::Pending,
            decreases self.status.len() - i,
        {
            let st = self.status[i];
            assert(self.status_at(i as int) == st);
            if st == TaskStatus::Running {
                any_running = true;
            }
            if st == TaskStatus::Pending {
                any_pending = true;
            }
            assert(any_running == exists|q: int| 0 <= q < i + 1 && self.status_at(q) == TaskStatus::Running) by {
                if any_running && st != TaskStatus::Running {
                    let w = choose|w: int| 0 <= w < i && self.status_at(w) == TaskStatus::Running;
                    assert(0 <= w < i + 1);
                }
            }
            assert(any_pending == exists|q: int| 0 <= q < i + 1 && self.status_at(q) == TaskStatus::Pending) by {
                if any_pending && st != TaskStatus::Pending {
                    let w = choose|w: int| 0 <= w < i && self.status_at(w) == TaskStatus::Pending;
                    assert(0 <= w < i + 1);
                }
            }
            i = i + 1;
        }
        if any_running {
            DagDecision::Wait
        } else if any_pending {
            DagDecision::Stalled
        } else {
            DagDecision::Finished
        }
    }

    /// The error a stalled run stops with.
    pub fn stall_error() -> (e: TitanError)
        ensures
            e matches TitanError::CircularDependency(m) && m@ == "Unresolved dependencies remained"@,
    {
        TitanError::CircularDependency(to_owned_string("Unresolved dependencies remained"))
    }
}

impl DagScheduler {
    /// `c` is a cycle of pending models, each waiting on the next (and the
    /// last on the first).
    pub open spec fn is_pending_cycle(&self, c: Seq<int>) -> bool {
        &&& c.len() >= 1
        &&& forall|m: int| 0 <= m < c.len() ==> 0 <= #[trigger] c[m] < self.len()
            && self.status_at(c[m]) == TaskStatus::Pending
        &&& forall|m: int| 0 <= m < c.len() ==> self.has_parent(#[trigger] c[m], c[(m + 1) % (c.len() as int)])
    }

    /// A pending parent of `i` (meaningful when one exists).
    pub open spec fn pending_parent(&self, i: int) -> int {
        choose|j: int| 0 <= j < self.len() && self.has_parent(i, j) && self.status_at(j) == TaskStatus::Pending
    }

    /// Walk of `m` steps from `start` along pending parents.
    pub open spec fn pending_walk(&self, start: int, m: nat) -> Seq<int>
        decreases m,
    {
        if m == 0 {
            seq![start]
        } else {
            let w = self.pending_walk(start, (m - 1) as nat);
            w.push(self.pending_parent(w.last()))
        }
    }
}

/// Every pending model has a pending in-pipeline parent.
#[verifier::opaque]
pub open spec fn pending_closed(s: DagScheduler) -> bool {
    forall|i: int| 0 <= i < s.len() && s.status_at(i) == TaskStatus::Pending ==>
        exists|j: int| 0 <= j < s.len() && s.has_parent(i, j) && s.status_at(j) == TaskStatus::Pending
}

proof fn lemma_pending_walk(s: DagScheduler, start: int, m: nat)
    requires
        s.wf(),
        0 <= start < s.len(),
        s.status_at(start) == TaskStatus::Pending,
        pending_closed(s),
    ensures
        s.pending_walk(start, m).len() == m + 1,
        forall|t: int| 0 <= t <= m ==> 0 <= #[trigger] s.pending_walk(start, m)[t] < s.len()
            && s.status_at(s.pending_walk(start, m)[t]) == TaskStatus::Pending,
        forall|t: int| 0 <= t < m ==> s.has_parent(#[trigger] s.pending_walk(start, m)[t], s.pending_walk(start, m)[t + 1]),
    decreases m,
{
    if m > 0 {
        lemma_pending_walk(s, start, (m - 1) as nat);
        let w = s.pending_walk(start, (m - 1) as nat);
        let x = w.last();
        assert(w[w.len() - 1] == x);
        reveal(pending_closed);
        assert(exists|j: int| 0 <= j < s.len() && s.has_parent(x, j) && s.status_at(j) == TaskStatus::Pending);
        let nw = s.pending_walk(start, m);
        assert(nw == w.push(s.pending_parent(x)));
        assert forall|t: int| 0 <= t <= m implies 0 <= #[trigger] nw[t] < s.len()
            && s.status_at(nw[t]) == TaskStatus::Pending by {
            if t < m {
                assert(nw[t] == w[t]);
            }
        }
        assert forall|t: int| 0 <= t < m implies s.has_parent(#[trigger] nw[t], nw[t + 1]) by {
            assert(nw[t] == w[t]);
            if t + 1 < m {
                assert(nw[t + 1] == w[t + 1]);
            }
        }
    }
}

proof fn lemma_stalled_pending_have_pending_parent(s: DagScheduler)
    requires
        s.wf(),
        s.spec_decision() == DagDecision::Stalled,
        forall|i: int| 0 <= i < s.len() ==> !s.is_ready(i),
    ensures
        pending_closed(s),
{
    reveal(pending_closed);
    let n = s.len();
    assert forall|i: int| 0 <= i < n && s.status_at(i) == TaskStatus::Pending implies
        exists|j: int| 0 <= j < n && s.has_parent(i, j) && s.status_at(j) == TaskStatus::Pending by {
        assert(!s.is_ready(i));
        let k = choose|k: int| 0 <= k < s.parent_count(i)
            && s.status_at(s.parent_at(i, k)) != TaskStatus::Completed;
        let j = s.parent_at(i, k);
        assert(0 <= j < n);
        assert(s.has_parent(i, j));
        if s.status_at(j) == TaskStatus::Running {
            assert(s.any_with_status(TaskStatus::Running));
        }
    }
}

proof fn lemma_pigeonhole(w: Seq<int>, n: int)
    requires
        0 <= n,
        w.len() == n + 1,
        forall|t: int| 0 <= t < w.len() ==> 0 <= #[trigger] w[t] < n,
    ensures
        exists|a: int, b: int| 0 <= a < b < w.len() && w[a] == w[b],
{
    if w.no_duplicates() {
        w.unique_seq_to_set();
        vstd::set_lib::lemma_int_range(0, n);
        assert forall|x: int| w.to_set().contains(x) implies vstd::set_lib::set_int_range(0, n).contains(x) by {
            let t = choose|t: int| 0 <= t < w.len() && w[t] == x;
            assert(0 <= w[t] < n);
        }
        vstd::set_lib::lemma_len_subset(w.to_set(), vstd::set_lib::set_int_range(0, n));
        assert(false);
    }
    let (a0, b0) = choose|a: int, b: int| 0 <= a < w.len() && 0 <= b < w.len() && a != b && w[a] == w[b];
    if a0 < b0 {
        assert(0 <= a0 < b0 < w.len() && w[a0] == w[b0]);
    } else {
        assert(0 <= b0 < a0 < w.len() && w[b0] == w[a0]);
    }
}

proof fn lemma_cycle_from_walk(s: DagScheduler, w: Seq<int>, a: int, b: int)
    requires
        0 <= a < b < w.len(),
        w[a] == w[b],
        forall|t: int| 0 <= t < w.len() ==> 0 <= #[trigger] w[t] < s.len()
            && s.status_at(w[t]) == TaskStatus::Pending,
        forall|t: int| 0 <= t < w.len() - 1 ==> s.has_parent(#[trigger] w[t], w[t + 1]),
    ensures
        s.is_pending_cycle(w.subrange(a, b)),
{
    let c = w.subrange(a, b);
    let len = c.len() as int;
    assert forall|m: int| 0 <= m < c.len() implies 0 <= #[trigger] c[m] < s.len()
        && s.status_at(c[m]) == TaskStatus::Pending by {
        assert(c[m] == w[a + m]);
    }
    assert forall|m: int| 0 <= m < c.len() implies s.has_parent(#[trigger] c[m], c[(m + 1) % len]) by {
        assert(c[m] == w[a + m]);
        assert(s.has_parent(w[a + m], w[a + m + 1]));
        if m + 1 < len {
            vstd::arithmetic::div_mod::lemma_small_mod((m + 1) as nat, len as nat);
            assert(c[m + 1] == w[a + m + 1]);
        } else {
            vstd::arithmetic::div_mod::lemma_mod_self_0(len);
            assert(c[0] == w[a]);
        }
    }
}

/// When nothing runs, no model is ready and models
/// remain, the remaining models contain a cycle in which each waits on the
/// next. A run therefore stops with a circular dependency error only when
/// such a cycle exists among the models it has not started.
pub proof fn lemma_stall_implies_cycle(s: DagScheduler)
    requires
        s.wf(),
        s.spec_decision() == DagDecision::Stalled,
        forall|i: int| 0 <= i < s.len() ==> !s.is_ready(i),
    ensures
        exists|c: Seq<int>| s.is_pending_cycle(c),
{
    let n = s.len();
    lemma_stalled_pending_have_pending_parent(s);
    let start = choose|i: int| 0 <= i < n && s.status_at(i) == TaskStatus::Pending;
    let w = s.pending_walk(start, n as nat);
    lemma_pending_walk(s, start, n as nat);
    lemma_pigeonhole(w, n);
    let (a, b) = choose|a: int, b: int| 0 <= a < b < w.len() && w[a] == w[b];
    lemma_cycle_from_walk(s, w, a, b);
    assert(s.is_pending_cycle(w.subrange(a, b)));
}

/// A cycle of pending models blocks itself: none of its models is ready,
/// the run cannot finish while the cycle is pending, and once nothing is
/// running it is stalled.
pub proof fn lemma_pending_cycle_blocks(s: DagScheduler, c: Seq<int>)
    requires
        s.wf(),
        s.is_pending_cycle(c),
    ensures
        forall|m: int| 0 <= m < c.len() ==> !s.is_ready(#[trigger] c[m]),
        s.spec_decision() != DagDecision::Finished,
        !s.any_with_status(TaskStatus::Running) ==> s.spec_decision() == DagDecision::Stalled,
{
    assert forall|m: int| 0 <= m < c.len() implies !s.is_ready(#[trigger] c[m]) by {
        let next = c[(m + 1) % (c.len() as int)];
        assert(s.has_parent(c[m], next));
        let k = choose|k: int| 0 <= k < s.parent_count(c[m]) && s.parent_at(c[m], k) == next;
        assert(0 <= (m + 1) % (c.len() as int) < c.len());
        assert(s.status_at(next) == TaskStatus::Pending);
    }
    assert(0 <= c[0] < s.len() && s.status_at(c[0]) == TaskStatus::Pending);
    assert(s.any_with_status(TaskStatus::Pending));
}

/// Launching the ready models (as `take_ready` does: ready models become
/// running, the others keep their status) leaves a pending cycle pending:
/// a run whose pending models hold a cycle never gets past it.
pub proof fn lemma_launch_keeps_pending_cycle(before: DagScheduler, after: DagScheduler, c: Seq<int>)
    requires
        before.wf(),
        before.is_pending_cycle(c),
        after.len() == before.len(),
        forall|i: int, k: int| 0 <= i < before.len() ==>
            after.parent_count(i) == before.parent_count(i) && after.parent_at(i, k) == before.parent_at(i, k),
        forall|i: int| 0 <= i < before.len() ==> after.status_at(i) == (
            if before.is_ready(i) { TaskStatus::Running } else { before.status_at(i) }),
    ensures
        after.is_pending_cycle(c),
{
    lemma_pending_cycle_blocks(before, c);
    assert forall|m: int| 0 <= m < c.len() implies 0 <= #[trigger] c[m] < after.len()
        && after.status_at(c[m]) == TaskStatus::Pending by {
        assert(!before.is_ready(c[m]));
    }
    assert forall|m: int| 0 <= m < c.len() implies after.has_parent(#[trigger] c[m], c[(m + 1) % (c.len() as int)]) by {
        let next = c[(m + 1) % (c.len() as int)];
        assert(before.has_parent(c[m], next));
        let k = choose|k: int| 0 <= k < before.parent_count(c[m]) && before.parent_at(c[m], k) == next;
        assert(after.parent_at(c[m], k) == next);
    }
}

/// `after` has the models and parent links of `before`.
pub open spec fn same_graph(before: DagScheduler, after: DagScheduler) -> bool {
    &&& after.len() == before.len()
    &&& forall|i: int| 0 <= i < before.len() ==> #[trigger] after.parent_count(i) == before.parent_count(i)
    &&& forall|i: int, k: int| 0 <= i < before.len() ==> #[trigger] after.parent_at(i, k) == before.parent_at(i, k)
}

/// One step of a run: launching the ready models (as `take_ready` does),
/// or recording that a running model has completed (as `mark_completed`
/// does for it).
pub open spec fn run_step(before: DagScheduler, after: DagScheduler) -> bool {
    &&& same_graph(before, after)
    &&& {
        ||| forall|i: int| 0 <= i < before.len() ==> #[trigger] after.status_at(i) == (
                if before.is_ready(i) { TaskStatus::Running } else { before.status_at(i) })
        ||| exists|m: int| 0 <= m < before.len() && before.status_at(m) == TaskStatus::Running
                && forall|i: int| 0 <= i < before.len() ==> #[trigger] after.status_at(i) == (
                    if i == m { TaskStatus::Completed } else { before.status_at(i) })
    }
}

/// Every model that has started (running or completed) has all its
/// in-pipeline parents completed.
pub open spec fn parents_first(s: DagScheduler) -> bool {
    forall|i: int, j: int| 0 <= i < s.len() && 0 <= j < s.len() && s.status_at(i) != TaskStatus::Pending
        && #[trigger] s.has_parent(i, j) ==> #[trigger] s.status_at(j) == TaskStatus::Completed
}

proof fn lemma_step_keeps_parents_first(before: DagScheduler, after: DagScheduler)
    requires
        parents_first(before),
        run_step(before, after),
    ensures
        parents_first(after),
{
    assert forall|i: int, j: int| 0 <= i < after.len() && 0 <= j < after.len()
        && after.status_at(i) != TaskStatus::Pending && #[trigger] after.has_parent(i, j)
        implies #[trigger] after.status_at(j) == TaskStatus::Completed by {
        let k = choose|k: int| 0 <= k < after.parent_count(i) && after.parent_at(i, k) == j;
        assert(after.parent_count(i) == before.parent_count(i) && after.parent_at(i, k) == before.parent_at(i, k));
        assert(before.has_parent(i, j));
        if forall|q: int| 0 <= q < before.len() ==> #[trigger] after.status_at(q) == (
                if before.is_ready(q) { TaskStatus::Running } else { before.status_at(q) }) {
            assert(after.status_at(i) == (if before.is_ready(i) { TaskStatus::Running } else { before.status_at(i) }));
            assert(after.status_at(j) == (if before.is_ready(j) { TaskStatus::Running } else { before.status_at(j) }));
            if before.is_ready(i) {
                assert(before.status_at(before.parent_at(i, k)) == TaskStatus::Completed);
            }
        } else {
            let m = choose|m: int| 0 <= m < before.len() && before.status_at(m) == TaskStatus::Running
                && forall|q: int| 0 <= q < before.len() ==> #[trigger] after.status_at(q) == (
                    if q == m { TaskStatus::Completed } else { before.status_at(q) });
            assert(after.status_at(i) == (if i == m { TaskStatus::Completed } else { before.status_at(i) }));
            assert(after.status_at(j) == (if j == m { TaskStatus::Completed } else { before.status_at(j) }));
        }
    }
}

/// Over a whole run that starts with every model pending and proceeds by
/// launching ready models and completing running ones, a model never
/// starts before each of its in-pipeline parents has completed: in every
/// state of the run, every started model's parents are completed.
pub proof fn lemma_run_starts_after_parents(run: Seq<DagScheduler>)
    requires
        run.len() >= 1,
        forall|i: int| 0 <= i < run[0].len() ==> run[0].status_at(i) == TaskStatus::Pending,
        forall|k: int| 0 <= k < run.len() - 1 ==> run_step(#[trigger] run[k], run[k + 1]),
    ensures
        forall|k: int| 0 <= k < run.len() ==> parents_first(#[trigger] run[k]),
    decreases run.len(),
{
    if run.len() == 1 {
        assert(parents_first(run[0]));
    } else {
        let prefix = run.drop_last();
        assert forall|k: int| 0 <= k < prefix.len() - 1 implies run_step(#[trigger] prefix[k], prefix[k + 1]) by {
            assert(run_step(run[k], run[k + 1]));
        }
        lemma_run_starts_after_parents(prefix);
        let n = run.len() - 1;
        assert(parents_first(prefix[n - 1]));
        assert(run_step(run[n - 1], run[n]));
        lemma_step_keeps_parents_first(run[n - 1], run[n]);
        assert forall|k: int| 0 <= k < run.len() implies parents_first(#[trigger] run[k]) by {
            if k < n {
                assert(prefix[k] == run[k]);
            }
        }
    }
}

proof fn lemma_run_rank_prefix(run: Seq<DagScheduler>, k1: int, k2: int, i: int)
    requires
        0 <= k1 <= k2 < run.len(),
        0 <= i < run[0].len(),
        forall|k: int| 0 <= k < run.len() - 1 ==> run_step(#[trigger] run[k], run[k + 1]),
    ensures
        status_rank(run[k1].status_at(i)) <= status_rank(run[k2].status_at(i)),
        run[k2].len() == run[0].len(),
    decreases k2,
{
    if k2 > 0 {
        assert(run_step(run[k2 - 1], run[k2]));
        if k1 < k2 {
            lemma_run_rank_prefix(run, k1, k2 - 1, i);
        } else {
            lemma_run_rank_prefix(run, 0, k2 - 1, i);
        }
        let b = run[k2 - 1];
        let a = run[k2];
        if !(forall|q: int| 0 <= q < b.len() ==> #[trigger] a.status_at(q) == (
                if b.is_ready(q) { TaskStatus::Running } else { b.status_at(q) })) {
            let m = choose|m: int| 0 <= m < b.len() && b.status_at(m) == TaskStatus::Running
                && forall|q: int| 0 <= q < b.len() ==> #[trigger] a.status_at(q) == (
                    if q == m { TaskStatus::Completed } else { b.status_at(q) });
            assert(a.status_at(i) == (if i == m { TaskStatus::Completed } else { b.status_at(i) }));
        } else {
            assert(a.status_at(i) == (if b.is_ready(i) { TaskStatus::Running } else { b.status_at(i) }));
        }
    }
}

/// Over a whole run, no model's status ever goes back: each model is
/// launched at most once and, once completed, stays completed; and when the
/// run is finished every model has completed.
pub proof fn lemma_run_statuses_advance(run: Seq<DagScheduler>)
    requires
        run.len() >= 1,
        forall|k: int| 0 <= k < run.len() - 1 ==> run_step(#[trigger] run[k], run[k + 1]),
    ensures
        forall|k1: int, k2: int, i: int| 0 <= k1 <= k2 < run.len() && 0 <= i < run[0].len() ==>
            status_rank(#[trigger] run[k1].status_at(i)) <= status_rank(#[trigger] run[k2].status_at(i)),
        forall|k: int| 0 <= k < run.len() && (#[trigger] run[k]).spec_decision() == DagDecision::Finished ==>
            forall|i: int| 0 <= i < run[k].len() ==> #[trigger] run[k].status_at(i) == TaskStatus::Completed,
{
    assert forall|k1: int, k2: int, i: int| 0 <= k1 <= k2 < run.len() && 0 <= i < run[0].len() implies
        status_rank(#[trigger] run[k1].status_at(i)) <= status_rank(#[trigger] run[k2].status_at(i)) by {
        lemma_run_rank_prefix(run, k1, k2, i);
    }
    assert forall|k: int| 0 <= k < run.len() && (#[trigger] run[k]).spec_decision() == DagDecision::Finished implies
        forall|i: int| 0 <= i < run[k].len() ==> #[trigger] run[k].status_at(i) == TaskStatus::Completed by {
        assert forall|i: int| 0 <= i < run[k].len() implies #[trigger] run[k].status_at(i) == TaskStatus::Completed by {
            if run[k].status_at(i) == TaskStatus::Running {
                assert(run[k].any_with_status(TaskStatus::Running));
            } else if run[k].status_at(i) == TaskStatus::Pending {
                assert(run[k].any_with_status(TaskStatus::Pending));
            }
        }
    }
}

} // verus!
