//! Waiting for running tasks before shutting down.

use vstd::prelude::*;
use crate::shutdown::error::{Error, Result};
use crate::text::{decimal, decimal_string, str_equal, string_of};

verus! {

/// State of a task.
#[derive(Debug, Clone, Copy, PartialEq, Eq, Structural)]
pub enum TaskStatus {
    /// Running.
    Running,
    /// Finished.
    Completed,
    /// Failed.
    Failed,
}

/// A task the shutdown waits for.
#[derive(Debug, Clone)]
pub struct TaskInfo {
    /// Identifier.
    pub id: String,
    /// Name.
    pub name: String,
    /// State.
    pub status: TaskStatus,
}

/// A task as plain values: identifier, name, state.
pub type TaskView = (Seq<char>, Seq<char>, TaskStatus);

/// The plain values of each task.
pub open spec fn task_views(s: Seq<TaskInfo>) -> Seq<TaskView> {
    s.map_values(|t: TaskInfo| (t.id@, t.name@, t.status))
}

/// Whether task `id` is known.
pub open spec fn has_task(s: Seq<TaskView>, id: Seq<char>) -> bool {
    exists|i: int| 0 <= i < s.len() && (#[trigger] s[i]).0 == id
}

/// Whether no two tasks share an identifier.
pub open spec fn unique_tasks(s: Seq<TaskView>) -> bool {
    forall|i: int, j: int|
        0 <= i < s.len() && 0 <= j < s.len() && i != j ==> (#[trigger] s[i]).0 != (#[trigger] s[j]).0
}

/// How many of the tasks run.
pub open spec fn count_running(s: Seq<TaskView>) -> nat
    decreases s.len(),
{
    if s.len() == 0 {
        0
    } else {
        count_running(s.drop_last()) + if s.last().2 == TaskStatus::Running { 1nat } else { 0nat }
    }
}

/// Whether task `id` is known and running.
pub open spec fn is_running(s: Seq<TaskView>, id: Seq<char>) -> bool {
    exists|i: int| 0 <= i < s.len() && (#[trigger] s[i]).0 == id && s[i].2 == TaskStatus::Running
}

proof fn lemma_count_running_bound(s: Seq<TaskView>)
    ensures
        count_running(s) <= s.len(),
    decreases s.len(),
{
    if s.len() > 0 {
        lemma_count_running_bound(s.drop_last());
    }
}

proof fn lemma_count_running_push(s: Seq<TaskView>, t: TaskView)
    ensures
        count_running(s.push(t)) == count_running(s) + if t.2 == TaskStatus::Running { 1nat } else { 0nat },
{
    assert(s.push(t).drop_last() =~= s);
}

proof fn lemma_count_running_update(s: Seq<TaskView>, i: int, t: TaskView)
    requires
        0 <= i < s.len(),
    ensures
        count_running(s.update(i, t)) + (if s[i].2 == TaskStatus::Running { 1nat } else { 0nat })
            == count_running(s) + (if t.2 == TaskStatus::Running { 1nat } else { 0nat }),
    decreases s.len(),
{
    if i == s.len() - 1 {
        assert(s.update(i, t).drop_last() =~= s.drop_last());
    } else {
        assert(s.update(i, t).drop_last() =~= s.drop_last().update(i, t));
        lemma_count_running_update(s.drop_last(), i, t);
    }
}

proof fn lemma_one_running_below_len(s: Seq<TaskView>, i: int)
    requires
        0 <= i < s.len(),
        s[i].2 != TaskStatus::Running,
    ensures
        count_running(s) < s.len(),
    decreases s.len(),
{
    if i == s.len() - 1 {
        lemma_count_running_bound(s.drop_last());
    } else {
        lemma_one_running_below_len(s.drop_last(), i);
    }
}

/// The tasks with task `id` set to `status`, when it is known.
pub open spec fn with_status(s: Seq<TaskView>, id: Seq<char>, status: TaskStatus) -> Seq<TaskView> {
    s.map_values(|t: TaskView| if t.0 == id { (t.0, t.1, status) } else { t })
}

/// The message when the tasks took too long.
pub open spec fn wait_timeout_message(running: usize) -> Seq<char> {
    "等待任务超时，仍有 "@ + decimal(running as nat) + " 个任务运行中"@
}

/// Keeps the tasks the shutdown must wait for, and how many still run.
#[derive(Debug)]
pub struct TaskWaiter {
    running_count: usize,
    tasks: Vec<TaskInfo>,
}

impl TaskWaiter {
    /// How many tasks run, as counted.
    pub closed spec fn count(&self) -> usize {
        self.running_count
    }

    /// The tasks, in the order they were first registered.
    pub closed spec fn tasks(&self) -> Seq<TaskView> {
        task_views(self.tasks@)
    }

    /// The waiter's invariant: one entry per task, and the count is the
    /// number of running tasks.
    pub open spec fn wf(&self) -> bool {
        &&& unique_tasks(self.tasks())
        &&& self.count() == count_running(self.tasks())
    }

    /// A waiter with no tasks.
    pub fn new() -> (r: Self)
        ensures
            r.wf(),
            r.count() == 0,
            r.tasks().len() == 0,
    {
        let r = TaskWaiter { running_count: 0, tasks: Vec::new() };
        assert(r.tasks() =~= Seq::<TaskView>::empty());
        r
    }

    fn find(&self, id: &str) -> (r: Option<usize>)
        ensures
            r is None <==> !has_task(self.tasks(), id@),
            r matches Some(i) ==> i < self.tasks().len() && self.tasks()[i as int].0 == id@,
    {
        let mut i: usize = 0;
        while i < self.tasks.len()
            invariant
                i <= self.tasks@.len(),
                forall|j: int| 0 <= j < i ==> (#[trigger] self.tasks@[j]).id@ != id@,
            decreases self.tasks.len() - i,
        {
            if str_equal(self.tasks[i].id.as_str(), id) {
                assert(self.tasks()[i as int].0 == self.tasks@[i as int].id@);
                return Some(i);
            }
            i = i + 1;
        }
        assert forall|j: int| 0 <= j < self.tasks().len() implies (#[trigger] self.tasks()[j]).0 != id@ by {
            assert(self.tasks()[j].0 == self.tasks@[j].id@);
        }
        None
    }

    /// Registers a running task; a task of the same identifier is replaced.
    /// The count grows by one unless that task was running already.
    pub fn register_task(&mut self, id: &str, name: &str)
        requires
            old(self).wf(),
        ensures
            final(self).wf(),
            final(self).count() == if is_running(old(self).tasks(), id@) {
                old(self).count() as int
            } else {
                old(self).count() + 1
            },
            has_task(old(self).tasks(), id@) ==> final(self).tasks() == old(self).tasks().map_values(
                |t: TaskView| if t.0 == id@ { (id@, name@, TaskStatus::Running) } else { t },
            ),
            !has_task(old(self).tasks(), id@) ==> final(self).tasks() == old(self).tasks().push(
                (id@, name@, TaskStatus::Running),
            ),
    {
        let task = TaskInfo { id: string_of(id), name: string_of(name), status: TaskStatus::Running };
        match self.find(id) {
            Some(i) => {
                let was_running = self.tasks[i].status == TaskStatus::Running;
                proof {
                    if !was_running {
                        lemma_one_running_below_len(old(self).tasks(), i as int);
                    }
                    lemma_count_running_update(old(self).tasks(), i as int, (id@, name@, TaskStatus::Running));
                }
                self.tasks.set(i, task);
                assert(self.tasks() =~= old(self).tasks().update(i as int, (id@, name@, TaskStatus::Running)));
                assert forall|j: int| 0 <= j < self.tasks().len() implies #[trigger] self.tasks()[j]
                    == (if old(self).tasks()[j].0 == id@ {
                    (id@, name@, TaskStatus::Running)
                } else {
                    old(self).tasks()[j]
                }) by {
                    if j != i {
                        assert(old(self).tasks()[j].0 != id@);
                    }
                }
                assert(self.tasks() =~= old(self).tasks().map_values(
                    |t: TaskView| if t.0 == id@ { (id@, name@, TaskStatus::Running) } else { t },
                ));
                assert(is_running(old(self).tasks(), id@) == was_running) by {
                    if is_running(old(self).tasks(), id@) {
                        let k = choose|k: int| 0 <= k < old(self).tasks().len() && (#[trigger] old(self).tasks()[k]).0 == id@
                            && old(self).tasks()[k].2 == TaskStatus::Running;
                        assert(k == i);
                    }
                }
                let n = self.tasks.len();
                if !was_running {
                    assert(self.running_count < n);
                    self.running_count = self.running_count + 1;
                }
            },
            None => {
                self.tasks.push(task);
                let n = self.tasks.len();
                proof {
                    lemma_count_running_push(old(self).tasks(), (id@, name@, TaskStatus::Running));
                    lemma_count_running_bound(old(self).tasks());
                }
                assert(self.tasks() =~= old(self).tasks().push((id@, name@, TaskStatus::Running)));
                self.running_count = self.running_count + 1;
            },
        }
    }

    fn finish(&mut self, id: &str, status: TaskStatus)
        requires
            old(self).wf(),
            status != TaskStatus::Running,
        ensures
            final(self).wf(),
            final(self).tasks() == with_status(old(self).tasks(), id@, status),
            final(self).count() == if is_running(old(self).tasks(), id@) {
                old(self).count() - 1
            } else {
                old(self).count() as int
            },
    {
        match self.find(id) {
            Some(i) => {
                let mut t = self.tasks.remove(i);
                let was_running = t.status == TaskStatus::Running;
                t.status = status;
                self.tasks.insert(i, t);
                proof {
                    lemma_count_running_update(old(self).tasks(), i as int, (old(self).tasks()[i as int].0, old(self).tasks()[i as int].1, status));
                }
                assert forall|j: int| 0 <= j < self.tasks().len() implies #[trigger] self.tasks()[j]
                    == with_status(old(self).tasks(), id@, status)[j] by {
                    if j != i {
                        assert(old(self).tasks()[j].0 != id@);
                        assert(self.tasks@[j] == old(self).tasks@[j]);
                    }
                }
                assert(self.tasks() =~= with_status(old(self).tasks(), id@, status));
                assert(self.tasks() =~= old(self).tasks().update(i as int, (old(self).tasks()[i as int].0, old(self).tasks()[i as int].1, status)));
                assert(is_running(old(self).tasks(), id@) == was_running) by {
                    if is_running(old(self).tasks(), id@) {
                        let k = choose|k: int| 0 <= k < old(self).tasks().len() && (#[trigger] old(self).tasks()[k]).0 == id@
                            && old(self).tasks()[k].2 == TaskStatus::Running;
                        assert(k == i);
                    }
                }
                if was_running {
                    self.running_count = self.running_count - 1;
                }
            },
            None => {
                assert(self.tasks() =~= with_status(old(self).tasks(), id@, status));
            },
        }
    }

    /// Marks a task finished; the count drops by one when the task was
    /// running.
    pub fn complete_task(&mut self, id: &str) -> (r: Result<()>)
        requires
            old(self).wf(),
        ensures
            r is Ok,
            final(self).wf(),
            final(self).tasks() == with_status(old(self).tasks(), id@, TaskStatus::Completed),
            final(self).count() == if is_running(old(self).tasks(), id@) {
                old(self).count() - 1
            } else {
                old(self).count() as int
            },
    {
        self.finish(id, TaskStatus::Completed);
        Ok(())
    }

    /// Marks a task failed; the count drops by one when the task was
    /// running.
    pub fn fail_task(&mut self, id: &str) -> (r: Result<()>)
        requires
            old(self).wf(),
        ensures
            r is Ok,
            final(self).wf(),
            final(self).tasks() == with_status(old(self).tasks(), id@, TaskStatus::Failed),
            final(self).count() == if is_running(old(self).tasks(), id@) {
                old(self).count() - 1
            } else {
                old(self).count() as int
            },
    {
        self.finish(id, TaskStatus::Failed);
        Ok(())
    }

    /// How many tasks run.
    pub fn running_count(&self) -> (r: usize)
        ensures
            r == self.count(),
    {
        self.running_count
    }

    /// One look while waiting for the tasks, `elapsed_nanos` after the wait
    /// began: done when none runs, failed once the wait took longer than
    /// `timeout_nanos`, otherwise `None` to keep waiting.
    pub fn wait_poll(&self, elapsed_nanos: u64, timeout_nanos: u64) -> (r: Option<Result<()>>)
        ensures
            self.count() == 0 ==> r == Some(Ok::<(), Error>(())),
            self.count() != 0 && elapsed_nanos > timeout_nanos ==> (r matches Some(
                Err(Error::Timeout(m)),
            ) && m@ == wait_timeout_message(self.count())),
            self.count() != 0 && elapsed_nanos <= timeout_nanos ==> r is None,
    {
        if self.running_count == 0 {
            return Some(Ok(()));
        }
        if elapsed_nanos > timeout_nanos {
            let mut m = string_of("等待任务超时，仍有 ");
            let n = decimal_string(self.running_count as u64);
            m.append(n.as_str());
            m.append(" 个任务运行中");
            return Some(Err(Error::Timeout(m)));
        }
        None
    }

    /// Every task.
    pub fn get_tasks(&self) -> (r: Vec<TaskInfo>)
        ensures
            task_views(r@) == self.tasks(),
    {
        let mut r: Vec<TaskInfo> = Vec::new();
        let mut i: usize = 0;
        while i < self.tasks.len()
            invariant
                i <= self.tasks@.len(),
                r@.len() == i,
                task_views(r@) == task_views(self.tasks@.subrange(0, i as int)),
            decreases self.tasks.len() - i,
        {
            let t = &self.tasks[i];
            let ghost before = r@;
            r.push(TaskInfo { id: t.id.clone(), name: t.name.clone(), status: t.status });
            assert forall|k: int| 0 <= k < r@.len() implies #[trigger] task_views(r@)[k] == task_views(
                self.tasks@.subrange(0, i as int + 1),
            )[k] by {
                if k < i {
                    assert(r@[k] == before[k]);
                    assert(task_views(before)[k] == task_views(self.tasks@.subrange(0, i as int))[k]);
                }
            }
            assert(task_views(r@) =~= task_views(self.tasks@.subrange(0, i as int + 1)));
            i = i + 1;
        }
        assert(self.tasks@.subrange(0, i as int) =~= self.tasks@);
        r
    }

    /// Forgets every task; the count goes back to zero.
    pub fn clear(&mut self)
        ensures
            final(self).wf(),
            final(self).tasks().len() == 0,
            final(self).count() == 0,
    {
        self.tasks.clear();
        self.running_count = 0;
        assert(self.tasks() =~= Seq::<TaskView>::empty());
    }
}

impl Default for TaskWaiter {
    fn default() -> (r: Self)
        ensures
            r.wf(),
            r.count() == 0,
            r.tasks().len() == 0,
    {
        Self::new()
    }
}


/// The running count of a waiter is the number of its tasks that run.
pub proof fn lemma_count_is_running_tasks(w: &TaskWaiter)
    requires
        w.wf(),
    ensures
        w.count() == count_running(w.tasks()),
        w.count() <= w.tasks().len(),
{
    lemma_count_running_bound(w.tasks());
}

} // verus!
