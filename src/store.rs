use std::collections::HashMap;
use vstd::prelude::*;

use crate::error::{AppError, ErrorKind};
use crate::task::{Task, TaskView, views};

verus! {

broadcast use vstd::std_specs::hash::group_hash_axioms;

/// The abstract state of a store: the id the next task will get, and the
/// tasks by id.
pub ghost struct StoreView {
    pub next_id: nat,
    pub tasks: Map<u32, TaskView>,
}

/// The first id that is handed out.
pub open spec fn initial_store() -> StoreView {
    StoreView { next_id: 0, tasks: Map::empty() }
}

/// Whether every id has been handed out already, so that no task can be added.
pub open spec fn ids_exhausted(s: StoreView) -> bool {
    s.next_id >= u32::MAX
}

/// The state after a task with text `d` was created.
pub open spec fn after_create(s: StoreView, d: Seq<char>) -> StoreView {
    StoreView {
        next_id: s.next_id + 1,
        tasks: s.tasks.insert(
            s.next_id as u32,
            TaskView { id: s.next_id as u32, completed: false, description: d },
        ),
    }
}

/// The state after the text of the existing task `id` became `d`.
pub open spec fn after_change(s: StoreView, id: u32, d: Seq<char>) -> StoreView {
    StoreView {
        next_id: s.next_id,
        tasks: s.tasks.insert(id, TaskView { id, completed: false, description: d }),
    }
}

/// The state after the existing task `id` was marked completed.
pub open spec fn after_complete(s: StoreView, id: u32) -> StoreView {
    StoreView {
        next_id: s.next_id,
        tasks: s.tasks.insert(
            id,
            TaskView { id, completed: true, description: s.tasks[id].description },
        ),
    }
}

/// The state after the existing task `id` was removed.
pub open spec fn after_remove(s: StoreView, id: u32) -> StoreView {
    StoreView { next_id: s.next_id, tasks: s.tasks.remove(id) }
}

/// Ids strictly increase along `s`.
pub open spec fn ascending_ids(s: Seq<TaskView>) -> bool {
    forall|i: int, j: int| 0 <= i < j < s.len() ==> s[i].id < s[j].id
}

/// `s` lists exactly the tasks of `m`, each once, in ascending id order.
pub open spec fn is_listing(s: Seq<TaskView>, m: Map<u32, TaskView>) -> bool {
    &&& ascending_ids(s)
    &&& forall|i: int|
        0 <= i < s.len() ==> #[trigger] m.contains_key(s[i].id) && m[s[i].id] == s[i]
    &&& forall|k: u32| #[trigger] m.contains_key(k) ==> exists|i: int| 0 <= i < s.len() && s[i].id == k
}

/// Each task is stored under its own id, and every id in use is below the
/// counter.
pub open spec fn store_inv(s: StoreView) -> bool {
    forall|k: u32| #[trigger] s.tasks.contains_key(k) ==> s.tasks[k].id == k && k < s.next_id
}

/// A store of tasks held in memory. Ids come from a counter that only grows,
/// so an id is never handed out twice, even after its task was removed.
pub struct RAMTodoList {
    next_id: u32,
    tasks: HashMap<u32, Task>,
}

impl View for RAMTodoList {
    type V = StoreView;

    closed spec fn view(&self) -> StoreView {
        StoreView { next_id: self.next_id as nat, tasks: self.tasks@.map_values(|t: Task| t@) }
    }
}

impl RAMTodoList {
    pub open spec fn wf(&self) -> bool {
        store_inv(self@)
    }

    /// An empty store whose first task gets id 0.
    pub fn new() -> (s: RAMTodoList)
        ensures
            s.wf(),
            s@ == initial_store(),
    {
        let s = RAMTodoList { next_id: 0, tasks: HashMap::new() };
        assert(s@.tasks =~= Map::empty());
        s
    }

    /// Adds a task with the given text, not completed, under the next id,
    /// and returns that id. Fails, changing nothing, only once every id has
    /// been handed out.
    pub fn new_task(&mut self, description: String) -> (r: Result<u32, AppError>)
        requires
            old(self).wf(),
        ensures
            final(self).wf(),
            !ids_exhausted(old(self)@) ==> r == Ok::<u32, AppError>(old(self)@.next_id as u32)
                && final(self)@ == after_create(old(self)@, description@),
            ids_exhausted(old(self)@) ==> r == Err::<u32, AppError>(
                AppError { kind: ErrorKind::Internal },
            ) && final(self)@ == old(self)@,
    {
        if self.next_id == u32::MAX {
            return Err(AppError::internal());
        }
        let id = self.next_id;
        let ghost d = description@;
        self.tasks.insert(id, Task::new(id, description));
        self.next_id = id + 1;
        assert(self@.tasks =~= after_create(old(self)@, d).tasks);
        Ok(id)
    }

    /// Gives the task `id` the text `description` and marks it not completed.
    /// Fails with `NotFound(id)`, changing nothing, when there is no such task.
    pub fn change_task(&mut self, id: u32, description: String) -> (r: Result<(), AppError>)
        requires
            old(self).wf(),
        ensures
            final(self).wf(),
            old(self)@.tasks.contains_key(id) ==> r == Ok::<(), AppError>(())
                && final(self)@ == after_change(old(self)@, id, description@),
            !old(self)@.tasks.contains_key(id) ==> r == Err::<(), AppError>(
                AppError { kind: ErrorKind::NotFound(id) },
            ) && final(self)@ == old(self)@,
    {
        if !self.tasks.contains_key(&id) {
            return Err(AppError::not_found(id));
        }
        assert(old(self)@.tasks.contains_key(id));
        let ghost d = description@;
        self.tasks.insert(id, Task::new(id, description));
        assert(self@.tasks =~= after_change(old(self)@, id, d).tasks);
        Ok(())
    }

    /// Marks the task `id` completed and keeps its text. Fails with
    /// `NotFound(id)`, changing nothing, when there is no such task.
    pub fn mark_completed(&mut self, id: u32) -> (r: Result<(), AppError>)
        requires
            old(self).wf(),
        ensures
            final(self).wf(),
            old(self)@.tasks.contains_key(id) ==> r == Ok::<(), AppError>(())
                && final(self)@ == after_complete(old(self)@, id),
            !old(self)@.tasks.contains_key(id) ==> r == Err::<(), AppError>(
                AppError { kind: ErrorKind::NotFound(id) },
            ) && final(self)@ == old(self)@,
    {
        let description = match self.tasks.get(&id) {
            Some(t) => {
                assert(old(self)@.tasks.contains_key(id));
                t.description.clone()
            },
            None => {
                return Err(AppError::not_found(id));
            },
        };
        self.tasks.insert(id, Task { id, completed: true, description });
        assert(self@.tasks =~= after_complete(old(self)@, id).tasks);
        Ok(())
    }

    /// Removes the task `id`; its id is not handed out again. Fails with
    /// `NotFound(id)`, changing nothing, when there is no such task.
    pub fn remove_task(&mut self, id: u32) -> (r: Result<(), AppError>)
        requires
            old(self).wf(),
        ensures
            final(self).wf(),
            old(self)@.tasks.contains_key(id) ==> r == Ok::<(), AppError>(())
                && final(self)@ == after_remove(old(self)@, id),
            !old(self)@.tasks.contains_key(id) ==> r == Err::<(), AppError>(
                AppError { kind: ErrorKind::NotFound(id) },
            ) && final(self)@ == old(self)@,
    {
        match self.tasks.remove(&id) {
            Some(_) => {
                assert(self@.tasks =~= after_remove(old(self)@, id).tasks);
                Ok(())
            },
            None => {
                assert(self@.tasks =~= old(self)@.tasks);
                Err(AppError::not_found(id))
            },
        }
    }

    /// Every task, in ascending id order. Ids below the counter
    /// are visited in turn, so the result comes out sorted without a sort.
    pub fn get_tasks(&self) -> (r: Vec<Task>)
        requires
            self.wf(),
        ensures
            is_listing(views(r@), self@.tasks),
    {
        let mut out: Vec<Task> = Vec::new();
        let mut i: u32 = 0;
        while i < self.next_id
            invariant
                self.wf(),
                i <= self.next_id,
                ascending_ids(views(out@)),
                forall|j: int|
                    0 <= j < out@.len() ==> #[trigger] views(out@)[j].id < i
                        && self@.tasks.contains_key(views(out@)[j].id)
                        && self@.tasks[views(out@)[j].id] == views(out@)[j],
                forall|k: u32|
                    #[trigger] self@.tasks.contains_key(k) && k < i ==> exists|j: int|
                        0 <= j < out@.len() && views(out@)[j].id == k,
            decreases self.next_id - i,
        {
            match self.tasks.get(&i) {
                Some(t) => {
                    assert(self@.tasks.contains_key(i));
                    assert(self@.tasks[i] == t@);
                    let c = t.snapshot();
                    let ghost before = out@;
                    out.push(c);
                    assert(views(out@) =~= views(before).push(c@));
                    assert(views(out@)[before.len() as int].id == i);
                    assert forall|k: u32| #[trigger]
                        self@.tasks.contains_key(k) && k < i + 1 implies exists|j: int|
                        0 <= j < out@.len() && views(out@)[j].id == k by {
                        if k < i {
                            let j = choose|j: int|
                                0 <= j < before.len() && views(before)[j].id == k;
                            assert(views(out@)[j] == views(before)[j]);
                        } else {
                            assert(views(out@)[before.len() as int].id == k);
                        }
                    }
                },
                None => {
                    assert(!self@.tasks.contains_key(i));
                },
            }
            i = i + 1;
        }
        out
    }
}

} // verus!
