use vstd::prelude::*;

verus! {

/// A single todo entry.
#[derive(Debug, Clone, PartialEq, Eq)]
pub struct Task {
    pub id: u32,
    pub completed: bool,
    pub description: String,
}

/// The mathematical value of a task: its id, its flag and its text.
pub ghost struct TaskView {
    pub id: u32,
    pub completed: bool,
    pub description: Seq<char>,
}

impl View for Task {
    type V = TaskView;

    open spec fn view(&self) -> TaskView {
        TaskView { id: self.id, completed: self.completed, description: self.description@ }
    }
}

/// The values of a sequence of tasks, in the same order.
pub open spec fn views(s: Seq<Task>) -> Seq<TaskView> {
    s.map_values(|t: Task| t@)
}

impl Task {
    /// A fresh, not yet completed task.
    pub fn new(id: u32, description: String) -> (t: Task)
        ensures
            t@ == (TaskView { id, completed: false, description: description@ }),
    {
        Task { id, completed: false, description }
    }

    /// A new task with the same id, flag and text as this one.
    pub fn snapshot(&self) -> (t: Task)
        ensures
            t@ == self@,
    {
        Task { id: self.id, completed: self.completed, description: self.description.clone() }
    }
}

} // verus!
