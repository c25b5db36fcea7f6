//! The task record and its mathematical model.

use vstd::prelude::*;

verus! {

/// One entry of the to-do list.
#[derive(Clone, Debug, PartialEq)]
pub struct Task {
    pub id: u64,
    pub description: String,
    pub completed: bool,
}

/// What a `Task` is in contracts: the same fields, the description as its characters.
pub struct TaskView {
    pub id: u64,
    pub description: Seq<char>,
    pub completed: bool,
}

impl View for Task {
    type V = TaskView;

    open spec fn view(&self) -> TaskView {
        TaskView { id: self.id, description: self.description@, completed: self.completed }
    }
}

/// The models of a list of tasks, in order.
pub open spec fn task_views(tasks: Seq<Task>) -> Seq<TaskView> {
    tasks.map_values(|t: Task| t@)
}

} // verus!
