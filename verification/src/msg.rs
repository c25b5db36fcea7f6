//! The messages that the host hands to the entry operations, and the answer
//! to a query.

use vstd::prelude::*;
use crate::task::Task;

verus! {

/// The message that sets the list up. It carries nothing.
#[derive(Clone, Debug, PartialEq)]
pub struct InstantiateMsg {}

/// A request to change the list.
#[derive(Clone, Debug, PartialEq)]
pub enum ExecuteMsg {
    /// Append a task with this description.
    AddTask { description: String },
    /// Mark the task with this id as completed.
    CompleteTask { id: u64 },
}

/// A request to read the list.
#[derive(Clone, Debug, PartialEq)]
pub enum QueryMsg {
    /// The whole list, in insertion order.
    GetTasks {},
}

/// The answer to `QueryMsg::GetTasks`.
#[derive(Clone, Debug, PartialEq)]
pub struct TaskResponse {
    pub tasks: Vec<Task>,
}

} // verus!
