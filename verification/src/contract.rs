//! The entry operations: add a task, complete a task, list the tasks.
//!
//! Each operation reads the whole list from the storage slot, and a change
//! writes the whole list back.

use vstd::prelude::*;
use cosmwasm_std::{Response, StdError};
use crate::codec::encodes;
pub use crate::error::ContractError;
use crate::format::{encode_list, lemma_decoded_fits};
use crate::list::{first_with_id, has_id, lemma_complete_twice, with_completed, with_new_task};
pub use crate::msg::{ExecuteMsg, InstantiateMsg, QueryMsg, TaskResponse};
use crate::response::{
    add_attribute, decimal, decimal_string, new_response, response_attributes,
    response_carries_more,
};
pub use crate::store::{load_tasks, save_tasks, TaskStore};
pub use crate::task::Task;
use crate::task::{task_views, TaskView};

verus! {

/// The name under which the contract is recorded.
pub const CONTRACT_NAME: &'static str = "crates.io:todo-list";

/// What the reply to an added task says: the operation and the new length.
pub open spec fn add_task_attributes(count: nat) -> Seq<(Seq<char>, Seq<char>)> {
    seq![("method"@, "execute_add_task"@), ("task_count"@, decimal(count))]
}

/// What the reply to a completed task says: the operation and the task's id.
pub open spec fn complete_task_attributes(id: u64) -> Seq<(Seq<char>, Seq<char>)> {
    seq![("method"@, "execute_complete_task"@), ("completed_task_id"@, decimal(id as nat))]
}

/// A completion of the task with this id succeeds on the list: the list holds
/// the id, and the encoder accepts the changed list.
pub open spec fn completion_succeeds(tasks: Seq<TaskView>, id: u64) -> bool {
    has_id(tasks, id) && encodes(with_completed(tasks, id))
}

/// The request asks for a task that the list does not hold.
pub open spec fn asks_for_missing_task(tasks: Seq<TaskView>, msg: ExecuteMsg) -> bool {
    msg matches ExecuteMsg::CompleteTask { id } && !has_id(tasks, id)
}

/// The list after the request was carried out.
pub open spec fn after_request(tasks: Seq<TaskView>, msg: ExecuteMsg) -> Seq<TaskView> {
    match msg {
        ExecuteMsg::AddTask { description } => with_new_task(tasks, description@),
        ExecuteMsg::CompleteTask { id } => with_completed(tasks, id),
    }
}

/// What the reply to the request says.
pub open spec fn request_attributes(tasks: Seq<TaskView>, msg: ExecuteMsg) -> Seq<
    (Seq<char>, Seq<char>),
> {
    match msg {
        ExecuteMsg::AddTask { description } => add_task_attributes(tasks.len() + 1),
        ExecuteMsg::CompleteTask { id } => complete_task_attributes(id),
    }
}

/// Sets the contract up. The list is not written: it is empty until the first
/// task is added.
pub fn instantiate(_msg: InstantiateMsg) -> (res: Result<Response, StdError>)
    ensures
        res matches Ok(reply) && response_attributes(reply).len() == 0 && !response_carries_more(
            reply,
        ),
{
    Ok(new_response())
}

/// Appends a task with the given description and writes the list back. This
/// fails only where the encoder does, and then nothing is written.
pub fn execute_add_task(storage: &mut TaskStore, description: String) -> (res: Result<
    Response,
    ContractError,
>)
    ensures
        res is Ok <==> encodes(with_new_task(old(storage).tasks(), description@)),
        match res {
            Ok(reply) => {
                let tasks = with_new_task(old(storage).tasks(), description@);
                &&& final(storage).tasks() == tasks
                &&& final(storage).blob is Some
                &&& final(storage).bytes() == encode_list(tasks)
                &&& response_attributes(reply) == add_task_attributes(tasks.len())
                &&& !response_carries_more(reply)
            },
            Err(failure) => failure is SerializationError && *final(storage) == *old(storage),
        },
{
    let mut tasks = load_tasks(storage);
    proof {
        lemma_decoded_fits(storage.bytes());
        if storage.blob is Some {
            assert(storage.bytes().len() == storage.blob.unwrap().len());
        }
    }
    let ghost before = task_views(tasks@);
    let new_task = Task { id: tasks.len() as u64 + 1, description, completed: false };
    tasks.push(new_task);
    assert(task_views(tasks@) =~= with_new_task(before, description@));
    match save_tasks(storage, &tasks) {
        Ok(_) => {
            proof {
                reveal_strlit("method");
                reveal_strlit("task_count");
            }
            let count = decimal_string(tasks.len() as u64);
            let reply = add_attribute(new_response(), "method", "execute_add_task");
            let reply = add_attribute(reply, "task_count", count.as_str());
            assert(response_attributes(reply) =~= add_task_attributes(tasks@.len()));
            Ok(reply)
        },
        Err(failure) => Err(failure),
    }
}

/// Marks the first task with the given id as completed and writes the list
/// back. A task that is completed already stays so, and the list is written
/// all the same. Without such a task nothing is written.
pub fn execute_complete_task(storage: &mut TaskStore, id: u64) -> (res: Result<
    Response,
    ContractError,
>)
    ensures
        res is Ok <==> completion_succeeds(old(storage).tasks(), id),
        res matches Err(ContractError::TaskNotFound {  }) <==> !has_id(old(storage).tasks(), id),
        match res {
            Ok(reply) => {
                let tasks = with_completed(old(storage).tasks(), id);
                &&& final(storage).tasks() == tasks
                &&& final(storage).blob is Some
                &&& final(storage).bytes() == encode_list(tasks)
                &&& response_attributes(reply) == complete_task_attributes(id)
                &&& !response_carries_more(reply)
            },
            Err(_) => *final(storage) == *old(storage),
        },
{
    let mut tasks = load_tasks(storage);
    let ghost before = task_views(tasks@);
    let mut i: usize = 0;
    while i < tasks.len() && tasks[i].id != id
        invariant
            i <= tasks.len(),
            task_views(tasks@) == before,
            forall|j: int| 0 <= j < i ==> (#[trigger] before[j]).id != id,
        decreases tasks.len() - i,
    {
        assert(before[i as int] == tasks[i as int]@);
        i += 1;
    }
    if i < tasks.len() {
        assert(before[i as int] == tasks[i as int]@);
        assert(first_with_id(before, id, i as int));
        tasks[i].completed = true;
        assert(task_views(tasks@) =~= with_completed(before, id)) by {
            assert forall|j: int| 0 <= j < before.len() implies task_views(tasks@)[j]
                == with_completed(before, id)[j] by {
                if j != i {
                    assert(before[j] == task_views(tasks@)[j]);
                    assert(!first_with_id(before, id, j));
                }
            }
        }
        match save_tasks(storage, &tasks) {
            Ok(_) => {
                proof {
                    reveal_strlit("method");
                    reveal_strlit("completed_task_id");
                }
                let text = decimal_string(id);
                let reply = add_attribute(new_response(), "method", "execute_complete_task");
                let reply = add_attribute(reply, "completed_task_id", text.as_str());
                assert(response_attributes(reply) =~= complete_task_attributes(id));
                Ok(reply)
            },
            Err(failure) => Err(failure),
        }
    } else {
        Err(ContractError::TaskNotFound {  })
    }
}

/// Carries out a request to change the list: an addition or a completion.
pub fn execute(storage: &mut TaskStore, msg: ExecuteMsg) -> (res: Result<Response, ContractError>)
    ensures
        res is Ok <==> !asks_for_missing_task(old(storage).tasks(), msg) && encodes(
            after_request(old(storage).tasks(), msg),
        ),
        res matches Err(ContractError::TaskNotFound {  }) <==> asks_for_missing_task(
            old(storage).tasks(),
            msg,
        ),
        match res {
            Ok(reply) => {
                let tasks = after_request(old(storage).tasks(), msg);
                &&& final(storage).tasks() == tasks
                &&& final(storage).blob is Some
                &&& final(storage).bytes() == encode_list(tasks)
                &&& response_attributes(reply) == request_attributes(old(storage).tasks(), msg)
                &&& !response_carries_more(reply)
            },
            Err(_) => *final(storage) == *old(storage),
        },
{
    match msg {
        ExecuteMsg::AddTask { description } => execute_add_task(storage, description),
        ExecuteMsg::CompleteTask { id } => execute_complete_task(storage, id),
    }
}

/// The whole list, in insertion order. Nothing is written, and this never
/// fails.
pub fn query_tasks(storage: &TaskStore) -> (res: Result<TaskResponse, StdError>)
    ensures
        res matches Ok(answer) && task_views(answer.tasks@) == storage.tasks(),
{
    let tasks = load_tasks(storage);
    Ok(TaskResponse { tasks })
}

/// Answers a request to read the list.
pub fn query(storage: &TaskStore, msg: QueryMsg) -> (res: Result<TaskResponse, StdError>)
    ensures
        res matches Ok(answer) && task_views(answer.tasks@) == storage.tasks(),
{
    match msg {
        QueryMsg::GetTasks {  } => query_tasks(storage),
    }
}

/// A completion that succeeded succeeds again when it is repeated, and the
/// second one leaves the list as the first one left it.
pub proof fn lemma_completion_repeats(tasks: Seq<TaskView>, id: u64)
    requires
        completion_succeeds(tasks, id),
    ensures
        completion_succeeds(with_completed(tasks, id), id),
        with_completed(with_completed(tasks, id), id) == with_completed(tasks, id),
{
    lemma_complete_twice(tasks, id);
}

} // verus!
