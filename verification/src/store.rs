//! The storage slot that holds the task list, and the pair that reads and
//! writes it.

use vstd::prelude::*;
use crate::codec::{decode_tasks, encode_tasks, encodes};
use crate::format::{decodable, decoded, encode_list, lemma_decode_encode};
use crate::error::ContractError;
use crate::task::{task_views, Task, TaskView};

verus! {

/// The key under which the host keeps the list.
pub const TASKS_KEY: &'static str = "tasks";

/// What the host's storage holds under the list's key: nothing yet, or the
/// bytes of the last write.
#[derive(Clone, Debug, PartialEq)]
pub struct TaskStore {
    pub blob: Option<Vec<u8>>,
}

impl TaskStore {
    /// The stored bytes; none count as an empty byte string.
    pub open spec fn bytes(&self) -> Seq<u8> {
        match self.blob {
            Some(bytes) => bytes@,
            None => Seq::empty(),
        }
    }

    /// The list that the slot holds: empty where the bytes hold none.
    pub open spec fn tasks(&self) -> Seq<TaskView> {
        decoded(self.bytes())
    }

    /// A slot that was never written.
    pub fn new() -> (storage: TaskStore)
        ensures
            storage.blob is None,
    {
        TaskStore { blob: None }
    }
}

/// Reads the whole list. Missing, empty or unreadable bytes give the empty
/// list; this never fails.
pub fn load_tasks(storage: &TaskStore) -> (tasks: Vec<Task>)
    ensures
        task_views(tasks@) == storage.tasks(),
        !decodable(storage.bytes()) ==> tasks@.len() == 0,
{
    match &storage.blob {
        Some(bytes) => decode_tasks(bytes.as_slice()),
        None => {
            let nothing: Vec<u8> = Vec::new();
            decode_tasks(nothing.as_slice())
        },
    }
}

/// Finishes a write with what the encoder gave: its bytes replace the slot's
/// contents, its failure is reported and leaves the slot as it was.
pub fn write_encoded(
    storage: &mut TaskStore,
    outcome: Result<Vec<u8>, Box<bincode::ErrorKind>>,
) -> (res: Result<(), ContractError>)
    ensures
        match outcome {
            Ok(bytes) => res is Ok && final(storage).blob == Some(bytes),
            Err(failure) => res == Err::<(), ContractError>(
                ContractError::SerializationError { source: failure },
            ) && *final(storage) == *old(storage),
        },
{
    match outcome {
        Ok(bytes) => {
            storage.blob = Some(bytes);
            Ok(())
        },
        Err(failure) => Err(ContractError::SerializationError { source: failure }),
    }
}

/// Writes the whole list over what the slot held. A later `load_tasks` gives
/// the list back. Where the encoder fails, nothing is written.
pub fn save_tasks(storage: &mut TaskStore, tasks: &Vec<Task>) -> (res: Result<(), ContractError>)
    ensures
        res is Ok <==> encodes(task_views(tasks@)),
        match res {
            Ok(_) => {
                &&& final(storage).blob is Some
                &&& final(storage).bytes() == encode_list(task_views(tasks@))
                &&& final(storage).tasks() == task_views(tasks@)
            },
            Err(failure) => failure is SerializationError && *final(storage) == *old(storage),
        },
{
    let outcome = encode_tasks(tasks);
    proof {
        if outcome is Ok {
            assert(outcome.unwrap()@.len() == outcome.unwrap().len());
            lemma_decode_encode(task_views(tasks@));
        }
    }
    write_encoded(storage, outcome)
}

} // verus!
