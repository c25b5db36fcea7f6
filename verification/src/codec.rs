//! The calls into bincode that write and read the stored format.

use vstd::prelude::*;
use crate::format::{decodable, decoded, decodes_to, encode_list, lemma_decoding_unique};
use crate::task::{task_views, Task, TaskView};

verus! {

/// One task as the tuple that is handed to bincode and comes back from it.
pub open spec fn row_view(row: (u64, String, bool)) -> TaskView {
    TaskView { id: row.0, description: row.1@, completed: row.2 }
}

/// The models of a list of such tuples, in order.
pub open spec fn row_views(rows: Seq<(u64, String, bool)>) -> Seq<TaskView> {
    rows.map_values(|row: (u64, String, bool)| row_view(row))
}

/// What `bincode::serialize` gives for a list: its bytes, or nothing where it
/// fails.
pub uninterp spec fn bincode_serialized(tasks: Seq<TaskView>) -> Option<Seq<u8>>;

/// The encoder accepts the list.
pub open spec fn encodes(tasks: Seq<TaskView>) -> bool {
    bincode_serialized(tasks) is Some
}

/// `bincode::serialize` on a list of tuples of an integer, a string and a flag.
/// Where it succeeds, it gives the length of the list, then each integer, each
/// string behind its byte length and each flag as one byte, all integers in
/// eight little-endian bytes. On which lists it succeeds is not claimed: its
/// outcome only has a name.
#[verifier::external_body]
pub(crate) fn bincode_serialize(rows: &Vec<(u64, String, bool)>) -> (outcome: Result<
    Vec<u8>,
    Box<bincode::ErrorKind>,
>)
    ensures
        outcome matches Ok(bytes) ==> bincode_serialized(row_views(rows@)) == Some(bytes@),
        outcome is Err ==> bincode_serialized(row_views(rows@)) is None,
        outcome matches Ok(bytes) ==> bytes@ == encode_list(row_views(rows@)),
{
    bincode::serialize(rows)
}

/// `bincode::deserialize` to a list of tuples of an integer, a string and a
/// flag. It succeeds exactly on bytes that start with the encoding of such a
/// list, whatever follows it, and then gives that list.
#[verifier::external_body]
pub(crate) fn bincode_deserialize(data: &[u8]) -> (outcome: Result<
    Vec<(u64, String, bool)>,
    Box<bincode::ErrorKind>,
>)
    ensures
        outcome matches Ok(rows) ==> decodes_to(data@, row_views(rows@)),
        outcome is Err ==> !decodable(data@),
{
    bincode::deserialize(data)
}

/// The tasks as tuples, in order.
pub fn to_rows(tasks: &Vec<Task>) -> (rows: Vec<(u64, String, bool)>)
    ensures
        row_views(rows@) == task_views(tasks@),
{
    let mut rows: Vec<(u64, String, bool)> = Vec::new();
    let mut i: usize = 0;
    while i < tasks.len()
        invariant
            i <= tasks.len(),
            rows.len() == i,
            forall|j: int| 0 <= j < i ==> row_view(#[trigger] rows[j]) == tasks[j]@,
        decreases tasks.len() - i,
    {
        let task = &tasks[i];
        rows.push((task.id, task.description.clone(), task.completed));
        i += 1;
    }
    assert(row_views(rows@) =~= task_views(tasks@));
    rows
}

/// The tuples as tasks, in order.
pub fn from_rows(rows: Vec<(u64, String, bool)>) -> (tasks: Vec<Task>)
    ensures
        task_views(tasks@) == row_views(rows@),
{
    let mut tasks: Vec<Task> = Vec::new();
    for row in it: rows
        invariant
            tasks.len() == it.index(),
            forall|j: int| 0 <= j < it.index() ==> (#[trigger] tasks[j])@ == row_view(it.seq()[j]),
    {
        tasks.push(Task { id: row.0, description: row.1, completed: row.2 });
    }
    assert(task_views(tasks@) =~= row_views(rows@));
    tasks
}

/// The bytes of the list, or the encoder's failure.
pub fn encode_tasks(tasks: &Vec<Task>) -> (outcome: Result<Vec<u8>, Box<bincode::ErrorKind>>)
    ensures
        outcome is Ok <==> encodes(task_views(tasks@)),
        outcome matches Ok(bytes) ==> bytes@ == encode_list(task_views(tasks@)),
{
    let rows = to_rows(tasks);
    bincode_serialize(&rows)
}

/// The list that the bytes hold, and the empty list where they hold none.
pub fn decode_tasks(data: &[u8]) -> (tasks: Vec<Task>)
    ensures
        task_views(tasks@) == decoded(data@),
        !decodable(data@) ==> tasks@.len() == 0,
{
    match bincode_deserialize(data) {
        Ok(rows) => {
            proof {
                assert(data@.len() == data.len());
                lemma_decoding_unique(data@, row_views(rows@), decoded(data@));
            }
            from_rows(rows)
        },
        Err(_) => Vec::new(),
    }
}

} // verus!
