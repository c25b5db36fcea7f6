//! The task list as a mathematical sequence, the two changes that the
//! operations make to it, and what holds of them.

use vstd::prelude::*;
use crate::task::TaskView;

verus! {

/// The list with one more task at its end: its id is the new length, and it is
/// not completed.
pub open spec fn with_new_task(tasks: Seq<TaskView>, description: Seq<char>) -> Seq<TaskView> {
    tasks.push(TaskView { id: (tasks.len() + 1) as u64, description, completed: false })
}

/// The list after one task was added for each description, in order.
pub open spec fn with_new_tasks(tasks: Seq<TaskView>, descriptions: Seq<Seq<char>>) -> Seq<
    TaskView,
>
    decreases descriptions.len(),
{
    if descriptions.len() == 0 {
        tasks
    } else {
        with_new_task(with_new_tasks(tasks, descriptions.drop_last()), descriptions.last())
    }
}

/// Some task of the list has this id.
pub open spec fn has_id(tasks: Seq<TaskView>, id: u64) -> bool {
    exists|i: int| 0 <= i < tasks.len() && #[trigger] tasks[i].id == id
}

/// The task at `i` is the first of the list with this id.
pub open spec fn first_with_id(tasks: Seq<TaskView>, id: u64, i: int) -> bool {
    &&& 0 <= i < tasks.len()
    &&& tasks[i].id == id
    &&& forall|j: int| 0 <= j < i ==> (#[trigger] tasks[j]).id != id
}

/// The list with the first task of this id completed, and every other task as
/// it was. A list without the id stays as it is.
pub open spec fn with_completed(tasks: Seq<TaskView>, id: u64) -> Seq<TaskView> {
    Seq::new(
        tasks.len(),
        |i: int|
            if first_with_id(tasks, id, i) {
                TaskView { completed: true, ..tasks[i] }
            } else {
                tasks[i]
            },
    )
}

/// Every task carries its place in the list as its id, counted from one.
pub open spec fn numbered(tasks: Seq<TaskView>) -> bool {
    forall|i: int| 0 <= i < tasks.len() ==> (#[trigger] tasks[i]).id == i + 1
}

/// Adding tasks to an empty list, one for each description, gives as many
/// tasks as descriptions, with the ids 1, 2, 3 and so on in the order of the
/// additions, each with its description and none completed.
pub proof fn lemma_added_tasks_in_order(descriptions: Seq<Seq<char>>)
    requires
        descriptions.len() <= u64::MAX,
    ensures
        with_new_tasks(Seq::empty(), descriptions).len() == descriptions.len(),
        forall|i: int|
            0 <= i < descriptions.len() ==> #[trigger] with_new_tasks(
                Seq::empty(),
                descriptions,
            )[i] == (TaskView {
                id: (i + 1) as u64,
                description: descriptions[i],
                completed: false,
            }),
    decreases descriptions.len(),
{
    if descriptions.len() > 0 {
        lemma_added_tasks_in_order(descriptions.drop_last());
    }
}

/// A list with the id has a first task with it.
pub proof fn lemma_first_with_id_exists(tasks: Seq<TaskView>, id: u64) -> (first: int)
    requires
        has_id(tasks, id),
    ensures
        first_with_id(tasks, id, first),
    decreases tasks.len(),
{
    let found = choose|i: int| 0 <= i < tasks.len() && #[trigger] tasks[i].id == id;
    let shorter = tasks.take(found);
    if has_id(shorter, id) {
        let first = lemma_first_with_id_exists(shorter, id);
        assert(forall|j: int| 0 <= j < first ==> shorter[j] == tasks[j]);
        first
    } else {
        assert forall|j: int| 0 <= j < found implies (#[trigger] tasks[j]).id != id by {
            assert(shorter[j].id == tasks[j].id);
        }
        found
    }
}

/// Completing a task that exists keeps the length of the list, sets the flag
/// of the first task with the id, keeps that task's id and description, and
/// leaves every other task as it was.
pub proof fn lemma_complete_changes_one(tasks: Seq<TaskView>, id: u64, first: int)
    requires
        first_with_id(tasks, id, first),
    ensures
        with_completed(tasks, id).len() == tasks.len(),
        with_completed(tasks, id)[first] == (TaskView { completed: true, ..tasks[first] }),
        forall|j: int|
            0 <= j < tasks.len() && j != first ==> #[trigger] with_completed(tasks, id)[j]
                == tasks[j],
{
}

/// Completing a task that does not exist leaves the list as it was.
pub proof fn lemma_complete_missing_keeps_list(tasks: Seq<TaskView>, id: u64)
    requires
        !has_id(tasks, id),
    ensures
        with_completed(tasks, id) == tasks,
{
    assert(with_completed(tasks, id) =~= tasks);
}

/// Completing a task a second time finds it again and changes nothing more:
/// the task stays completed.
pub proof fn lemma_complete_twice(tasks: Seq<TaskView>, id: u64)
    requires
        has_id(tasks, id),
    ensures
        has_id(with_completed(tasks, id), id),
        with_completed(with_completed(tasks, id), id) == with_completed(tasks, id),
        forall|i: int|
            first_with_id(tasks, id, i) ==> (#[trigger] with_completed(
                with_completed(tasks, id),
                id,
            )[i]).completed,
{
    let once = with_completed(tasks, id);
    let first = lemma_first_with_id_exists(tasks, id);
    assert(once[first].id == id);
    assert forall|i: int| 0 <= i < tasks.len() implies (first_with_id(once, id, i)
        <==> first_with_id(tasks, id, i)) by {
        assert(forall|j: int| 0 <= j < tasks.len() ==> (#[trigger] once[j]).id == tasks[j].id);
    }
    assert(with_completed(once, id) =~= once);
}

/// No change takes a completion back: what was completed before an addition
/// or a completion is completed after it.
pub proof fn lemma_completed_stays(tasks: Seq<TaskView>, description: Seq<char>, id: u64)
    ensures
        forall|i: int|
            0 <= i < tasks.len() && tasks[i].completed ==> (#[trigger] with_new_task(
                tasks,
                description,
            )[i]).completed,
        forall|i: int|
            0 <= i < tasks.len() && tasks[i].completed ==> (#[trigger] with_completed(
                tasks,
                id,
            )[i]).completed,
{
}

/// The numbering holds of the empty list and is kept by every addition and
/// every completion, and in a numbered list no id occurs twice.
pub proof fn lemma_numbering_kept(tasks: Seq<TaskView>, description: Seq<char>, id: u64)
    requires
        numbered(tasks),
        tasks.len() < u64::MAX,
    ensures
        numbered(Seq::<TaskView>::empty()),
        numbered(with_new_task(tasks, description)),
        numbered(with_completed(tasks, id)),
        forall|i: int, j: int|
            0 <= i < j < tasks.len() ==> (#[trigger] tasks[i]).id != (#[trigger] tasks[j]).id,
{
}

} // verus!
