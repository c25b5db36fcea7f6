//! The stored format of the task list.
//!
//! The list is stored in bincode's fixed-width little-endian encoding: the
//! number of tasks as eight bytes, then each task as its id in eight bytes, the
//! byte length of its description in eight bytes, the description in UTF-8, and
//! one byte that is 1 for a completed task and 0 otherwise. A reader takes the
//! list from the start of the bytes and ignores what follows it.

use vstd::prelude::*;
use vstd::bytes::*;
use vstd::utf8::*;
use crate::task::TaskView;

verus! {

/// The byte that stands for a flag.
pub open spec fn bool_byte(flag: bool) -> u8 {
    if flag {
        1
    } else {
        0
    }
}

/// The bytes of one task.
pub open spec fn encode_task(task: TaskView) -> Seq<u8> {
    spec_u64_to_le_bytes(task.id) + spec_u64_to_le_bytes(
        encode_utf8(task.description).len() as u64,
    ) + encode_utf8(task.description) + seq![bool_byte(task.completed)]
}

/// The bytes of the tasks, one after the other.
pub open spec fn encode_items(tasks: Seq<TaskView>) -> Seq<u8>
    decreases tasks.len(),
{
    if tasks.len() == 0 {
        Seq::empty()
    } else {
        encode_task(tasks[0]) + encode_items(tasks.drop_first())
    }
}

/// The bytes of a list: its length, then its tasks.
pub open spec fn encode_list(tasks: Seq<TaskView>) -> Seq<u8> {
    spec_u64_to_le_bytes(tasks.len() as u64) + encode_items(tasks)
}

/// `data` starts with the bytes of `tasks`. Bytes that follow are ignored.
pub open spec fn decodes_to(data: Seq<u8>, tasks: Seq<TaskView>) -> bool {
    encode_list(tasks).is_prefix_of(data)
}

/// `data` starts with the bytes of some list.
pub open spec fn decodable(data: Seq<u8>) -> bool {
    exists|tasks: Seq<TaskView>| decodes_to(data, tasks)
}

/// The list that `data` holds: the one whose bytes `data` starts with, and the
/// empty list where there is none.
pub open spec fn decoded(data: Seq<u8>) -> Seq<TaskView> {
    if decodable(data) {
        choose|tasks: Seq<TaskView>| decodes_to(data, tasks)
    } else {
        Seq::empty()
    }
}

/// A task takes seventeen bytes and those of its description.
pub proof fn lemma_task_length(task: TaskView)
    ensures
        encode_task(task).len() == 17 + encode_utf8(task.description).len(),
{
    lemma_auto_spec_u64_to_from_le_bytes();
}

/// A list of tasks takes at least seventeen bytes for each of them.
pub proof fn lemma_items_length(tasks: Seq<TaskView>)
    ensures
        encode_items(tasks).len() >= 17 * tasks.len(),
    decreases tasks.len(),
{
    if tasks.len() > 0 {
        lemma_task_length(tasks[0]);
        lemma_items_length(tasks.drop_first());
    }
}

/// Two tasks whose bytes both stand at the start of one byte string of
/// addressable length are the same task.
proof fn lemma_task_unique(a: TaskView, b: TaskView, data: Seq<u8>)
    requires
        data.len() <= u64::MAX,
        encode_task(a).is_prefix_of(data),
        encode_task(b).is_prefix_of(data),
    ensures
        a == b,
{
    lemma_auto_spec_u64_to_from_le_bytes();
    lemma_task_length(a);
    lemma_task_length(b);
    let text_a = encode_utf8(a.description);
    let text_b = encode_utf8(b.description);
    let len_a = text_a.len() as u64;
    let len_b = text_b.len() as u64;
    let bytes_a = encode_task(a);
    let bytes_b = encode_task(b);
    assert(spec_u64_to_le_bytes(a.id) =~= data.subrange(0, 8)) by {
        assert(bytes_a.subrange(0, 8) =~= spec_u64_to_le_bytes(a.id));
    }
    assert(spec_u64_to_le_bytes(b.id) =~= data.subrange(0, 8)) by {
        assert(bytes_b.subrange(0, 8) =~= spec_u64_to_le_bytes(b.id));
    }
    assert(a.id == b.id) by {
        assert(spec_u64_from_le_bytes(spec_u64_to_le_bytes(a.id)) == a.id);
        assert(spec_u64_from_le_bytes(spec_u64_to_le_bytes(b.id)) == b.id);
    }
    assert(spec_u64_to_le_bytes(len_a) =~= data.subrange(8, 16)) by {
        assert(bytes_a.subrange(8, 16) =~= spec_u64_to_le_bytes(len_a));
    }
    assert(spec_u64_to_le_bytes(len_b) =~= data.subrange(8, 16)) by {
        assert(bytes_b.subrange(8, 16) =~= spec_u64_to_le_bytes(len_b));
    }
    assert(len_a == len_b) by {
        assert(spec_u64_from_le_bytes(spec_u64_to_le_bytes(len_a)) == len_a);
        assert(spec_u64_from_le_bytes(spec_u64_to_le_bytes(len_b)) == len_b);
    }
    let n = text_a.len() as int;
    assert(text_b.len() == n);
    assert(text_a =~= data.subrange(16, 16 + n)) by {
        assert(bytes_a.subrange(16, 16 + n) =~= text_a);
    }
    assert(text_b =~= data.subrange(16, 16 + n)) by {
        assert(bytes_b.subrange(16, 16 + n) =~= text_b);
    }
    assert(a.description == b.description) by {
        encode_utf8_decode_utf8(a.description);
        encode_utf8_decode_utf8(b.description);
    }
    assert(bool_byte(a.completed) == bool_byte(b.completed)) by {
        assert(bytes_a[16 + n] == data[16 + n]);
        assert(bytes_b[16 + n] == data[16 + n]);
    }
}

/// Two lists of one length whose bytes both stand at the start of one byte
/// string of addressable length are the same list.
proof fn lemma_items_unique(a: Seq<TaskView>, b: Seq<TaskView>, data: Seq<u8>)
    requires
        data.len() <= u64::MAX,
        a.len() == b.len(),
        encode_items(a).is_prefix_of(data),
        encode_items(b).is_prefix_of(data),
    ensures
        a == b,
    decreases a.len(),
{
    if a.len() == 0 {
        assert(a =~= b);
    } else {
        let head_a = encode_task(a[0]);
        let head_b = encode_task(b[0]);
        let rest_a = encode_items(a.drop_first());
        let rest_b = encode_items(b.drop_first());
        assert(head_a.is_prefix_of(data)) by {
            assert(head_a =~= (head_a + rest_a).subrange(0, head_a.len() as int));
        }
        assert(head_b.is_prefix_of(data)) by {
            assert(head_b =~= (head_b + rest_b).subrange(0, head_b.len() as int));
        }
        lemma_task_unique(a[0], b[0], data);
        let tail = data.skip(head_a.len() as int);
        assert(rest_a.is_prefix_of(tail)) by {
            assert(rest_a =~= (head_a + rest_a).subrange(
                head_a.len() as int,
                (head_a + rest_a).len() as int,
            ));
        }
        assert(rest_b.is_prefix_of(tail)) by {
            assert(rest_b =~= (head_b + rest_b).subrange(
                head_b.len() as int,
                (head_b + rest_b).len() as int,
            ));
        }
        lemma_items_unique(a.drop_first(), b.drop_first(), tail);
        assert(a =~= seq![a[0]] + a.drop_first());
        assert(b =~= seq![b[0]] + b.drop_first());
    }
}

/// A byte string of addressable length holds at most one list.
pub proof fn lemma_decoding_unique(data: Seq<u8>, a: Seq<TaskView>, b: Seq<TaskView>)
    requires
        data.len() <= u64::MAX,
        decodes_to(data, a),
        decodes_to(data, b),
    ensures
        a == b,
{
    lemma_auto_spec_u64_to_from_le_bytes();
    lemma_items_length(a);
    lemma_items_length(b);
    let count_a = spec_u64_to_le_bytes(a.len() as u64);
    let count_b = spec_u64_to_le_bytes(b.len() as u64);
    assert(count_a =~= data.subrange(0, 8)) by {
        assert(encode_list(a).subrange(0, 8) =~= count_a);
    }
    assert(count_b =~= data.subrange(0, 8)) by {
        assert(encode_list(b).subrange(0, 8) =~= count_b);
    }
    assert(a.len() as u64 == b.len() as u64) by {
        assert(spec_u64_from_le_bytes(count_a) == a.len() as u64);
        assert(spec_u64_from_le_bytes(count_b) == b.len() as u64);
    }
    let tail = data.skip(8);
    assert(encode_items(a).is_prefix_of(tail)) by {
        assert(encode_items(a) =~= encode_list(a).subrange(8, encode_list(a).len() as int));
    }
    assert(encode_items(b).is_prefix_of(tail)) by {
        assert(encode_items(b) =~= encode_list(b).subrange(8, encode_list(b).len() as int));
    }
    lemma_items_unique(a, b, tail);
}

/// Reading back what was written gives the list that was written: a list whose
/// bytes are of addressable length is the one that its bytes hold.
pub proof fn lemma_decode_encode(tasks: Seq<TaskView>)
    requires
        encode_list(tasks).len() <= u64::MAX,
    ensures
        decodable(encode_list(tasks)),
        decoded(encode_list(tasks)) == tasks,
{
    let data = encode_list(tasks);
    assert(decodes_to(data, tasks)) by {
        assert(data =~= data.subrange(0, data.len() as int));
    }
    lemma_decoding_unique(data, tasks, decoded(data));
}

/// Bytes too short to hold a length hold no list.
pub proof fn lemma_short_bytes_hold_nothing(data: Seq<u8>)
    requires
        data.len() < 8,
    ensures
        !decodable(data),
        decoded(data) == Seq::<TaskView>::empty(),
{
    lemma_auto_spec_u64_to_from_le_bytes();
}

/// The list that bytes hold takes no more room than the bytes: eight bytes
/// and seventeen for each task.
pub proof fn lemma_decoded_fits(data: Seq<u8>)
    ensures
        decoded(data).len() == 0 || 8 + 17 * decoded(data).len() <= data.len(),
{
    lemma_auto_spec_u64_to_from_le_bytes();
    if decodable(data) {
        lemma_items_length(decoded(data));
    }
}

/// Writing back the list that was read changes nothing that a later read
/// sees: the bytes of the list that `data` holds hold that list again.
pub proof fn lemma_resave_keeps_list(data: Seq<u8>)
    requires
        data.len() <= u64::MAX,
    ensures
        decoded(encode_list(decoded(data))) == decoded(data),
{
    let tasks = decoded(data);
    if decodable(data) {
        lemma_decode_encode(tasks);
    } else {
        lemma_auto_spec_u64_to_from_le_bytes();
        assert(encode_items(tasks) =~= Seq::<u8>::empty());
        lemma_decode_encode(tasks);
    }
}

} // verus!
