use todo_list::codec::{decode_tasks, encode_tasks, from_rows, to_rows};
use todo_list::contract::{execute_add_task, ContractError, Task, TaskStore};
use todo_list::store::{load_tasks, save_tasks, write_encoded, TASKS_KEY};

fn task(id: u64, description: &str, completed: bool) -> Task {
    Task { id, description: description.to_string(), completed }
}

fn le(n: u64) -> Vec<u8> {
    n.to_le_bytes().to_vec()
}

fn milk_and_report() -> Vec<u8> {
    let mut bytes = le(2);
    bytes.extend(le(1));
    bytes.extend(le(8));
    bytes.extend(b"buy milk");
    bytes.push(1);
    bytes.extend(le(2));
    bytes.extend(le(12));
    bytes.extend(b"write report");
    bytes.push(0);
    bytes
}

#[test]
fn the_key_is_tasks() {
    assert_eq!(TASKS_KEY.as_bytes(), b"tasks");
}

#[test]
fn a_saved_list_has_the_documented_bytes() {
    let mut storage = TaskStore::new();
    let tasks = vec![task(1, "buy milk", true), task(2, "write report", false)];
    save_tasks(&mut storage, &tasks).unwrap();
    assert_eq!(storage.blob, Some(milk_and_report()));
}

#[test]
fn encoding_gives_the_documented_bytes() {
    let tasks = vec![task(1, "buy milk", true), task(2, "write report", false)];
    assert_eq!(encode_tasks(&tasks).unwrap(), milk_and_report());
    assert_eq!(encode_tasks(&vec![]).unwrap(), vec![0u8; 8]);
    assert_eq!(decode_tasks(&encode_tasks(&tasks).unwrap()), tasks);
}

#[test]
fn an_empty_list_is_saved_as_a_zero_length() {
    let mut storage = TaskStore::new();
    save_tasks(&mut storage, &vec![]).unwrap();
    assert_eq!(storage.blob, Some(vec![0u8; 8]));
    assert_eq!(load_tasks(&storage), Vec::<Task>::new());
}

#[test]
fn a_description_is_stored_in_utf8_behind_its_byte_length() {
    let mut storage = TaskStore::new();
    save_tasks(&mut storage, &vec![task(258, "é✓", false)]).unwrap();
    let mut expected = le(1);
    expected.extend([2u8, 1, 0, 0, 0, 0, 0, 0]);
    expected.extend(le(5));
    expected.extend([0xc3u8, 0xa9, 0xe2, 0x9c, 0x93]);
    expected.push(0);
    assert_eq!(storage.blob, Some(expected));
}

#[test]
fn documented_bytes_are_read_as_the_list() {
    let storage = TaskStore { blob: Some(milk_and_report()) };
    assert_eq!(
        load_tasks(&storage),
        vec![task(1, "buy milk", true), task(2, "write report", false)]
    );
    assert_eq!(
        decode_tasks(&milk_and_report()),
        vec![task(1, "buy milk", true), task(2, "write report", false)]
    );
}

#[test]
fn bytes_behind_the_list_are_ignored() {
    let mut bytes = milk_and_report();
    bytes.extend([9u8, 9, 9]);
    assert_eq!(
        decode_tasks(&bytes),
        vec![task(1, "buy milk", true), task(2, "write report", false)]
    );
}

#[test]
fn what_was_saved_is_loaded() {
    let lists = vec![
        vec![],
        vec![task(1, "", false)],
        vec![task(u64::MAX, "x", true), task(0, "y\n\0z", false)],
        vec![task(3, "日本語のタスク", true), task(3, "🚀", true), task(1, "a b c", false)],
    ];
    for tasks in lists {
        let mut storage = TaskStore { blob: Some(vec![1, 2, 3]) };
        save_tasks(&mut storage, &tasks).unwrap();
        assert_eq!(load_tasks(&storage), tasks);
    }
}

#[test]
fn saving_what_was_loaded_changes_nothing_that_is_read() {
    let mut bytes = milk_and_report();
    bytes.extend([7u8; 4]);
    let mut storage = TaskStore { blob: Some(bytes) };
    let loaded = load_tasks(&storage);
    save_tasks(&mut storage, &loaded).unwrap();
    assert_eq!(storage.blob, Some(milk_and_report()));
    assert_eq!(load_tasks(&storage), loaded);
}

#[test]
fn a_missing_or_empty_blob_reads_as_no_tasks() {
    assert_eq!(load_tasks(&TaskStore { blob: None }), Vec::<Task>::new());
    assert_eq!(load_tasks(&TaskStore { blob: Some(vec![]) }), Vec::<Task>::new());
}

#[test]
fn unreadable_bytes_read_as_no_tasks() {
    let whole = milk_and_report();

    let mut bad_flag = whole.clone();
    bad_flag[32] = 2;

    let mut bad_text = whole.clone();
    bad_text[24] = 0xff;

    let mut long_text = whole.clone();
    long_text[16..24].copy_from_slice(&le(u64::MAX));

    let mut many = whole.clone();
    many[0..8].copy_from_slice(&le(3));

    let mut huge = whole.clone();
    huge[0..8].copy_from_slice(&le(u64::MAX));

    let cases = vec![
        vec![0u8],
        vec![0xffu8; 7],
        vec![0xffu8; 64],
        b"not a list at all".to_vec(),
        whole[..whole.len() - 1].to_vec(),
        whole[..20].to_vec(),
        bad_flag,
        bad_text,
        long_text,
        many,
        huge,
    ];
    for bytes in cases {
        assert_eq!(decode_tasks(&bytes), Vec::<Task>::new());
        let storage = TaskStore { blob: Some(bytes) };
        assert_eq!(load_tasks(&storage), Vec::<Task>::new());
    }
}

#[test]
fn adding_to_unreadable_bytes_starts_a_new_list() {
    let mut storage = TaskStore { blob: Some(b"garbage".to_vec()) };
    execute_add_task(&mut storage, "fresh".to_string()).unwrap();
    assert_eq!(load_tasks(&storage), vec![task(1, "fresh", false)]);
}

#[test]
fn encoded_bytes_replace_the_blob() {
    let mut storage = TaskStore { blob: Some(vec![1]) };
    let res = write_encoded(&mut storage, Ok(vec![4, 5, 6]));
    assert!(res.is_ok());
    assert_eq!(storage.blob, Some(vec![4, 5, 6]));
}

#[test]
fn an_encoder_failure_is_reported_and_writes_nothing() {
    let mut storage = TaskStore { blob: Some(vec![1]) };
    let res = write_encoded(&mut storage, Err(Box::new(bincode::ErrorKind::SizeLimit)));
    match res {
        Err(ContractError::SerializationError { source }) => {
            assert!(matches!(*source, bincode::ErrorKind::SizeLimit));
        }
        _ => panic!("expected a serialization error"),
    }
    assert_eq!(storage.blob, Some(vec![1]));
}

#[test]
fn rows_and_tasks_convert_one_for_one() {
    let tasks = vec![task(1, "one", true), task(9, "", false)];
    let rows = to_rows(&tasks);
    assert_eq!(rows, vec![(1, "one".to_string(), true), (9, String::new(), false)]);
    assert_eq!(from_rows(rows), tasks);
    assert_eq!(to_rows(&vec![]), vec![]);
}
