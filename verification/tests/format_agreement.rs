use todo_list::codec::{decode_tasks, encode_tasks};
use todo_list::task::Task;

/// A small deterministic generator, so that every run sees the same inputs.
struct Lcg(u64);

impl Lcg {
    fn next(&mut self) -> u64 {
        self.0 = self.0.wrapping_mul(6364136223846793005).wrapping_add(1442695040888963407);
        self.0 >> 11
    }

    fn below(&mut self, bound: u64) -> u64 {
        self.next() % bound
    }
}

fn some_text(rng: &mut Lcg) -> String {
    let alphabet = ['a', 'Z', '0', ' ', '\n', '\0', 'é', 'ß', '✓', '日', '🚀', '"'];
    let len = rng.below(9);
    (0..len).map(|_| alphabet[rng.below(alphabet.len() as u64) as usize]).collect()
}

fn some_list(rng: &mut Lcg) -> Vec<Task> {
    let len = rng.below(5);
    (0..len)
        .map(|_| Task {
            id: if rng.below(2) == 0 { rng.below(4) } else { rng.next() << 11 | rng.below(2048) },
            description: some_text(rng),
            completed: rng.below(2) == 1,
        })
        .collect()
}

/// The documented format, written out by hand.
fn bytes_by_hand(tasks: &[Task]) -> Vec<u8> {
    let mut bytes = (tasks.len() as u64).to_le_bytes().to_vec();
    for t in tasks {
        bytes.extend(t.id.to_le_bytes());
        bytes.extend((t.description.len() as u64).to_le_bytes());
        bytes.extend(t.description.as_bytes());
        bytes.push(if t.completed { 1 } else { 0 });
    }
    bytes
}

fn take_u64(data: &[u8], at: &mut usize) -> Option<u64> {
    let end = at.checked_add(8)?;
    let chunk = data.get(*at..end)?;
    *at = end;
    let mut n = 0u64;
    for (i, b) in chunk.iter().enumerate() {
        n |= (*b as u64) << (8 * i);
    }
    Some(n)
}

/// The list at the start of the bytes, read by hand; `None` where the bytes
/// start with no list.
fn list_by_hand(data: &[u8]) -> Option<Vec<Task>> {
    let mut at = 0usize;
    let count = take_u64(data, &mut at)?;
    let mut tasks = Vec::new();
    let mut read = 0u64;
    while read < count {
        let id = take_u64(data, &mut at)?;
        let len = usize::try_from(take_u64(data, &mut at)?).ok()?;
        let end = at.checked_add(len)?;
        let description = std::str::from_utf8(data.get(at..end)?).ok()?.to_string();
        at = end;
        let completed = match *data.get(at)? {
            0 => false,
            1 => true,
            _ => return None,
        };
        at += 1;
        tasks.push(Task { id, description, completed });
        read += 1;
    }
    Some(tasks)
}

#[test]
fn encoded_lists_have_the_documented_bytes() {
    let mut rng = Lcg(1);
    for _ in 0..300 {
        let tasks = some_list(&mut rng);
        assert_eq!(encode_tasks(&tasks).unwrap(), bytes_by_hand(&tasks));
    }
}

#[test]
fn encoded_lists_are_read_back() {
    let mut rng = Lcg(2);
    for _ in 0..300 {
        let tasks = some_list(&mut rng);
        let mut bytes = bytes_by_hand(&tasks);
        assert_eq!(decode_tasks(&bytes), tasks);
        let extra = rng.below(4);
        for _ in 0..extra {
            bytes.push(rng.below(256) as u8);
        }
        assert_eq!(decode_tasks(&bytes), tasks);
    }
}

#[test]
fn damaged_bytes_are_read_as_the_documented_format_says() {
    let mut rng = Lcg(3);
    let mut unreadable = 0;
    let mut readable = 0;
    for _ in 0..2000 {
        let tasks = some_list(&mut rng);
        let mut bytes = bytes_by_hand(&tasks);
        match rng.below(4) {
            0 => {
                let keep = rng.below(bytes.len() as u64 + 1) as usize;
                bytes.truncate(keep);
            }
            1 => {
                let at = rng.below(bytes.len() as u64) as usize;
                bytes[at] = rng.below(256) as u8;
            }
            2 => {
                let at = rng.below(bytes.len() as u64) as usize;
                bytes[at] ^= 1 << rng.below(8);
            }
            _ => {
                let at = rng.below(bytes.len() as u64 + 1) as usize;
                bytes.insert(at, rng.below(256) as u8);
            }
        }
        let expected = list_by_hand(&bytes);
        if expected.is_some() {
            readable += 1;
        } else {
            unreadable += 1;
        }
        assert_eq!(decode_tasks(&bytes), expected.unwrap_or_default());
    }
    assert!(readable > 100);
    assert!(unreadable > 100);
}

#[test]
fn arbitrary_bytes_are_read_as_the_documented_format_says() {
    let mut rng = Lcg(4);
    for _ in 0..2000 {
        let len = rng.below(40) as usize;
        let mut bytes: Vec<u8> = (0..len).map(|_| rng.below(256) as u8).collect();
        if len >= 8 && rng.below(2) == 0 {
            bytes[..8].copy_from_slice(&rng.below(3).to_le_bytes());
        }
        if len >= 24 && rng.below(2) == 0 {
            bytes[16..24].copy_from_slice(&rng.below(5).to_le_bytes());
        }
        assert_eq!(decode_tasks(&bytes), list_by_hand(&bytes).unwrap_or_default());
    }
}
