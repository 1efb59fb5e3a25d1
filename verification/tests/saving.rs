use hyperion::block::BlockState;
use hyperion::persist::EditStore;
use hyperion::pos::{I16Vec2, IVec3};
use hyperion::publish::{after, first_step, live_name, temp_name, Next, Step};

const STONE: BlockState = BlockState { raw: 1 };

fn record(x: i32, y: i32, z: i32, raw: u16) -> Vec<u8> {
    let mut r = Vec::new();
    r.extend_from_slice(&x.to_le_bytes());
    r.extend_from_slice(&y.to_le_bytes());
    r.extend_from_slice(&z.to_le_bytes());
    r.extend_from_slice(&raw.to_le_bytes());
    r
}

fn snapshot(count: u64, records: &[Vec<u8>]) -> Vec<u8> {
    let mut r = b"HYPEDIT1".to_vec();
    r.extend_from_slice(&count.to_le_bytes());
    for rec in records {
        r.extend_from_slice(rec);
    }
    r
}

fn open(bytes: Vec<u8>) -> (EditStore, usize) {
    EditStore::open("dir".to_string(), Some(bytes))
}

#[test]
fn one_edit_is_written_in_the_documented_format() {
    let (mut store, _) = EditStore::open("dir".to_string(), None);
    assert!(!store.is_dirty());
    assert_eq!(store.dir(), "dir");
    store.record(IVec3::new(1, -2, 70_000), BlockState { raw: 0x1234 });
    assert!(store.is_dirty());
    let bytes = store.serialize_and_clear();
    assert!(!store.is_dirty());
    assert_eq!(
        bytes,
        vec![
            0x48, 0x59, 0x50, 0x45, 0x44, 0x49, 0x54, 0x31, 1, 0, 0, 0, 0, 0, 0, 0, 1, 0, 0, 0, 0xfe, 0xff,
            0xff, 0xff, 0x70, 0x11, 0x01, 0, 0x34, 0x12,
        ]
    );
    assert_eq!(bytes, snapshot(1, &[record(1, -2, 70_000, 0x1234)]));
}

#[test]
fn an_empty_store_writes_only_a_header() {
    let (mut store, _) = EditStore::open(String::new(), None);
    assert_eq!(store.serialize_and_clear(), snapshot(0, &[]));
}

#[test]
fn what_was_written_is_read_back() {
    let (mut store, _) = EditStore::open("dir".to_string(), None);
    let mut edits = Vec::new();
    for i in 0..200i32 {
        let pos = IVec3::new(i * 37 - 3000, i - 64, i * -91);
        let state = BlockState { raw: (i * 100) as u16 };
        store.record(pos, state);
        edits.push((pos, state));
    }
    let (reopened, loaded) = open(store.serialize_and_clear());
    assert_eq!(loaded, 200);
    for (pos, state) in edits {
        let chunk = hyperion::pos::chunk_of(pos);
        assert_eq!(reopened.for_chunk(chunk).unwrap().get(pos), Some(state));
    }
}

#[test]
fn the_latest_edit_of_a_position_wins() {
    let (mut store, _) = EditStore::open(String::new(), None);
    let pos = IVec3::new(1, 2, 3);
    store.record(pos, STONE);
    store.record(pos, BlockState { raw: 2 });
    let chunk = store.for_chunk(I16Vec2::new(0, 0)).unwrap();
    assert_eq!(chunk.get(pos), Some(BlockState { raw: 2 }));
    assert_eq!(chunk.entries(), vec![(pos, BlockState { raw: 2 })]);
    assert!(!chunk.is_empty());
    assert_eq!(chunk.get(IVec3::new(1, 2, 4)), None);
    assert!(store.for_chunk(I16Vec2::new(0, 1)).is_none());

    let (store, loaded) = open(snapshot(2, &[record(0, 0, 0, 5), record(0, 0, 0, 6)]));
    assert_eq!(loaded, 2);
    let chunk = store.for_chunk(I16Vec2::new(0, 0)).unwrap();
    assert_eq!(chunk.get(IVec3::new(0, 0, 0)), Some(BlockState { raw: 6 }));
}

#[test]
fn snapshots_without_a_header_are_ignored() {
    assert_eq!(open(Vec::new()).1, 0);
    assert_eq!(open(b"HYPEDIT".to_vec()).1, 0);
    assert_eq!(open(b"HYPEDIT1\x01\0\0\0\0\0\0".to_vec()).1, 0);
    let mut wrong = snapshot(1, &[record(0, 0, 0, 1)]);
    wrong[7] = b'2';
    assert_eq!(open(wrong).1, 0);
}

#[test]
fn truncated_snapshots_give_what_they_hold_in_full() {
    let records = [record(0, 0, 0, 1), record(1, 0, 0, 2), record(2, 0, 0, 3)];
    let whole = snapshot(3, &records);
    for len in 16..=whole.len() {
        assert_eq!(open(whole[..len].to_vec()).1, (len - 16) / 14);
    }
    assert_eq!(open(snapshot(u64::MAX, &records)).1, 3);
    assert_eq!(open(snapshot(1, &records)).1, 1);
}

#[test]
fn unknown_states_are_skipped() {
    let (store, loaded) =
        open(snapshot(3, &[record(0, 0, 0, 24135), record(1, 0, 0, 24134), record(2, 0, 0, 65535)]));
    assert_eq!(loaded, 1);
    let chunk = store.for_chunk(I16Vec2::new(0, 0)).unwrap();
    assert_eq!(chunk.entries(), vec![(IVec3::new(1, 0, 0), BlockState { raw: 24134 })]);
    assert!(!store.is_dirty());
}

#[test]
fn a_snapshot_is_published_in_five_steps() {
    let mut steps = vec![first_step()];
    loop {
        match after(*steps.last().unwrap(), true) {
            Next::Do(step) => steps.push(step),
            Next::Done => break,
            Next::Failed(_) => unreachable!(),
        }
    }
    assert_eq!(
        steps,
        vec![Step::CreateTemp, Step::WriteTemp, Step::SyncTemp, Step::Rename, Step::SyncDir]
    );
    assert_eq!(live_name(), "edits.bin");
    assert_eq!(temp_name(), "edits.bin.tmp");
}

#[test]
fn a_failed_step_leaves_the_live_file_alone() {
    for step in [Step::CreateTemp, Step::WriteTemp, Step::SyncTemp, Step::Rename] {
        assert_eq!(after(step, false), Next::Failed(step));
    }
    assert_eq!(after(Step::SyncDir, false), Next::Done);
}

/// The files of a directory after some steps, where step number `fails` goes wrong.
fn files_after(steps: usize, fails: usize) -> (Option<&'static str>, Option<&'static str>) {
    let (mut live, mut temp) = (Some("old"), None);
    let mut step = first_step();
    for i in 0..steps {
        let ok = i != fails;
        match (step, ok) {
            (Step::CreateTemp, true) => temp = Some(""),
            (Step::WriteTemp, true) => temp = Some("new"),
            (Step::WriteTemp, false) => temp = Some("n"),
            (Step::Rename, true) => live = temp.take(),
            _ => {}
        }
        match after(step, ok) {
            Next::Do(next) => step = next,
            _ => break,
        }
    }
    (live, temp)
}

#[test]
fn the_live_file_is_always_whole() {
    for steps in 0..=5 {
        for fails in 0..=5 {
            let (live, _) = files_after(steps, fails);
            assert!(live == Some("old") || live == Some("new"));
        }
    }
    assert_eq!(files_after(5, 5), (Some("new"), None));
    assert_eq!(files_after(5, 1), (Some("old"), Some("n")));
}
