use nvm_bevyutil::sync::{QueueExclusiveMPSC, QueueExclusiveMPSCWriterSource, SyncCellState};

fn insert_with<T>(source: &mut impl QueueExclusiveMPSCWriterSource<T>, v: T) {
    source.borrow_writer().insert(v);
}

#[test]
fn writers_take_the_slots_in_turn() {
    let mut queue = QueueExclusiveMPSC::<u32, 3>::default();
    assert_eq!(queue.len(), 0);
    assert!(queue.is_empty());
    assert_eq!(queue.acquisitions(), 0);
    for v in 0..5 {
        queue.borrow_writer().insert(v);
    }
    assert_eq!(queue.acquisitions(), 5);
    assert_eq!(queue.len(), 5);
    assert!(!queue.is_empty());
    assert_eq!(queue.used_writers(), 3);
    assert_eq!(queue.max_writers(), 3);
    assert_eq!(queue.take(), vec![vec![0, 3], vec![1, 4], vec![2]]);
    assert_eq!(queue.len(), 0);
    assert_eq!(queue.acquisitions(), 5);
}

#[test]
fn a_writer_appends_to_one_slot() {
    let mut queue = QueueExclusiveMPSC::<&str, 4>::default();
    {
        let mut writer = queue.borrow_writer();
        writer.insert("a");
        writer.insert("b");
    }
    insert_with(&mut queue, "c");
    let _unused = queue.borrow_writer();
    assert_eq!(queue.used_writers(), 2);
    assert_eq!(queue.max_writers(), 2);
    assert_eq!(queue.acquisitions(), 3);
    insert_with(&mut queue, "d");
    assert_eq!(queue.used_writers(), 3);
    assert_eq!(queue.max_writers(), 4);
    assert_eq!(queue.take(), vec![vec!["a", "b"], vec!["c"], vec![], vec!["d"]]);
}

#[test]
fn clear_starts_over() {
    let mut queue = QueueExclusiveMPSC::<u8, 2>::default();
    for v in 0..3 {
        queue.borrow_writer().insert(v);
    }
    queue.clear();
    assert_eq!(queue.len(), 0);
    assert_eq!(queue.acquisitions(), 0);
    assert_eq!(queue.used_writers(), 0);
    assert_eq!(queue.max_writers(), 0);
    queue.borrow_writer().insert(9);
    assert_eq!(queue.take(), vec![vec![9], vec![]]);
}

#[test]
fn iteration_walks_slot_after_slot() {
    let mut queue = QueueExclusiveMPSC::<u32, 3>::default();
    assert_eq!(queue.iter(), Vec::<&u32>::new());
    for v in 0..7 {
        queue.borrow_writer().insert(v);
    }
    assert_eq!(queue.iter(), vec![&0, &3, &6, &1, &4, &2, &5]);
    assert_eq!(queue.len(), 7);
}

#[test]
fn borrow_counter_lets_readers_or_one_writer_in() {
    let mut state = SyncCellState::new();
    assert!(state.is_free());
    assert!(state.borrow());
    assert!(state.borrow());
    assert_eq!(state.count, 2);
    assert!(!state.is_free());
    state.release();
    state.release();
    assert!(state.is_free());
    assert!(state.borrow_mut());
    assert_eq!(state.count, 0x80);
    assert!(!state.borrow());
    assert_eq!(state.count, 0x81);
    state.release_mut();
    assert!(state.is_free());
    // A writer beside a reader is refused and leaves its mark.
    assert!(state.borrow());
    assert!(!state.borrow_mut());
    assert_eq!(state.count, 0x81);
    assert!(!state.borrow());
    // The counter goes round the range of a byte.
    let mut state = SyncCellState { count: u8::MAX };
    assert!(!state.borrow());
    assert_eq!(state.count, 0);
    state.release();
    assert_eq!(state.count, u8::MAX);
    // The 128th reader sets the top bit.
    let mut state = SyncCellState { count: 127 };
    assert!(state.borrow());
    assert!(!state.borrow());
}
