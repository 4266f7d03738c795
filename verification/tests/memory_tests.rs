use tilegame::memory::{GameMemory, MemoryError};

fn memory(permanent: Vec<u8>, transient: Vec<u8>) -> GameMemory {
    GameMemory { is_initialized: true, permanent, transient }
}

#[test]
fn write_appends_both_blocks() {
    let m = memory(vec![1, 2, 3], vec![9, 8]);
    let mut w = vec![100];
    m.write_to(&mut w);
    assert_eq!(w, vec![100, 1, 2, 3, 9, 8]);
}

#[test]
fn read_gives_back_write() {
    let m = memory(vec![1, 2, 3], vec![9, 8]);
    let mut saved = Vec::new();
    m.write_to(&mut saved);
    saved.extend_from_slice(&[55, 66]);
    let mut target = memory(vec![0; 3], vec![0; 2]);
    assert_eq!(target.read_from(&saved), Ok(5));
    assert_eq!(target.permanent, vec![1, 2, 3]);
    assert_eq!(target.transient, vec![9, 8]);
    assert!(target.is_initialized);
}

#[test]
fn short_read_fails_and_keeps_memory() {
    let mut target = memory(vec![7; 3], vec![6; 2]);
    assert_eq!(target.read_from(&[1, 2, 3, 4]), Err(MemoryError::UnexpectedEof));
    assert_eq!(target.permanent, vec![7; 3]);
    assert_eq!(target.transient, vec![6; 2]);
}
