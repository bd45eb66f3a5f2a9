use logic_sandbox::{Arena, Id};

#[test]
fn create_get_set_roundtrip() {
    let mut arena: Arena<u32> = Arena::new();
    let a = Id::create(&mut arena, 10);
    let b = Id::create(&mut arena, 20);
    assert_eq!(arena.len(), 2);
    assert_eq!(*a.get(&arena).unwrap(), 10);
    assert_eq!(*b.get(&arena).unwrap(), 20);
    a.set(&mut arena, 11);
    assert_eq!(*a.get(&arena).unwrap(), 11);
    assert_eq!(*b.get(&arena).unwrap(), 20);
}

#[test]
fn get_mut_edits_in_place() {
    let mut arena: Arena<u32> = Arena::new();
    let a = Id::create(&mut arena, 1);
    match a.get_mut(&mut arena) {
        Some(v) => *v += 41,
        None => panic!("freshly created handle must resolve"),
    }
    assert_eq!(*a.get(&arena).unwrap(), 42);
}

#[test]
fn removed_slots_stay_empty() {
    let mut arena: Arena<u32> = Arena::new();
    let a = Id::create(&mut arena, 1);
    let b = Id::create(&mut arena, 2);
    arena.remove(a);
    assert!(a.get(&arena).is_none());
    assert!(a.get_mut(&mut arena).is_none());
    a.set(&mut arena, 9); // writing through a stale handle is a no-op
    assert!(a.get(&arena).is_none());
    assert_eq!(*b.get(&arena).unwrap(), 2);
    assert_eq!(arena.len(), 2); // the slot stays occupied, never reused
    assert_eq!(arena.live_count(), 1);
    let c = Id::create(&mut arena, 3);
    assert_ne!(c.id, a.id);
}
