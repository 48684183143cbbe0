use loco_openapi::once::WriteOnce;

#[test]
fn new_slot_is_empty() {
    let slot: WriteOnce<u32> = WriteOnce::new();
    assert!(!slot.is_set());
    assert_eq!(slot.get(), None);
}

#[test]
fn first_write_is_kept() {
    let mut slot = WriteOnce::new();
    assert!(slot.try_set(1));
    assert!(slot.is_set());
    assert_eq!(slot.get(), Some(&1));
}

#[test]
fn later_writes_are_dropped() {
    let mut slot = WriteOnce::new();
    assert!(slot.try_set("first"));
    assert!(!slot.try_set("second"));
    assert!(!slot.try_set("third"));
    assert_eq!(slot.get(), Some(&"first"));
}

#[test]
fn get_or_init_hands_back_what_is_held() {
    let mut slot = WriteOnce::new();
    assert_eq!(slot.get_or_init(7), &7);
    assert_eq!(slot.get_or_init(8), &7);
    assert_eq!(slot.get(), Some(&7));
}
