use tl_mbox::list::LinkedList;

#[test]
fn empty_head_is_empty() {
    let l = LinkedList::init_head(4);
    assert!(l.is_empty());
    for s in 1..=4 {
        assert!(!l.is_linked(s));
    }
}

#[test]
fn interleaved_inserts_then_removals_drain_to_empty() {
    let mut l = LinkedList::init_head(8);
    l.insert_tail(1);
    l.insert_head(2);
    l.insert_tail(3);
    l.insert_head(4);
    l.insert_tail(5);
    // order is now 4, 2, 1, 3, 5
    let expected = [4usize, 2, 1, 3, 5];
    for (i, e) in expected.iter().enumerate() {
        assert!(!l.is_empty(), "empty after {} removals", i);
        assert_eq!(l.remove_head(), Some(*e));
    }
    assert!(l.is_empty());
    assert_eq!(l.remove_head(), None);
}

#[test]
fn removed_slot_can_be_linked_again() {
    let mut l = LinkedList::init_head(2);
    l.insert_tail(2);
    assert!(l.is_linked(2));
    assert_eq!(l.remove_head(), Some(2));
    assert!(!l.is_linked(2));
    l.insert_head(2);
    l.insert_head(1);
    assert_eq!(l.remove_head(), Some(1));
    assert_eq!(l.remove_head(), Some(2));
    assert!(l.is_empty());
}
