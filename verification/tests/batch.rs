use rem::render::{Batch, BATCH_SIZE};

#[test]
fn first_instance_sets_the_texture() {
    let mut b: Batch<u32> = Batch::new();
    assert!(b.is_empty());
    assert_eq!(b.texture_id(), 0);
    assert!(!b.push(5, 100));
    assert!(!b.push(9, 101));
    assert_eq!(b.texture_id(), 5);
    assert_eq!(b.instances(), &vec![100, 101]);
}

#[test]
fn batch_reports_full_and_drops_extra_instances() {
    let mut b: Batch<usize> = Batch::new();
    for i in 0..BATCH_SIZE - 1 {
        assert!(!b.push(1, i));
    }
    assert!(b.push(1, BATCH_SIZE - 1));
    assert_eq!(b.instances().len(), BATCH_SIZE);
    assert!(b.push(1, 7777));
    assert_eq!(b.instances().len(), BATCH_SIZE);
    assert_eq!(b.instances()[BATCH_SIZE - 1], BATCH_SIZE - 1);
}

#[test]
fn clear_empties_but_keeps_texture() {
    let mut b: Batch<u8> = Batch::new();
    b.push(-1, 1);
    assert_eq!(b.texture_id(), u32::MAX);
    b.clear();
    assert!(b.is_empty());
    assert_eq!(b.texture_id(), u32::MAX);
    b.push(2, 3);
    assert_eq!(b.texture_id(), 2);
}
