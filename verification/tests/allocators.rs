use rtxel::client::slot_allocator::SlotAllocator as FixedAllocator;
use rtxel::client::unpack::Unpack;
use rtxel::client::command::Command;
use rtxel::game::render::slot_allocator::SlotAllocator;

#[test]
fn fixed_allocator_hands_out_increasing_slots() {
    let mut a = FixedAllocator::with_capacity(3);
    assert_eq!(a.allocate(), 0);
    assert_eq!(a.allocate(), 1);
    a.free(0);
    assert_eq!(a.allocate(), 0);
}

#[test]
fn growing_allocator_doubles_capacity() {
    let mut a = SlotAllocator::new(2);
    assert_eq!(a.allocate(), Some(0));
    assert_eq!(a.allocate(), Some(1));
    assert_eq!(a.capacity, 2);
    assert_eq!(a.allocate(), Some(2));
    assert_eq!(a.capacity, 4);
    assert_eq!(a.allocate(), Some(3));
    a.free(1);
    // the count passes the capacity again, so the new slots 4..8 come first
    assert_eq!(a.allocate(), Some(4));
    assert_eq!(a.size, 5);
    assert_eq!(a.capacity, 8);
}

#[test]
fn resize_appends_new_slots_lowest_last() {
    let mut a = SlotAllocator::new(1);
    a.resize(3);
    assert_eq!(a.free, vec![0, 2, 1]);
    assert_eq!(a.capacity, 3);
}

#[test]
fn unpack_dispatches_at_most_a_batch_in_order() {
    let mut u = Unpack::new();
    let cmds: Vec<Command> = (0..3000).map(|g| Command::clear(g)).collect();
    u.queue(cmds);
    assert_eq!(u.queue_size(), 3000);
    let (batch, groups) = u.take_dispatch();
    assert_eq!(batch.len(), 2048);
    assert_eq!(batch[0].grid, 0);
    assert_eq!(groups, 8);
    let (batch, groups) = u.take_dispatch();
    assert_eq!(batch.len(), 952);
    assert_eq!(batch[0].grid, 2048);
    assert_eq!(groups, 4);
    let (batch, groups) = u.take_dispatch();
    assert!(batch.is_empty());
    assert_eq!(groups, 0);
}
