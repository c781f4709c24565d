use compress_queue::supervisor::WorkerPool;

#[test]
fn new_pool_has_stable_identities() {
    let p = WorkerPool::new_pool(4);
    assert_eq!(p.slots.len(), 4);
    for (i, slot) in p.slots.iter().enumerate() {
        assert_eq!(slot.identity, i as u64 + 1);
        assert_eq!(slot.generation, 1);
        assert!(slot.alive);
    }
}

#[test]
fn supervisor_restarts_dead_worker() {
    // four workers; worker #2 is forcibly terminated; within one
    // supervision round a replacement with the same identity is running
    // and the live count is back to four
    let mut p = WorkerPool::new_pool(4);
    p.observe_exit(1);
    assert!(!p.slots[1].alive);
    assert_eq!(p.slots.iter().filter(|s| s.alive).count(), 3);

    p.restart_dead();
    assert_eq!(p.slots.len(), 4);
    assert_eq!(p.slots.iter().filter(|s| s.alive).count(), 4);
    assert_eq!(p.slots[1].identity, 2);
    assert_eq!(p.slots[1].generation, 2);
    // the untouched workers were not respawned
    for i in [0usize, 2, 3] {
        assert_eq!(p.slots[i].generation, 1);
        assert_eq!(p.slots[i].identity, i as u64 + 1);
    }
}

#[test]
fn restart_with_everyone_alive_changes_nothing() {
    let mut p = WorkerPool::new_pool(3);
    p.restart_dead();
    for (i, slot) in p.slots.iter().enumerate() {
        assert_eq!(slot.identity, i as u64 + 1);
        assert_eq!(slot.generation, 1);
        assert!(slot.alive);
    }
}
