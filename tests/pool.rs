use rcrosshair::pool::{frame_bytes_exec, BufferPool};

#[test]
fn capacity_never_shrinks_over_requests() {
    let mut p = BufferPool::new(100);
    let requests = [(50u128, 0u128, true), (400, 100, true), (300, 1000, true), (2000, 0, false), (10, 0, true)];
    let mut last = p.capacity;
    for (needed, prev, ok) in requests {
        let c = p.ensure_capacity(needed, prev, ok);
        assert!(c >= last);
        last = c;
    }
    assert_eq!(p.capacity, 400);
}

#[test]
fn growth_takes_the_larger_of_need_and_previous_frame() {
    let p = BufferPool::new(100);
    assert_eq!(p.growth_target(150, 400), Some(400));
    assert_eq!(p.growth_target(500, 400), Some(500));
    assert_eq!(p.growth_target(100, 400), None);
}

#[test]
fn failed_allocation_leaves_capacity() {
    let mut p = BufferPool::new(64);
    assert_eq!(p.ensure_capacity(128, 0, false), 64);
}

#[test]
fn frame_bytes_do_not_overflow() {
    assert_eq!(frame_bytes_exec(64, 64), 16384);
    assert_eq!(frame_bytes_exec(u32::MAX, u32::MAX), (u32::MAX as u128) * (u32::MAX as u128) * 4);
}
