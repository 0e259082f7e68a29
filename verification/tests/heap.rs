use sel4_bookkeeping::heap::{next_break, Break, StaticHeap};

#[test]
fn new_heap_has_nothing_handed_out() {
    let mut heap: StaticHeap<64> = StaticHeap::new();
    assert_eq!(heap.size(), 64);
    assert_eq!(heap.sbrk(0), Break::Moved { old: 0 });
}

#[test]
fn sbrk_moves_the_watermark_up_and_down() {
    let mut heap: StaticHeap<64> = StaticHeap::new();
    assert_eq!(heap.sbrk(16), Break::Moved { old: 0 });
    assert_eq!(heap.sbrk(8), Break::Moved { old: 16 });
    assert_eq!(heap.sbrk(0), Break::Moved { old: 24 });
    assert_eq!(heap.sbrk(-24), Break::Moved { old: 24 });
    assert_eq!(heap.sbrk(0), Break::Moved { old: 0 });
}

#[test]
fn sbrk_to_the_very_end_is_granted() {
    let mut heap: StaticHeap<64> = StaticHeap::new();
    assert_eq!(heap.sbrk(64), Break::Moved { old: 0 });
    assert_eq!(heap.sbrk(1), Break::OutOfMemory);
    assert_eq!(heap.sbrk(0), Break::Moved { old: 64 });
    assert_eq!(heap.sbrk(-64), Break::Moved { old: 64 });
}

#[test]
fn sbrk_past_the_end_is_out_of_memory_and_moves_nothing() {
    let mut heap: StaticHeap<64> = StaticHeap::new();
    assert_eq!(heap.sbrk(10), Break::Moved { old: 0 });
    assert_eq!(heap.sbrk(55), Break::OutOfMemory);
    assert_eq!(heap.sbrk(i32::MAX), Break::OutOfMemory);
    assert_eq!(heap.sbrk(54), Break::Moved { old: 10 });
}

#[test]
fn sbrk_below_the_start_is_refused_and_moves_nothing() {
    let mut heap: StaticHeap<64> = StaticHeap::new();
    assert_eq!(heap.sbrk(-1), Break::BelowStart);
    assert_eq!(heap.sbrk(10), Break::Moved { old: 0 });
    assert_eq!(heap.sbrk(-11), Break::BelowStart);
    assert_eq!(heap.sbrk(i32::MIN), Break::BelowStart);
    assert_eq!(heap.sbrk(-10), Break::Moved { old: 10 });
}

#[test]
fn empty_heap_grants_only_nothing() {
    let mut heap: StaticHeap<0> = StaticHeap::new();
    assert_eq!(heap.sbrk(0), Break::Moved { old: 0 });
    assert_eq!(heap.sbrk(1), Break::OutOfMemory);
    assert_eq!(heap.sbrk(-1), Break::BelowStart);
}

#[test]
fn next_break_decides_from_plain_values() {
    assert_eq!(next_break(100, 40, 60), (100, Break::Moved { old: 40 }));
    assert_eq!(next_break(100, 40, 61), (40, Break::OutOfMemory));
    assert_eq!(next_break(100, 40, -40), (0, Break::Moved { old: 40 }));
    assert_eq!(next_break(100, 40, -41), (40, Break::BelowStart));
    assert_eq!(next_break(usize::MAX, usize::MAX, 1), (usize::MAX, Break::OutOfMemory));
    assert_eq!(
        next_break(usize::MAX, usize::MAX - 5, 5),
        (usize::MAX, Break::Moved { old: usize::MAX - 5 })
    );
    assert_eq!(
        next_break(usize::MAX, usize::MAX, i32::MIN),
        (usize::MAX - (1usize << 31), Break::Moved { old: usize::MAX })
    );
}
