use gc_core::GcHeap;
use gc_core::heap::{GcStrategy, GcVtable, LifecycleState};
use gc_core::strategy::TableStrategy;

#[test]
fn alloc_round_trip_u64() {
    let mut heap = GcHeap::new(TableStrategy::<u64>::new());
    let root = heap.allocate(42u64).unwrap();
    let gc = root.handle();
    assert_eq!(*heap.get(gc), 42u64);
    heap.unroot(root);
}

#[test]
fn alloc_round_trip_string() {
    let mut heap = GcHeap::new(TableStrategy::<String>::new());
    let root = heap.allocate(String::from("managed")).unwrap();
    let gc = root.handle();
    assert_eq!(heap.get(gc).as_str(), "managed");
    heap.unroot(root);
}

#[test]
fn alloc_starts_initialized_rooted_unpinned() {
    let mut heap = GcHeap::new(TableStrategy::<u64>::new());
    let root = heap.allocate(7u64).unwrap();
    let h = root.handle().id();
    assert_eq!(heap.strategy().state_of(h), LifecycleState::Initialized);
    assert_eq!(heap.strategy().root_count(h), 1);
    assert_eq!(heap.strategy().pin_count(h), 0);
    heap.unroot(root);
}

#[test]
fn root_balance() {
    let mut heap = GcHeap::new(TableStrategy::<u64>::new());
    let first = heap.allocate(1u64).unwrap();
    let gc = first.handle();
    let h = gc.id();
    assert_eq!(heap.strategy().root_count(h), 1);
    let second = heap.root(gc);
    assert_eq!(heap.strategy().root_count(h), 2);
    let third = heap.root(gc);
    assert_eq!(heap.strategy().root_count(h), 3);
    heap.unroot(third);
    assert_eq!(heap.strategy().root_count(h), 2);
    heap.unroot(second);
    assert_eq!(heap.strategy().root_count(h), 1);
    heap.unroot(first);
    assert_eq!(heap.strategy().root_count(h), 0);
}

#[test]
fn allocation_exhaustion_reported() {
    let mut heap = GcHeap::new(TableStrategy::<u64>::with_capacity(1));
    let first = heap.allocate(1u64);
    assert!(first.is_some());
    let second = heap.allocate(2u64);
    assert!(second.is_none());
    // A failed allocation leaves the heap untouched.
    let h = first.as_ref().unwrap().handle();
    assert_eq!(*heap.get(h), 1u64);
}

#[test]
fn allocation_exhaustion_at_zero_capacity() {
    let mut heap = GcHeap::new(TableStrategy::<u64>::with_capacity(0));
    assert!(heap.allocate(1u64).is_none());
}

#[test]
fn lifecycle_states_in_order() {
    let mut strategy = TableStrategy::<u64>::new();
    let vtable = GcVtable::for_type::<u64>();
    let fresh = strategy.allocate(&vtable).unwrap();
    let h = fresh.handle;
    assert_eq!(strategy.state_of(h), LifecycleState::Uninitialized);
    assert_eq!(strategy.root_count(h), 1);
    assert_eq!(strategy.pin_count(h), 1);
    strategy.set_initialized(h);
    assert_eq!(strategy.state_of(h), LifecycleState::Initialized);
    // The allocation-time pin is released; the root stays.
    assert_eq!(strategy.pin_count(h), 0);
    assert_eq!(strategy.root_count(h), 1);
    strategy.unroot(h);
    assert_eq!(strategy.root_count(h), 0);
    strategy.set_finalized(h);
    assert_eq!(strategy.state_of(h), LifecycleState::Finalized);
}

#[test]
fn pin_and_root_counts_are_independent() {
    let mut strategy = TableStrategy::<u64>::new();
    let vtable = GcVtable::for_type::<u64>();
    let h = strategy.allocate(&vtable).unwrap().handle;
    strategy.set_initialized(h);
    assert_eq!(strategy.root_count(h), 1);
    assert_eq!(strategy.pin_count(h), 0);
    strategy.pin(h);
    strategy.pin(h);
    assert_eq!(strategy.pin_count(h), 2);
    assert_eq!(strategy.root_count(h), 1);
    strategy.root(h);
    assert_eq!(strategy.root_count(h), 2);
    assert_eq!(strategy.pin_count(h), 2);
    strategy.unpin(h);
    assert_eq!(strategy.pin_count(h), 1);
    assert_eq!(strategy.root_count(h), 2);
    strategy.unroot(h);
    assert_eq!(strategy.root_count(h), 1);
    assert_eq!(strategy.pin_count(h), 1);
    strategy.unpin(h);
    assert_eq!(strategy.pin_count(h), 0);
}

#[test]
fn pin_returns_storage_address() {
    let mut strategy = TableStrategy::<u64>::new();
    let vtable = GcVtable::for_type::<u64>();
    let fresh = strategy.allocate(&vtable).unwrap();
    // The table strategy uses the slot index as handle and address alike.
    assert_eq!(fresh.addr, fresh.handle);
    let addr = strategy.pin(fresh.handle);
    assert_eq!(addr, fresh.addr);
    strategy.unpin(fresh.handle);
}

#[test]
fn vtable_records_layout() {
    let v = GcVtable::for_type::<u64>();
    assert_eq!(v.size(), std::mem::size_of::<u64>());
    assert_eq!(v.align(), std::mem::align_of::<u64>());
    let w = GcVtable::for_type::<(u8, u64)>();
    assert_eq!(w.size(), std::mem::size_of::<(u8, u64)>());
    assert_eq!(w.align(), std::mem::align_of::<(u8, u64)>());
    // Descriptors for the same type are equal.
    assert_eq!(v, GcVtable::for_type::<u64>());
}

#[test]
fn handles_are_per_object_and_copyable() {
    let mut heap = GcHeap::new(TableStrategy::<u64>::new());
    let a = heap.allocate(10u64).unwrap();
    let b = heap.allocate(20u64).unwrap();
    let ga = a.handle();
    let gb = b.handle();
    assert_ne!(ga.id(), gb.id());
    let ga_copy = ga;
    assert_eq!(ga_copy.id(), ga.id());
    assert_eq!(*heap.get(ga_copy), 10u64);
    assert_eq!(*heap.get(gb), 20u64);
    heap.unroot(a);
    heap.unroot(b);
}

#[test]
fn strategy_object_count() {
    let mut strategy = TableStrategy::<u64>::new();
    assert_eq!(strategy.object_count(), 0);
    let vtable = GcVtable::for_type::<u64>();
    strategy.allocate(&vtable).unwrap();
    strategy.allocate(&vtable).unwrap();
    assert_eq!(strategy.object_count(), 2);
}
