use std::collections::VecDeque;
use std::marker::PhantomData;
use std::rc::Rc;
use std::sync::Arc;

use gc_core::{Gc, GcHeap};
use gc_core::strategy::TableStrategy;
use gc_core::trace::{Trace, TraceContext};

/// A heap to mint typed handles from, and the handles themselves.
fn three_handles() -> (GcHeap<TableStrategy<u64>>, Gc<u64>, Gc<u64>, Gc<u64>) {
    let mut heap = GcHeap::new(TableStrategy::<u64>::new());
    let a = heap.allocate(1u64).unwrap().handle();
    let b = heap.allocate(2u64).unwrap().handle();
    let c = heap.allocate(3u64).unwrap().handle();
    (heap, a, b, c)
}

fn collect<T: Trace>(value: &T) -> Vec<usize> {
    let mut ctx = TraceContext::new();
    value.trace(&mut ctx);
    ctx.handles().clone()
}

#[test]
fn leaf_types_trace_to_nothing() {
    assert_eq!(collect(&0u8), Vec::<usize>::new());
    assert_eq!(collect(&1u16), Vec::<usize>::new());
    assert_eq!(collect(&2u32), Vec::<usize>::new());
    assert_eq!(collect(&3u64), Vec::<usize>::new());
    assert_eq!(collect(&4u128), Vec::<usize>::new());
    assert_eq!(collect(&-1i8), Vec::<usize>::new());
    assert_eq!(collect(&-2i16), Vec::<usize>::new());
    assert_eq!(collect(&-3i32), Vec::<usize>::new());
    assert_eq!(collect(&-4i64), Vec::<usize>::new());
    assert_eq!(collect(&-5i128), Vec::<usize>::new());
    assert_eq!(collect(&'x'), Vec::<usize>::new());
    assert_eq!(collect(&()), Vec::<usize>::new());
    assert_eq!(collect(&String::from("no handles")), Vec::<usize>::new());
    assert_eq!(collect(&PhantomData::<u64>), Vec::<usize>::new());
}

#[test]
fn typed_handle_traces_to_itself() {
    let (_heap, a, _, _) = three_handles();
    assert_eq!(collect(&a), vec![a.id()]);
}

#[test]
fn vec_traces_every_element_once() {
    let (_heap, a, b, c) = three_handles();
    assert_eq!(collect(&Vec::<Gc<u64>>::new()), Vec::<usize>::new());
    assert_eq!(collect(&vec![a]), vec![a.id()]);
    assert_eq!(collect(&vec![a, b, c]), vec![a.id(), b.id(), c.id()]);
    assert_eq!(collect(&vec![a, a]), vec![a.id(), a.id()]);
}

#[test]
fn vecdeque_traces_every_element_once() {
    let (_heap, a, b, _) = three_handles();
    let mut q = VecDeque::new();
    assert_eq!(collect(&q), Vec::<usize>::new());
    q.push_back(b);
    q.push_front(a);
    assert_eq!(collect(&q), vec![a.id(), b.id()]);
}

#[test]
fn array_traces_every_element_once() {
    let (_heap, a, b, c) = three_handles();
    assert_eq!(collect(&[a, b, c]), vec![a.id(), b.id(), c.id()]);
    assert_eq!(collect(&[a]), vec![a.id()]);
}

#[test]
fn option_traces_contained_value() {
    let (_heap, a, _, _) = three_handles();
    assert_eq!(collect(&Some(a)), vec![a.id()]);
    assert_eq!(collect(&Option::<Gc<u64>>::None), Vec::<usize>::new());
}

#[test]
fn result_traces_either_side() {
    let (_heap, a, b, _) = three_handles();
    let ok: Result<Gc<u64>, Gc<u64>> = Ok(a);
    let err: Result<Gc<u64>, Gc<u64>> = Err(b);
    assert_eq!(collect(&ok), vec![a.id()]);
    assert_eq!(collect(&err), vec![b.id()]);
}

#[test]
fn tuples_trace_in_field_order() {
    let (_heap, a, b, c) = three_handles();
    assert_eq!(collect(&(a,)), vec![a.id()]);
    assert_eq!(collect(&(a, b)), vec![a.id(), b.id()]);
    assert_eq!(collect(&(a, 5u64, b)), vec![a.id(), b.id()]);
    assert_eq!(collect(&(a, b, c, a)), vec![a.id(), b.id(), c.id(), a.id()]);
}

#[test]
fn ownership_wrappers_forward_to_referent() {
    let (_heap, a, _, _) = three_handles();
    assert_eq!(collect(&Box::new(a)), vec![a.id()]);
    assert_eq!(collect(&Rc::new(a)), vec![a.id()]);
    assert_eq!(collect(&Arc::new(a)), vec![a.id()]);
}

#[test]
fn nested_structures_trace_all_handles() {
    let (_heap, a, b, c) = three_handles();
    let value = vec![Some(Box::new((a, b))), None, Some(Box::new((c, a)))];
    assert_eq!(collect(&value), vec![a.id(), b.id(), c.id(), a.id()]);
}

#[test]
fn visitor_accumulates_in_order() {
    let (_heap, a, b, _) = three_handles();
    let mut ctx = TraceContext::new();
    a.trace(&mut ctx);
    b.trace(&mut ctx);
    vec![a, b].trace(&mut ctx);
    assert_eq!(ctx.handles().as_slice(), &[a.id(), b.id(), a.id(), b.id()]);
}

#[test]
fn end_to_end_scenario() {
    // Allocate an integer, observe its lifecycle, trace a sequence holding
    // its handle, and watch the root counts return to zero.
    let mut heap = GcHeap::new(TableStrategy::<u64>::new());
    let first = heap.allocate(42u64).unwrap();
    let gc = first.handle();
    assert_eq!(*heap.get(gc), 42u64);
    assert_eq!(
        heap.strategy().state_of(gc.id()),
        gc_core::heap::LifecycleState::Initialized,
    );
    assert_eq!(heap.strategy().root_count(gc.id()), 1);

    let sequence = vec![gc];
    let second = heap.root(gc);
    let mut ctx = TraceContext::new();
    sequence.trace(&mut ctx);
    assert_eq!(ctx.handles().as_slice(), &[gc.id()]);

    heap.unroot(second);
    heap.unroot(first);
    assert_eq!(heap.strategy().root_count(gc.id()), 0);
}
