//! The contract layer of a pluggable tracing garbage collector: type-erased
//! allocation descriptors, the object lifecycle state machine, the
//! reachability-tracing protocol, and the handle/root ownership discipline,
//! composed behind a heap facade.

use vstd::prelude::*;
use core::marker::PhantomData;

pub mod heap;
pub mod strategy;
pub mod trace;

use crate::heap::{GcStore, GcStrategy, GcVtable, Handle, LifecycleState, ObjectMeta, rooted_meta,
    unrooted_meta};
use crate::trace::Trace;

verus! {

/// A copyable, type-tagged view over a raw handle. Copying a `Gc` implies
/// neither ownership nor rooting; it is only a typed name for an allocation.
pub struct Gc<T> {
    /// Handle that represents the underlying allocation.
    handle: Handle,
    _ph: PhantomData<T>,
}

impl<T> View for Gc<T> {
    type V = Handle;

    closed spec fn view(&self) -> Handle {
        self.handle
    }
}

impl<T> Gc<T> {
    /// The raw handle this typed handle names.
    pub fn id(&self) -> (h: Handle)
        ensures
            h == self@,
    {
        self.handle
    }
}

impl<T> Clone for Gc<T> {
    fn clone(&self) -> (r: Self)
        ensures
            r == *self,
    {
        Gc { handle: self.handle, _ph: PhantomData }
    }
}

impl<T> Copy for Gc<T> {}

/// A scoped root guard: it stands for exactly one root registration against
/// one heap's backend. It is deliberately not copyable, so the registration
/// can be released at most once, by handing the guard back to
/// [`GcHeap::unroot`].
pub struct Root<T> {
    handle: Gc<T>,
}

impl<T> View for Root<T> {
    type V = Handle;

    closed spec fn view(&self) -> Handle {
        self.handle@
    }
}

impl<T> Root<T> {
    /// The typed handle this guard keeps alive.
    pub fn handle(&self) -> (g: Gc<T>)
        ensures
            g@ == self@,
    {
        self.handle
    }
}

/// The heap facade: composes a collection strategy with the descriptor
/// erasure, the storage of allocated values and the root guard discipline.
pub struct GcHeap<S> {
    strategy: S,
}

impl<S> GcHeap<S> {
    /// The backend in its current state.
    pub closed spec fn strategy_spec(&self) -> S {
        self.strategy
    }
}

impl<S: GcStrategy> GcHeap<S> {
    /// The bookkeeping of every allocation in this heap.
    pub open spec fn gc_objects(&self) -> Map<Handle, ObjectMeta> {
        self.strategy_spec().gc_objects()
    }

    /// The stored object contents of this heap.
    pub open spec fn gc_payload(&self) -> S::Payload {
        self.strategy_spec().gc_payload()
    }

    /// The values of type `T` stored in this heap, keyed by handle.
    pub open spec fn gc_values<T>(&self) -> Map<Handle, T> where S: GcStore<T> {
        self.strategy_spec().gc_values()
    }

    /// A heap driven by the given collection strategy.
    pub fn new(strategy: S) -> (h: GcHeap<S>)
        ensures
            h.strategy_spec() == strategy,
    {
        GcHeap { strategy }
    }

    /// The raw backend, for strategy-specific operations the facade does not
    /// cover.
    pub fn strategy(&self) -> (s: &S)
        ensures
            *s == self.strategy_spec(),
    {
        &self.strategy
    }

    /// The raw backend, mutably.
    pub fn strategy_mut(&mut self) -> (s: &mut S)
        ensures
            *s == old(self).strategy_spec(),
            final(self).strategy_spec() == *final(s),
    {
        &mut self.strategy
    }

    /// Allocate `value` into the heap: erase its type via its descriptor,
    /// reserve storage, write the value, commit initialization, and wrap the
    /// handle in a root guard. `None` reports backend exhaustion and leaves
    /// the heap unchanged.
    pub fn allocate<T: Trace>(&mut self, value: T) -> (r: Option<Root<T>>) where S: GcStore<T>
        ensures
            match r {
                Some(root) => {
                    &&& !old(self).gc_objects().dom().contains(root@)
                    &&& final(self).gc_objects().dom() == old(self).gc_objects().dom().insert(
                        root@,
                    )
                    &&& forall|h: Handle| #![auto]
                        h != root@ && old(self).gc_objects().dom().contains(h)
                            ==> final(self).gc_objects()[h] == old(self).gc_objects()[h]
                    &&& final(self).gc_objects()[root@].state == LifecycleState::Initialized
                    &&& final(self).gc_objects()[root@].roots == 1
                    &&& final(self).gc_objects()[root@].pins == 0
                    &&& final(self).gc_objects()[root@].size == vstd::layout::size_of::<T>()
                    &&& final(self).gc_objects()[root@].align == vstd::layout::align_of::<T>()
                    &&& final(self).gc_values::<T>() == old(self).gc_values::<T>().insert(
                        root@,
                        value,
                    )
                },
                None => {
                    &&& final(self).gc_objects() == old(self).gc_objects()
                    &&& final(self).gc_values::<T>() == old(self).gc_values::<T>()
                    &&& final(self).gc_payload() == old(self).gc_payload()
                },
            },
    {
        let vtable = GcVtable::for_type::<T>();
        match self.strategy.allocate(&vtable) {
            Some(fresh) => {
                proof {
                    S::values_from_payload(old(self).strategy_spec(), self.strategy);
                }
                self.strategy.store_value(fresh.handle, value);
                let ghost mid: S = self.strategy;
                self.strategy.set_initialized(fresh.handle);
                proof {
                    S::values_from_payload(mid, self.strategy);
                    assert(self.strategy.gc_objects().dom() =~= old(self).gc_objects().dom().insert(
                        fresh.handle,
                    ));
                }
                Some(Root { handle: Gc { handle: fresh.handle, _ph: PhantomData } })
            },
            None => {
                proof {
                    S::values_from_payload(old(self).strategy_spec(), self.strategy);
                }
                None
            },
        }
    }

    /// Register an additional root for an already-existing handle and return
    /// a guard for it.
    pub fn root<T>(&mut self, value: Gc<T>) -> (r: Root<T>)
        requires
            old(self).gc_objects().dom().contains(value@),
            old(self).gc_objects()[value@].state != LifecycleState::Finalized,
            old(self).gc_objects()[value@].roots < usize::MAX,
        ensures
            r@ == value@,
            final(self).gc_objects() == old(self).gc_objects().insert(
                value@,
                rooted_meta(old(self).gc_objects()[value@]),
            ),
            final(self).gc_payload() == old(self).gc_payload(),
    {
        self.strategy.root(value.handle);
        Root { handle: value }
    }

    /// Release a root guard, removing exactly the one root registration it
    /// stands for. Consuming the guard is what makes a second release of the
    /// same registration unrepresentable.
    pub fn unroot<T>(&mut self, root: Root<T>)
        requires
            old(self).gc_objects().dom().contains(root@),
            old(self).gc_objects()[root@].roots >= 1,
        ensures
            final(self).gc_objects() == old(self).gc_objects().insert(
                root@,
                unrooted_meta(old(self).gc_objects()[root@]),
            ),
            final(self).gc_payload() == old(self).gc_payload(),
    {
        self.strategy.unroot(root.handle.handle);
    }

    /// Read an allocated value back through a typed handle.
    pub fn get<T>(&self, gc: Gc<T>) -> (r: &T) where S: GcStore<T>
        requires
            self.gc_objects().dom().contains(gc@),
            self.gc_objects()[gc@].state != LifecycleState::Finalized,
            self.gc_values::<T>().dom().contains(gc@),
        ensures
            *r == self.gc_values::<T>()[gc@],
    {
        self.strategy.load_value(gc.handle)
    }
}

} // verus!
