//! A table-based collection strategy: the simplest backend honouring the
//! [`GcStrategy`] and [`GcStore`] contracts. It keeps every allocation in one
//! growing table, never moves or reclaims storage, and uses the table index
//! both as the handle and as the storage address.

use vstd::prelude::*;
use crate::heap::{
    FreshAllocation, GcStore, GcStrategy, GcVtable, Handle, LifecycleState, ObjectMeta,
    finalized_meta, fresh_meta, initialized_meta, pinned_meta, rooted_meta, unpinned_meta,
    unrooted_meta,
};

verus! {

/// One table slot: the bookkeeping of an allocation and, once written, its
/// stored value.
struct Slot<T> {
    state: LifecycleState,
    roots: usize,
    pins: usize,
    size: usize,
    align: usize,
    value: Option<T>,
}

/// The bookkeeping a slot models, with the table index as the address.
spec fn slot_meta<T>(s: Slot<T>, addr: nat) -> ObjectMeta {
    ObjectMeta {
        state: s.state,
        roots: s.roots as nat,
        pins: s.pins as nat,
        size: s.size as nat,
        align: s.align as nat,
        addr: addr,
    }
}

/// The values stored across a table, keyed by slot index.
spec fn table_values<T>(t: Seq<Slot<T>>) -> Map<Handle, T> {
    Map::new(
        |h: Handle| h < t.len() && t[h as int].value is Some,
        |h: Handle| t[h as int].value->0,
    )
}

/// A backend that stores values of one concrete type `T` in a flat table,
/// bounded by a fixed number of slots.
pub struct TableStrategy<T> {
    table: Vec<Slot<T>>,
    capacity: usize,
}

impl<T> TableStrategy<T> {
    /// The number of slots this strategy may hand out in total.
    pub closed spec fn spec_capacity(&self) -> nat {
        self.capacity as nat
    }

    /// The number of allocations made so far.
    pub closed spec fn spec_object_count(&self) -> nat {
        self.table@.len()
    }

    /// An empty strategy, effectively unbounded.
    pub fn new() -> (s: TableStrategy<T>)
        ensures
            s.gc_objects() == Map::<Handle, ObjectMeta>::empty(),
            s.gc_values() == Map::<Handle, T>::empty(),
            s.spec_capacity() == usize::MAX as nat,
    {
        let s = TableStrategy { table: Vec::new(), capacity: usize::MAX };
        proof {
            assert(s.gc_objects() =~= Map::<Handle, ObjectMeta>::empty());
            assert(s.gc_values() =~= Map::<Handle, T>::empty());
        }
        s
    }

    /// An empty strategy that will report exhaustion after `capacity`
    /// allocations.
    pub fn with_capacity(capacity: usize) -> (s: TableStrategy<T>)
        ensures
            s.gc_objects() == Map::<Handle, ObjectMeta>::empty(),
            s.gc_values() == Map::<Handle, T>::empty(),
            s.spec_capacity() == capacity as nat,
    {
        let s = TableStrategy { table: Vec::new(), capacity };
        proof {
            assert(s.gc_objects() =~= Map::<Handle, ObjectMeta>::empty());
            assert(s.gc_values() =~= Map::<Handle, T>::empty());
        }
        s
    }

    /// The number of allocations made so far.
    pub fn object_count(&self) -> (n: usize)
        ensures
            n as nat == self.spec_object_count(),
            forall|h: Handle| #![auto] self.gc_objects().dom().contains(h) <==> h < n,
    {
        self.table.len()
    }

    /// The lifecycle state of one allocation.
    pub fn state_of(&self, obj: Handle) -> (s: LifecycleState)
        requires
            self.gc_objects().dom().contains(obj),
        ensures
            s == self.gc_objects()[obj].state,
    {
        self.table[obj].state
    }

    /// The current root count of one allocation.
    pub fn root_count(&self, obj: Handle) -> (n: usize)
        requires
            self.gc_objects().dom().contains(obj),
        ensures
            n as nat == self.gc_objects()[obj].roots,
    {
        self.table[obj].roots
    }

    /// The current pin count of one allocation.
    pub fn pin_count(&self, obj: Handle) -> (n: usize)
        requires
            self.gc_objects().dom().contains(obj),
        ensures
            n as nat == self.gc_objects()[obj].pins,
    {
        self.table[obj].pins
    }
}

impl<T> GcStrategy for TableStrategy<T> {
    type Payload = Map<Handle, T>;

    closed spec fn gc_objects(&self) -> Map<Handle, ObjectMeta> {
        Map::new(
            |h: Handle| h < self.table@.len(),
            |h: Handle| slot_meta(self.table@[h as int], h as nat),
        )
    }

    closed spec fn gc_payload(&self) -> Map<Handle, T> {
        table_values(self.table@)
    }

    fn allocate(&mut self, vtable: &GcVtable) -> (r: Option<FreshAllocation>)
        ensures
            r is Some <==> old(self).spec_object_count() < old(self).spec_capacity(),
            r is Some ==> final(self).spec_object_count() == old(self).spec_object_count() + 1,
            r is None ==> final(self).spec_object_count() == old(self).spec_object_count(),
    {
        if self.table.len() >= self.capacity {
            None
        } else {
            let h = self.table.len();
            self.table.push(
                Slot {
                    state: LifecycleState::Uninitialized,
                    roots: 1,
                    pins: 1,
                    size: vtable.size(),
                    align: vtable.align(),
                    value: None,
                },
            );
            proof {
                assert(self.gc_objects() =~= old(self).gc_objects().insert(
                    h,
                    fresh_meta(vtable.spec_size(), vtable.spec_align(), h as nat),
                ));
                assert(self.gc_payload() =~= old(self).gc_payload());
            }
            Some(FreshAllocation { handle: h, addr: h })
        }
    }

    fn set_initialized(&mut self, obj: Handle) {
        proof {
            assert(old(self).gc_objects().dom().contains(obj));
        }
        let slot = &mut self.table[obj];
        slot.state = LifecycleState::Initialized;
        slot.pins = slot.pins - 1;
        proof {
            assert(self.gc_objects() =~= old(self).gc_objects().insert(
                obj,
                initialized_meta(old(self).gc_objects()[obj]),
            ));
            assert(self.gc_payload() =~= old(self).gc_payload());
        }
    }

    fn set_finalized(&mut self, obj: Handle) {
        proof {
            assert(old(self).gc_objects().dom().contains(obj));
        }
        let slot = &mut self.table[obj];
        slot.state = LifecycleState::Finalized;
        proof {
            assert(self.gc_objects() =~= old(self).gc_objects().insert(
                obj,
                finalized_meta(old(self).gc_objects()[obj]),
            ));
            assert(self.gc_payload() =~= old(self).gc_payload());
        }
    }

    fn pin(&mut self, obj: Handle) -> (addr: usize) {
        proof {
            assert(old(self).gc_objects().dom().contains(obj));
        }
        let slot = &mut self.table[obj];
        slot.pins = slot.pins + 1;
        proof {
            assert(self.gc_objects() =~= old(self).gc_objects().insert(
                obj,
                pinned_meta(old(self).gc_objects()[obj]),
            ));
            assert(self.gc_payload() =~= old(self).gc_payload());
        }
        obj
    }

    fn unpin(&mut self, obj: Handle) {
        proof {
            assert(old(self).gc_objects().dom().contains(obj));
        }
        let slot = &mut self.table[obj];
        slot.pins = slot.pins - 1;
        proof {
            assert(self.gc_objects() =~= old(self).gc_objects().insert(
                obj,
                unpinned_meta(old(self).gc_objects()[obj]),
            ));
            assert(self.gc_payload() =~= old(self).gc_payload());
        }
    }

    fn root(&mut self, obj: Handle) {
        proof {
            assert(old(self).gc_objects().dom().contains(obj));
        }
        let slot = &mut self.table[obj];
        slot.roots = slot.roots + 1;
        proof {
            assert(self.gc_objects() =~= old(self).gc_objects().insert(
                obj,
                rooted_meta(old(self).gc_objects()[obj]),
            ));
            assert(self.gc_payload() =~= old(self).gc_payload());
        }
    }

    fn unroot(&mut self, obj: Handle) {
        proof {
            assert(old(self).gc_objects().dom().contains(obj));
        }
        let slot = &mut self.table[obj];
        slot.roots = slot.roots - 1;
        proof {
            assert(self.gc_objects() =~= old(self).gc_objects().insert(
                obj,
                unrooted_meta(old(self).gc_objects()[obj]),
            ));
            assert(self.gc_payload() =~= old(self).gc_payload());
        }
    }
}

impl<T> GcStore<T> for TableStrategy<T> {
    closed spec fn gc_values(&self) -> Map<Handle, T> {
        self.gc_payload()
    }

    proof fn values_from_payload(a: Self, b: Self) {
    }

    fn store_value(&mut self, obj: Handle, value: T) {
        proof {
            assert(old(self).gc_objects().dom().contains(obj));
        }
        let slot = &mut self.table[obj];
        slot.value = Some(value);
        proof {
            assert(self.gc_objects() =~= old(self).gc_objects());
            assert(self.gc_values() =~= old(self).gc_values().insert(obj, value));
        }
    }

    fn load_value(&self, obj: Handle) -> (r: &T) {
        proof {
            assert(self.gc_objects().dom().contains(obj));
            assert(self.gc_values().dom().contains(obj));
        }
        self.table[obj].value.as_ref().unwrap()
    }
}

} // verus!
