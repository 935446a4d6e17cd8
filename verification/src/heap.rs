//! The collector backend contract: the object lifecycle state machine and the
//! root/pin bookkeeping that every collection strategy must honour.

use vstd::prelude::*;
use crate::trace::Trace;

verus! {

/// An opaque identifier for one collector-managed allocation. A handle is
/// meaningful only relative to the heap that issued it.
pub type Handle = usize;

/// The lifecycle of a managed object. A freshly allocated object is
/// `Uninitialized`; committing a stored value makes it `Initialized`; once an
/// unreachable object has been handed to finalization it is `Finalized` and no
/// further tracing or access is permitted.
#[derive(Clone, Copy, PartialEq, Eq, Structural, Debug)]
pub enum LifecycleState {
    Uninitialized,
    Initialized,
    Finalized,
}

/// The bookkeeping a backend keeps for one managed object: its lifecycle
/// state, its root and pin counts, the layout it was allocated with, and the
/// address of its storage.
pub ghost struct ObjectMeta {
    pub state: LifecycleState,
    pub roots: nat,
    pub pins: nat,
    pub size: nat,
    pub align: nat,
    pub addr: nat,
}

/// Position of a state in the one-way lifecycle order.
pub open spec fn lifecycle_rank(s: LifecycleState) -> nat {
    match s {
        LifecycleState::Uninitialized => 0,
        LifecycleState::Initialized => 1,
        LifecycleState::Finalized => 2,
    }
}

/// Bookkeeping of a freshly allocated object: uninitialized, and both rooted
/// and pinned by contract of allocation.
pub open spec fn fresh_meta(size: nat, align: nat, addr: nat) -> ObjectMeta {
    ObjectMeta {
        state: LifecycleState::Uninitialized,
        roots: 1,
        pins: 1,
        size: size,
        align: align,
        addr: addr,
    }
}

/// The uninitialized-to-initialized transition: releases the allocation-time
/// pin and keeps the object rooted.
pub open spec fn initialized_meta(m: ObjectMeta) -> ObjectMeta {
    ObjectMeta { state: LifecycleState::Initialized, pins: (m.pins - 1) as nat, ..m }
}

/// The initialized-to-finalized transition: pure state change.
pub open spec fn finalized_meta(m: ObjectMeta) -> ObjectMeta {
    ObjectMeta { state: LifecycleState::Finalized, ..m }
}

/// One more root registration.
pub open spec fn rooted_meta(m: ObjectMeta) -> ObjectMeta {
    ObjectMeta { roots: m.roots + 1, ..m }
}

/// One root registration removed.
pub open spec fn unrooted_meta(m: ObjectMeta) -> ObjectMeta {
    ObjectMeta { roots: (m.roots - 1) as nat, ..m }
}

/// One more pin.
pub open spec fn pinned_meta(m: ObjectMeta) -> ObjectMeta {
    ObjectMeta { pins: m.pins + 1, ..m }
}

/// One pin removed.
pub open spec fn unpinned_meta(m: ObjectMeta) -> ObjectMeta {
    ObjectMeta { pins: (m.pins - 1) as nat, ..m }
}

/// Per-type metadata used to erase a concrete value type into a uniform
/// allocation request: the layout a backend must reserve for it. Descriptors
/// built for the same type are equal.
#[derive(Clone, Copy, PartialEq, Eq, Structural, Debug)]
pub struct GcVtable {
    size: usize,
    align: usize,
}

impl GcVtable {
    /// The size recorded in this descriptor.
    pub closed spec fn spec_size(&self) -> nat {
        self.size as nat
    }

    /// The alignment recorded in this descriptor.
    pub closed spec fn spec_align(&self) -> nat {
        self.align as nat
    }

    /// The descriptor for the concrete managed type `T`.
    pub fn for_type<T: Trace>() -> (v: GcVtable)
        ensures
            v.spec_size() == vstd::layout::size_of::<T>(),
            v.spec_align() == vstd::layout::align_of::<T>(),
    {
        GcVtable { size: core::mem::size_of::<T>(), align: core::mem::align_of::<T>() }
    }

    /// The size of the allocation this descriptor requests.
    pub fn size(&self) -> (n: usize)
        ensures
            n as nat == self.spec_size(),
    {
        self.size
    }

    /// The alignment of the allocation this descriptor requests.
    pub fn align(&self) -> (n: usize)
        ensures
            n as nat == self.spec_align(),
    {
        self.align
    }
}

/// What a successful allocation hands back: the new object's handle and the
/// address of the storage the value will be written into.
#[derive(Clone, Copy, PartialEq, Eq, Structural, Debug)]
pub struct FreshAllocation {
    /// A handle to the new allocation.
    pub handle: Handle,
    /// The address where the value will be stored.
    pub addr: usize,
}

/// The contract every collection strategy must satisfy: allocate storage,
/// transition object lifecycle states, and keep root and pin bookkeeping.
///
/// `gc_objects` is the strategy's model: the bookkeeping of every live
/// allocation, keyed by handle. `gc_payload` models the stored object
/// contents; bookkeeping operations must leave it untouched, which is what
/// lets a caller know that rooting, pinning or a lifecycle transition never
/// disturbs a stored value.
pub trait GcStrategy: Sized {
    /// The strategy's model of the stored object contents.
    type Payload;

    /// The bookkeeping of every allocation this strategy manages.
    spec fn gc_objects(&self) -> Map<Handle, ObjectMeta>;

    /// The stored object contents, untouched by bookkeeping operations.
    spec fn gc_payload(&self) -> Self::Payload;

    /// Reserve storage sized and aligned per the descriptor. On success the
    /// new object is uninitialized, rooted and pinned; `None` reports
    /// exhaustion and leaves the heap unchanged.
    fn allocate(&mut self, vtable: &GcVtable) -> (r: Option<FreshAllocation>)
        ensures
            final(self).gc_payload() == old(self).gc_payload(),
            match r {
                Some(fresh) => {
                    &&& !old(self).gc_objects().dom().contains(fresh.handle)
                    &&& final(self).gc_objects() == old(self).gc_objects().insert(
                        fresh.handle,
                        fresh_meta(vtable.spec_size(), vtable.spec_align(), fresh.addr as nat),
                    )
                },
                None => final(self).gc_objects() == old(self).gc_objects(),
            },
    ;

    /// Commit the uninitialized-to-initialized transition, releasing the
    /// allocation-time pin and keeping the object rooted.
    fn set_initialized(&mut self, obj: Handle)
        requires
            old(self).gc_objects().dom().contains(obj),
            old(self).gc_objects()[obj].state == LifecycleState::Uninitialized,
            old(self).gc_objects()[obj].pins >= 1,
        ensures
            final(self).gc_objects() == old(self).gc_objects().insert(
                obj,
                initialized_meta(old(self).gc_objects()[obj]),
            ),
            final(self).gc_payload() == old(self).gc_payload(),
    ;

    /// Mark an object finalized, making its storage eligible for reclamation.
    /// Only an initialized object that no root keeps alive may be finalized.
    fn set_finalized(&mut self, obj: Handle)
        requires
            old(self).gc_objects().dom().contains(obj),
            old(self).gc_objects()[obj].state == LifecycleState::Initialized,
            old(self).gc_objects()[obj].roots == 0,
        ensures
            final(self).gc_objects() == old(self).gc_objects().insert(
                obj,
                finalized_meta(old(self).gc_objects()[obj]),
            ),
            final(self).gc_payload() == old(self).gc_payload(),
    ;

    /// Increase the object's pin count and return its stable storage address,
    /// valid until the matching `unpin`. Pinning never touches root counts.
    fn pin(&mut self, obj: Handle) -> (addr: usize)
        requires
            old(self).gc_objects().dom().contains(obj),
            old(self).gc_objects()[obj].state != LifecycleState::Finalized,
            old(self).gc_objects()[obj].pins < usize::MAX,
        ensures
            final(self).gc_objects() == old(self).gc_objects().insert(
                obj,
                pinned_meta(old(self).gc_objects()[obj]),
            ),
            addr as nat == old(self).gc_objects()[obj].addr,
            final(self).gc_payload() == old(self).gc_payload(),
    ;

    /// Release one pin. Pins must balance: there must be a pin to release.
    fn unpin(&mut self, obj: Handle)
        requires
            old(self).gc_objects().dom().contains(obj),
            old(self).gc_objects()[obj].pins >= 1,
        ensures
            final(self).gc_objects() == old(self).gc_objects().insert(
                obj,
                unpinned_meta(old(self).gc_objects()[obj]),
            ),
            final(self).gc_payload() == old(self).gc_payload(),
    ;

    /// Add a root that references the given handle. A rooted object is
    /// treated as reachable regardless of graph connectivity.
    fn root(&mut self, obj: Handle)
        requires
            old(self).gc_objects().dom().contains(obj),
            old(self).gc_objects()[obj].state != LifecycleState::Finalized,
            old(self).gc_objects()[obj].roots < usize::MAX,
        ensures
            final(self).gc_objects() == old(self).gc_objects().insert(
                obj,
                rooted_meta(old(self).gc_objects()[obj]),
            ),
            final(self).gc_payload() == old(self).gc_payload(),
    ;

    /// Remove a root. Roots must balance: there must be a root to remove.
    fn unroot(&mut self, obj: Handle)
        requires
            old(self).gc_objects().dom().contains(obj),
            old(self).gc_objects()[obj].roots >= 1,
        ensures
            final(self).gc_objects() == old(self).gc_objects().insert(
                obj,
                unrooted_meta(old(self).gc_objects()[obj]),
            ),
            final(self).gc_payload() == old(self).gc_payload(),
    ;
}

/// The typed storage capability of a strategy: writing a value of type `T`
/// into a reserved allocation and reading it back. This is the model
/// counterpart of writing through a fresh allocation's address.
pub trait GcStore<T>: GcStrategy {
    /// The values of type `T` currently stored, keyed by handle.
    spec fn gc_values(&self) -> Map<Handle, T>;

    /// The stored values are determined by the payload, so bookkeeping
    /// operations, which preserve the payload, preserve them too.
    proof fn values_from_payload(a: Self, b: Self)
        requires
            a.gc_payload() == b.gc_payload(),
        ensures
            a.gc_values() == b.gc_values(),
    ;

    /// Write a value into a freshly reserved, still uninitialized allocation.
    fn store_value(&mut self, obj: Handle, value: T)
        requires
            old(self).gc_objects().dom().contains(obj),
            old(self).gc_objects()[obj].state == LifecycleState::Uninitialized,
        ensures
            final(self).gc_objects() == old(self).gc_objects(),
            final(self).gc_values() == old(self).gc_values().insert(obj, value),
    ;

    /// Read a stored value back. No access is permitted once finalized.
    fn load_value(&self, obj: Handle) -> (r: &T)
        requires
            self.gc_objects().dom().contains(obj),
            self.gc_objects()[obj].state != LifecycleState::Finalized,
            self.gc_values().dom().contains(obj),
        ensures
            *r == self.gc_values()[obj],
    ;
}

/// Lifecycle monotonicity: the transitions step through the one-way order
/// Uninitialized, Initialized, Finalized, each raising the rank by exactly
/// one, and no bookkeeping operation moves the state at all. Together with
/// the transition preconditions of [`GcStrategy`] (`set_initialized` only from
/// `Uninitialized`, `set_finalized` only from `Initialized`), the sequence of
/// states any one object observes is exactly that order, each transition
/// occurring at most once.
pub proof fn lemma_lifecycle_monotonic(m: ObjectMeta)
    ensures
        initialized_meta(m).state == LifecycleState::Initialized,
        finalized_meta(m).state == LifecycleState::Finalized,
        m.state == LifecycleState::Uninitialized ==> lifecycle_rank(initialized_meta(m).state)
            == lifecycle_rank(m.state) + 1,
        m.state == LifecycleState::Initialized ==> lifecycle_rank(finalized_meta(m).state)
            == lifecycle_rank(m.state) + 1,
        rooted_meta(m).state == m.state,
        unrooted_meta(m).state == m.state,
        pinned_meta(m).state == m.state,
        unpinned_meta(m).state == m.state,
{
}

/// Root balance: registering a root and then removing it restores the
/// object's bookkeeping, and the whole object table, exactly. Removing more
/// roots than were registered is excluded by the precondition of
/// [`GcStrategy::unroot`].
pub proof fn lemma_root_balance(objects: Map<Handle, ObjectMeta>, h: Handle)
    requires
        objects.dom().contains(h),
    ensures
        rooted_meta(objects[h]).roots == objects[h].roots + 1,
        unrooted_meta(rooted_meta(objects[h])) == objects[h],
        objects.insert(h, rooted_meta(objects[h])).insert(
            h,
            unrooted_meta(rooted_meta(objects[h])),
        ) == objects,
{
    assert(objects.insert(h, rooted_meta(objects[h])).insert(h, objects[h]) =~= objects);
}

/// Pin/root independence: pinning never changes the root count, rooting never
/// changes the pin count, the two commute, and each undoes cleanly.
pub proof fn lemma_pin_root_independence(m: ObjectMeta)
    ensures
        pinned_meta(m).roots == m.roots,
        unpinned_meta(m).roots == m.roots,
        rooted_meta(m).pins == m.pins,
        unrooted_meta(m).pins == m.pins,
        pinned_meta(rooted_meta(m)) == rooted_meta(pinned_meta(m)),
        unpinned_meta(pinned_meta(m)) == m,
        unrooted_meta(rooted_meta(m)) == m,
{
}

/// Bookkeeping after `n` root registrations.
pub open spec fn rooted_n(m: ObjectMeta, n: nat) -> ObjectMeta
    decreases n,
{
    if n == 0 {
        m
    } else {
        rooted_meta(rooted_n(m, (n - 1) as nat))
    }
}

/// Bookkeeping after `n` pins.
pub open spec fn pinned_n(m: ObjectMeta, n: nat) -> ObjectMeta
    decreases n,
{
    if n == 0 {
        m
    } else {
        pinned_meta(pinned_n(m, (n - 1) as nat))
    }
}

/// Bookkeeping after `n` root removals.
pub open spec fn unrooted_n(m: ObjectMeta, n: nat) -> ObjectMeta
    decreases n,
{
    if n == 0 {
        m
    } else {
        unrooted_n(unrooted_meta(m), (n - 1) as nat)
    }
}

/// Bookkeeping after `n` unpins.
pub open spec fn unpinned_n(m: ObjectMeta, n: nat) -> ObjectMeta
    decreases n,
{
    if n == 0 {
        m
    } else {
        unpinned_n(unpinned_meta(m), (n - 1) as nat)
    }
}

/// An object may be rooted and pinned any number of times independently:
/// `r` root registrations and `p` pins add exactly `r` to the root count and
/// exactly `p` to the pin count, whatever the order, and never move the
/// lifecycle state.
pub proof fn lemma_root_pin_counts(m: ObjectMeta, r: nat, p: nat)
    ensures
        pinned_n(rooted_n(m, r), p).roots == m.roots + r,
        pinned_n(rooted_n(m, r), p).pins == m.pins + p,
        pinned_n(rooted_n(m, r), p).state == m.state,
        pinned_n(rooted_n(m, r), p) == rooted_n(pinned_n(m, p), r),
    decreases r + p,
{
    if p > 0 {
        lemma_root_pin_counts(m, r, (p - 1) as nat);
        lemma_pin_commutes_roots(pinned_n(m, (p - 1) as nat), r);
    } else if r > 0 {
        lemma_root_pin_counts(m, (r - 1) as nat, p);
        assert(rooted_n(pinned_n(m, 0), r) == rooted_meta(rooted_n(pinned_n(m, 0), (r - 1) as nat)));
    }
}

/// One pin slides past any number of root registrations.
proof fn lemma_pin_commutes_roots(m: ObjectMeta, r: nat)
    ensures
        pinned_meta(rooted_n(m, r)) == rooted_n(pinned_meta(m), r),
    decreases r,
{
    if r > 0 {
        lemma_pin_commutes_roots(m, (r - 1) as nat);
    }
}

/// Unrooting exactly as many times as an object was rooted, and unpinning
/// exactly as many times as it was pinned, restores its bookkeeping exactly;
/// one more of either is excluded by the preconditions of
/// [`GcStrategy::unroot`] and [`GcStrategy::unpin`].
pub proof fn lemma_root_pin_balance_n(m: ObjectMeta, r: nat, p: nat)
    ensures
        unrooted_n(rooted_n(m, r), r) == m,
        unpinned_n(pinned_n(m, p), p) == m,
    decreases r + p,
{
    if r > 0 {
        assert(unrooted_meta(rooted_n(m, r)) == rooted_n(m, (r - 1) as nat));
        lemma_root_pin_balance_n(m, (r - 1) as nat, p);
        lemma_unrooted_n_peel(rooted_n(m, r), r);
    }
    if p > 0 {
        assert(unpinned_meta(pinned_n(m, p)) == pinned_n(m, (p - 1) as nat));
        lemma_root_pin_balance_n(m, r, (p - 1) as nat);
        lemma_unpinned_n_peel(pinned_n(m, p), p);
    }
}

/// Peeling one step off `unrooted_n`.
proof fn lemma_unrooted_n_peel(m: ObjectMeta, n: nat)
    requires
        n >= 1,
    ensures
        unrooted_n(m, n) == unrooted_n(unrooted_meta(m), (n - 1) as nat),
{
}

/// Peeling one step off `unpinned_n`.
proof fn lemma_unpinned_n_peel(m: ObjectMeta, n: nat)
    requires
        n >= 1,
    ensures
        unpinned_n(m, n) == unpinned_n(unpinned_meta(m), (n - 1) as nat),
{
}

} // verus!
