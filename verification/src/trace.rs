//! The reachability-tracing protocol: a capability every managed value type
//! implements to report the handles it directly holds.

use vstd::prelude::*;
use core::marker::PhantomData;
use std::rc::Rc;
use std::sync::Arc;
use std::collections::VecDeque;
use crate::Gc;
use crate::heap::Handle;

verus! {

/// The reachability visitor handed to [`Trace::trace`]. It records, in order,
/// every handle reported to it during a trace.
pub struct TraceContext {
    visited: Vec<Handle>,
}

impl View for TraceContext {
    type V = Seq<Handle>;

    closed spec fn view(&self) -> Seq<Handle> {
        self.visited@
    }
}

impl TraceContext {
    /// A visitor that has not been handed any handle yet.
    pub fn new() -> (ctx: TraceContext)
        ensures
            ctx@ == Seq::<Handle>::empty(),
    {
        TraceContext { visited: Vec::new() }
    }

    /// Report one directly-held handle to the collector.
    pub fn accept<T>(&mut self, gc: Gc<T>)
        ensures
            final(self)@ == old(self)@.push(gc@),
    {
        self.visited.push(gc.id());
    }

    /// The handles reported so far, in the order they were reported.
    pub fn handles(&self) -> (r: &Vec<Handle>)
        ensures
            r@ == self@,
    {
        &self.visited
    }
}

/// The trace capability: a managed value reports every handle it directly
/// holds (not transitively) to the visitor, each exactly once.
///
/// `trace_ids` is the specification of that report: the exact sequence of
/// handles one `trace` call appends to the visitor.
pub trait Trace {
    /// The handles this value directly holds, in the order they are reported.
    spec fn trace_ids(&self) -> Seq<Handle>;

    /// Report every directly-held handle to the visitor.
    fn trace(&self, ctx: &mut TraceContext)
        ensures
            final(ctx)@ == old(ctx)@ + self.trace_ids(),
    ;
}

/// Appending an empty report leaves the visitor's record unchanged.
pub proof fn lemma_concat_empty(s: Seq<Handle>)
    ensures
        s + Seq::<Handle>::empty() == s,
{
    assert(s + Seq::<Handle>::empty() =~= s);
}

impl Trace for u8 {
    open spec fn trace_ids(&self) -> Seq<Handle> {
        Seq::empty()
    }

    fn trace(&self, ctx: &mut TraceContext) {
        proof {
            lemma_concat_empty(ctx@);
        }
    }
}

impl Trace for u16 {
    open spec fn trace_ids(&self) -> Seq<Handle> {
        Seq::empty()
    }

    fn trace(&self, ctx: &mut TraceContext) {
        proof {
            lemma_concat_empty(ctx@);
        }
    }
}

impl Trace for u32 {
    open spec fn trace_ids(&self) -> Seq<Handle> {
        Seq::empty()
    }

    fn trace(&self, ctx: &mut TraceContext) {
        proof {
            lemma_concat_empty(ctx@);
        }
    }
}

impl Trace for u64 {
    open spec fn trace_ids(&self) -> Seq<Handle> {
        Seq::empty()
    }

    fn trace(&self, ctx: &mut TraceContext) {
        proof {
            lemma_concat_empty(ctx@);
        }
    }
}

impl Trace for u128 {
    open spec fn trace_ids(&self) -> Seq<Handle> {
        Seq::empty()
    }

    fn trace(&self, ctx: &mut TraceContext) {
        proof {
            lemma_concat_empty(ctx@);
        }
    }
}

impl Trace for i8 {
    open spec fn trace_ids(&self) -> Seq<Handle> {
        Seq::empty()
    }

    fn trace(&self, ctx: &mut TraceContext) {
        proof {
            lemma_concat_empty(ctx@);
        }
    }
}

impl Trace for i16 {
    open spec fn trace_ids(&self) -> Seq<Handle> {
        Seq::empty()
    }

    fn trace(&self, ctx: &mut TraceContext) {
        proof {
            lemma_concat_empty(ctx@);
        }
    }
}

impl Trace for i32 {
    open spec fn trace_ids(&self) -> Seq<Handle> {
        Seq::empty()
    }

    fn trace(&self, ctx: &mut TraceContext) {
        proof {
            lemma_concat_empty(ctx@);
        }
    }
}

impl Trace for i64 {
    open spec fn trace_ids(&self) -> Seq<Handle> {
        Seq::empty()
    }

    fn trace(&self, ctx: &mut TraceContext) {
        proof {
            lemma_concat_empty(ctx@);
        }
    }
}

impl Trace for i128 {
    open spec fn trace_ids(&self) -> Seq<Handle> {
        Seq::empty()
    }

    fn trace(&self, ctx: &mut TraceContext) {
        proof {
            lemma_concat_empty(ctx@);
        }
    }
}

impl Trace for char {
    open spec fn trace_ids(&self) -> Seq<Handle> {
        Seq::empty()
    }

    fn trace(&self, ctx: &mut TraceContext) {
        proof {
            lemma_concat_empty(ctx@);
        }
    }
}

impl Trace for () {
    open spec fn trace_ids(&self) -> Seq<Handle> {
        Seq::empty()
    }

    fn trace(&self, ctx: &mut TraceContext) {
        proof {
            lemma_concat_empty(ctx@);
        }
    }
}

impl Trace for String {
    open spec fn trace_ids(&self) -> Seq<Handle> {
        Seq::empty()
    }

    fn trace(&self, ctx: &mut TraceContext) {
        proof {
            lemma_concat_empty(ctx@);
        }
    }
}

/// A zero-sized marker holds no handles.
impl<T> Trace for PhantomData<T> {
    open spec fn trace_ids(&self) -> Seq<Handle> {
        Seq::empty()
    }

    fn trace(&self, ctx: &mut TraceContext) {
        proof {
            lemma_concat_empty(ctx@);
        }
    }
}

/// A unique-ownership wrapper forwards to its referent.
impl<T: Trace> Trace for Box<T> {
    open spec fn trace_ids(&self) -> Seq<Handle> {
        (**self).trace_ids()
    }

    fn trace(&self, ctx: &mut TraceContext) {
        (**self).trace(ctx);
    }
}

/// A shared-ownership wrapper forwards to its referent, without touching the
/// reference count.
impl<T: Trace> Trace for Rc<T> {
    open spec fn trace_ids(&self) -> Seq<Handle> {
        (**self).trace_ids()
    }

    fn trace(&self, ctx: &mut TraceContext) {
        (**self).trace(ctx);
    }
}

/// An atomically shared-ownership wrapper forwards to its referent, without
/// touching the reference count.
impl<T: Trace> Trace for Arc<T> {
    open spec fn trace_ids(&self) -> Seq<Handle> {
        (**self).trace_ids()
    }

    fn trace(&self, ctx: &mut TraceContext) {
        (**self).trace(ctx);
    }
}

/// The handles a sequence of traceable values directly holds: the reports of
/// its elements, in element order.
pub open spec fn seq_trace_ids<T: Trace>(s: Seq<T>) -> Seq<Handle>
    decreases s.len(),
{
    if s.len() == 0 {
        Seq::empty()
    } else {
        seq_trace_ids(s.drop_last()) + s.last().trace_ids()
    }
}

/// Tracing one more element extends a sequence's report by exactly that
/// element's report.
pub proof fn lemma_seq_trace_ids_take_step<T: Trace>(s: Seq<T>, i: int)
    requires
        0 <= i < s.len(),
    ensures
        seq_trace_ids(s.take(i + 1)) == seq_trace_ids(s.take(i)) + s[i].trace_ids(),
{
    assert(s.take(i + 1).drop_last() =~= s.take(i));
    assert(s.take(i + 1).last() == s[i]);
}

/// An optional wrapper forwards to its contained value, if any.
impl<T: Trace> Trace for Option<T> {
    open spec fn trace_ids(&self) -> Seq<Handle> {
        match self {
            Some(v) => v.trace_ids(),
            None => Seq::empty(),
        }
    }

    fn trace(&self, ctx: &mut TraceContext) {
        match self {
            Some(v) => {
                v.trace(ctx);
            },
            None => {
                proof {
                    lemma_concat_empty(ctx@);
                }
            },
        }
    }
}

/// An either wrapper forwards to whichever value it holds.
impl<T: Trace, E: Trace> Trace for Result<T, E> {
    open spec fn trace_ids(&self) -> Seq<Handle> {
        match self {
            Ok(t) => t.trace_ids(),
            Err(e) => e.trace_ids(),
        }
    }

    fn trace(&self, ctx: &mut TraceContext) {
        match self {
            Ok(t) => {
                t.trace(ctx);
            },
            Err(e) => {
                e.trace(ctx);
            },
        }
    }
}

/// A homogeneous sequence forwards to every element exactly once, in order.
impl<T: Trace> Trace for Vec<T> {
    open spec fn trace_ids(&self) -> Seq<Handle> {
        seq_trace_ids(self@)
    }

    fn trace(&self, ctx: &mut TraceContext) {
        proof {
            assert(self@.take(0) =~= Seq::<T>::empty());
            lemma_concat_empty(ctx@);
        }
        let mut i: usize = 0;
        while i < self.len()
            invariant
                i <= self@.len(),
                ctx@ == old(ctx)@ + seq_trace_ids(self@.take(i as int)),
            decreases self@.len() - i,
        {
            proof {
                lemma_seq_trace_ids_take_step(self@, i as int);
            }
            let elem = &self[i];
            elem.trace(ctx);
            proof {
                assert(ctx@ =~= old(ctx)@ + seq_trace_ids(self@.take(i + 1)));
            }
            i = i + 1;
        }
        proof {
            assert(self@.take(self@.len() as int) =~= self@);
        }
    }
}

/// A double-ended queue forwards to every element exactly once, in order.
impl<T: Trace> Trace for VecDeque<T> {
    open spec fn trace_ids(&self) -> Seq<Handle> {
        seq_trace_ids(self@)
    }

    fn trace(&self, ctx: &mut TraceContext) {
        proof {
            assert(self@.take(0) =~= Seq::<T>::empty());
            lemma_concat_empty(ctx@);
        }
        let mut i: usize = 0;
        while i < self.len()
            invariant
                i <= self@.len(),
                ctx@ == old(ctx)@ + seq_trace_ids(self@.take(i as int)),
            decreases self@.len() - i,
        {
            proof {
                lemma_seq_trace_ids_take_step(self@, i as int);
            }
            let elem = &self[i];
            elem.trace(ctx);
            proof {
                assert(ctx@ =~= old(ctx)@ + seq_trace_ids(self@.take(i + 1)));
            }
            i = i + 1;
        }
        proof {
            assert(self@.take(self@.len() as int) =~= self@);
        }
    }
}

/// A fixed-size array forwards to every element exactly once, in order.
impl<T: Trace, const N: usize> Trace for [T; N] {
    open spec fn trace_ids(&self) -> Seq<Handle> {
        seq_trace_ids(self@)
    }

    fn trace(&self, ctx: &mut TraceContext) {
        proof {
            assert(self@.take(0) =~= Seq::<T>::empty());
            lemma_concat_empty(ctx@);
        }
        let mut i: usize = 0;
        while i < N
            invariant
                i <= N,
                self@.len() == N,
                ctx@ == old(ctx)@ + seq_trace_ids(self@.take(i as int)),
            decreases N - i,
        {
            proof {
                lemma_seq_trace_ids_take_step(self@, i as int);
            }
            let elem = &self[i];
            elem.trace(ctx);
            proof {
                assert(ctx@ =~= old(ctx)@ + seq_trace_ids(self@.take(i + 1)));
            }
            i = i + 1;
        }
        proof {
            assert(self@.take(self@.len() as int) =~= self@);
        }
    }
}

impl<T0: Trace> Trace for (T0,) {
    open spec fn trace_ids(&self) -> Seq<Handle> {
        self.0.trace_ids()
    }

    fn trace(&self, ctx: &mut TraceContext) {
        self.0.trace(ctx);
    }
}

impl<T0: Trace, T1: Trace> Trace for (T0, T1) {
    open spec fn trace_ids(&self) -> Seq<Handle> {
        self.0.trace_ids() + self.1.trace_ids()
    }

    fn trace(&self, ctx: &mut TraceContext) {
        self.0.trace(ctx);
        self.1.trace(ctx);
        proof {
            assert(final(ctx)@ =~= old(ctx)@ + (self.0.trace_ids() + self.1.trace_ids()));
        }
    }
}

impl<T0: Trace, T1: Trace, T2: Trace> Trace for (T0, T1, T2) {
    open spec fn trace_ids(&self) -> Seq<Handle> {
        self.0.trace_ids() + self.1.trace_ids() + self.2.trace_ids()
    }

    fn trace(&self, ctx: &mut TraceContext) {
        self.0.trace(ctx);
        self.1.trace(ctx);
        self.2.trace(ctx);
        proof {
            assert(final(ctx)@ =~= old(ctx)@ + (self.0.trace_ids() + self.1.trace_ids()
                + self.2.trace_ids()));
        }
    }
}

impl<T0: Trace, T1: Trace, T2: Trace, T3: Trace> Trace for (T0, T1, T2, T3) {
    open spec fn trace_ids(&self) -> Seq<Handle> {
        self.0.trace_ids() + self.1.trace_ids() + self.2.trace_ids() + self.3.trace_ids()
    }

    fn trace(&self, ctx: &mut TraceContext) {
        self.0.trace(ctx);
        self.1.trace(ctx);
        self.2.trace(ctx);
        self.3.trace(ctx);
        proof {
            assert(final(ctx)@ =~= old(ctx)@ + (self.0.trace_ids() + self.1.trace_ids()
                + self.2.trace_ids() + self.3.trace_ids()));
        }
    }
}

/// A typed handle is a leaf of the object graph: it reports exactly itself.
impl<T> Trace for Gc<T> {
    open spec fn trace_ids(&self) -> Seq<Handle> {
        seq![self@]
    }

    fn trace(&self, ctx: &mut TraceContext) {
        ctx.accept(*self);
        proof {
            assert(old(ctx)@.push(self@) =~= old(ctx)@ + seq![self@]);
        }
    }
}

} // verus!
