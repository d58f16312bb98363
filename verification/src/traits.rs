//! The `Rolling` interface: a capacity-bounded append-only container over a
//! fixed ring of slots, with the spec functions that describe which elements
//! it still retains and in what order.

use vstd::prelude::*;

verus! {

/// How many elements are still retained after `total` appends into a buffer
/// of capacity `cap`: everything in unbounded mode (`cap == 0`), at most
/// `cap` in bounded mode.
pub open spec fn live_len(cap: nat, total: nat) -> nat {
    if cap == 0 || total <= cap {
        total
    } else {
        cap
    }
}

/// The physical slot that holds the oldest retained element. Once the ring
/// has wrapped, the slot about to be overwritten next is the oldest one.
pub open spec fn start_slot(cap: nat, total: nat) -> nat {
    if cap == 0 || total <= cap {
        0
    } else {
        total % cap
    }
}

/// The retained elements in logical (oldest-to-newest) order, read out of
/// the physical storage `ring` by walking forward from the start slot with
/// wraparound.
pub open spec fn retained_of<T>(cap: nat, total: nat, ring: Seq<T>) -> Seq<T> {
    Seq::new(
        live_len(cap, total),
        |k: int|
            if cap == 0 {
                ring[k]
            } else {
                ring[(start_slot(cap, total) + k) % (cap as int)]
            },
    )
}

/// A bounded trailing window over an append-only stream.
///
/// The abstract state is the fixed capacity `cap` (0 selects unbounded
/// mode), the total number of appends `total`, the physical storage `ring`
/// in ring order, and the most recently displaced element `evicted`.
pub trait Rolling<T: Copy + Default>: Sized {
    /// Structural invariant tying the physical storage to the capacity:
    /// constructors establish it and every method preserves it.
    spec fn wf(&self) -> bool;

    /// The fixed capacity chosen at construction; 0 selects unbounded mode.
    spec fn cap(&self) -> nat;

    /// The total number of elements ever appended; eviction never lowers it.
    spec fn total(&self) -> nat;

    /// The physical storage exactly as laid out internally (ring order).
    spec fn ring(&self) -> Seq<T>;

    /// The element displaced by the most recent overwriting append, or
    /// `None` while nothing has been captured yet.
    spec fn evicted(&self) -> Option<T>;

    /// What the invariant guarantees about the physical storage.
    proof fn lemma_wf(&self)
        requires
            self.wf(),
        ensures
            self.cap() > 0 ==> self.ring().len() == self.cap(),
            self.cap() == 0 ==> self.ring().len() == self.total(),
            self.total() <= usize::MAX,
            self.cap() <= usize::MAX,
    ;

    /// A fresh buffer of the given capacity. In bounded mode every slot
    /// holds one and the same initial fill value (the element type's
    /// default); in unbounded mode the storage starts empty.
    fn new(size: usize) -> (r: Self)
        ensures
            r.wf(),
            r.cap() == size,
            r.total() == 0,
            r.evicted() is None,
            r.ring().len() == size,
            forall|i: int, j: int|
                0 <= i < size && 0 <= j < size ==> r.ring()[i] == r.ring()[j],
            forall|i: int| 0 <= i < size ==> call_ensures(T::default, (), #[trigger] r.ring()[i]),
    ;

    /// Appends one element. In bounded mode the slot `total % cap` is
    /// captured into `evicted` and then overwritten; in unbounded mode the
    /// element is pushed at the end and `evicted` is untouched. Either way
    /// `total` grows by exactly one.
    fn push(&mut self, value: T)
        requires
            old(self).wf(),
            old(self).total() < usize::MAX,
        ensures
            final(self).wf(),
            final(self).cap() == old(self).cap(),
            final(self).total() == old(self).total() + 1,
            old(self).cap() == 0 ==> final(self).ring() == old(self).ring().push(value)
                && final(self).evicted() == old(self).evicted(),
            old(self).cap() > 0 ==> final(self).ring() == old(self).ring().update(
                (old(self).total() % old(self).cap()) as int,
                value,
            ) && final(self).evicted() == Some(
                old(self).ring()[(old(self).total() % old(self).cap()) as int],
            ),
    ;

    /// Random access by logical index. In bounded mode the answer is
    /// whatever currently sits in slot `i % cap`, whether or not logical
    /// index `i` is still live: an index older than the retention window
    /// aliases the newer write that reused its slot. Only unbounded mode
    /// answers `None`, for indices beyond the current length.
    fn get(&self, i: usize) -> (r: Option<&T>)
        requires
            self.wf(),
        ensures
            self.cap() > 0 ==> r is Some && *r.unwrap() == self.ring()[(i as int) % (
            self.cap() as int)],
            self.cap() == 0 && i < self.total() ==> r is Some && *r.unwrap() == self.ring()[
                i as int],
            self.cap() == 0 && i >= self.total() ==> r is None,
    ;

    /// The most recently appended element; `None` while nothing has been
    /// appended yet.
    fn last(&self) -> (r: Option<&T>)
        requires
            self.wf(),
        ensures
            r is Some <==> self.total() > 0,
            self.total() > 0 ==> *r.unwrap() == retained_of(
                self.cap(),
                self.total(),
                self.ring(),
            ).last(),
    ;

    /// A mutable reference to the most recently appended element; `None`
    /// while nothing has been appended yet, and the buffer is then left
    /// unchanged. Writing through the reference rewrites the slot of the
    /// most recent append and nothing else.
    fn last_mut(&mut self) -> (r: Option<&mut T>)
        requires
            old(self).wf(),
        ensures
            r is Some <==> old(self).total() > 0,
            final(self).wf(),
            final(self).cap() == old(self).cap(),
            final(self).total() == old(self).total(),
            final(self).evicted() == old(self).evicted(),
            old(self).total() == 0 ==> final(self).ring() == old(self).ring(),
            old(self).total() > 0 ==> *r.unwrap() == retained_of(
                old(self).cap(),
                old(self).total(),
                old(self).ring(),
            ).last(),
            old(self).total() > 0 ==> final(self).ring() == old(self).ring().update(
                if old(self).cap() == 0 {
                    old(self).total() - 1
                } else {
                    (old(self).total() - 1) % (old(self).cap() as int)
                },
                *final(r.unwrap()),
            ),
    ;

    /// The oldest element still retained; `None` while nothing has been
    /// appended yet.
    fn first(&self) -> (r: Option<&T>)
        requires
            self.wf(),
        ensures
            r is Some <==> self.total() > 0,
            self.total() > 0 ==> *r.unwrap() == retained_of(
                self.cap(),
                self.total(),
                self.ring(),
            ).first(),
    ;

    /// The currently retained elements, `len()` in number.
    fn len(&self) -> (r: usize)
        requires
            self.wf(),
        ensures
            r == live_len(self.cap(), self.total()),
    ;

    /// The fixed capacity (0 in unbounded mode).
    fn size(&self) -> (r: usize)
        ensures
            r == self.cap(),
    ;

    /// Read-only view of the physical storage exactly as laid out
    /// internally, in ring order rather than logical order.
    fn raw(&self) -> (r: &Vec<T>)
        ensures
            r@ == self.ring(),
    ;

    /// The most recently displaced element, or `None` while no bounded
    /// append has captured one yet.
    fn last_removed(&self) -> (r: &Option<T>)
        ensures
            *r == self.evicted(),
    ;

    /// The total number of elements ever appended.
    fn count(&self) -> (r: usize)
        ensures
            r == self.total(),
    ;

    /// Whether nothing has been appended yet.
    fn is_empty(&self) -> (r: bool)
        ensures
            r <==> self.total() == 0,
    ;

    /// A freshly allocated copy of exactly the retained elements, in
    /// oldest-to-newest logical order, independent of the buffer.
    fn to_vec(&self) -> (r: Vec<T>)
        requires
            self.wf(),
        ensures
            r@ == retained_of(self.cap(), self.total(), self.ring()),
    ;
}

} // verus!
