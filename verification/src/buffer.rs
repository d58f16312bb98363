//! `RollingBuffer`: the one concrete implementation of the `Rolling`
//! interface, a thin wrapper around a `Vec` that overwrites its oldest
//! slot once the ring is full.

use vstd::arithmetic::div_mod::lemma_add_mod_noop_right;
use vstd::arithmetic::div_mod::lemma_mod_add_multiples_vanish;
use vstd::arithmetic::div_mod::lemma_mod_sub_multiples_vanish;
use vstd::arithmetic::div_mod::lemma_mod_twice;
use vstd::arithmetic::div_mod::lemma_small_mod;
use vstd::pervasive::VecAdditionalExecFns;
use vstd::prelude::*;

use crate::traits::live_len;
use crate::traits::retained_of;
use crate::traits::start_slot;
use crate::traits::Rolling;

verus! {

/// A fixed-size ring over a `Vec` that overwrites the oldest slot when it
/// is full. With capacity 0 it behaves as a plain growable list.
///
/// `size` is the fixed capacity, `vec` the physical storage, `last_removed`
/// the most recently overwritten element, and `count` the number of
/// elements ever appended.
#[derive(Debug, Clone)]
pub struct RollingBuffer<T> {
    size: usize,
    vec: Vec<T>,
    last_removed: Option<T>,
    count: usize,
}

impl<T: Copy + Default> Rolling<T> for RollingBuffer<T> {
    closed spec fn wf(&self) -> bool {
        if self.size > 0 {
            self.vec.len() == self.size
        } else {
            self.vec.len() == self.count
        }
    }

    closed spec fn cap(&self) -> nat {
        self.size as nat
    }

    closed spec fn total(&self) -> nat {
        self.count as nat
    }

    closed spec fn ring(&self) -> Seq<T> {
        self.vec@
    }

    closed spec fn evicted(&self) -> Option<T> {
        self.last_removed
    }

    proof fn lemma_wf(&self) {
    }

    fn new(size: usize) -> (r: Self)
        ensures
            r.wf(),
            r.cap() == size,
            r.total() == 0,
            r.evicted() is None,
            r.ring().len() == size,
            forall|i: int, j: int|
                0 <= i < size && 0 <= j < size ==> r.ring()[i] == r.ring()[j],
            forall|i: int| 0 <= i < size ==> call_ensures(T::default, (), #[trigger] r.ring()[i]),
    {
        let mut vec: Vec<T> = Vec::new();
        if size > 0 {
            let fill = T::default();
            let mut i: usize = 0;
            while i < size
                invariant
                    i <= size,
                    vec@.len() == i,
                    forall|k: int| 0 <= k < i ==> vec@[k] == fill,
                decreases size - i,
            {
                vec.push(fill);
                i = i + 1;
            }
        }
        RollingBuffer { size, vec, last_removed: None, count: 0 }
    }

    fn push(&mut self, value: T)
        ensures
            final(self).wf(),
            final(self).cap() == old(self).cap(),
            final(self).total() == old(self).total() + 1,
            old(self).cap() == 0 ==> final(self).ring() == old(self).ring().push(value)
                && final(self).evicted() == old(self).evicted(),
            old(self).cap() > 0 ==> final(self).ring() == old(self).ring().update(
                (old(self).total() % old(self).cap()) as int,
                value,
            ) && final(self).evicted() == Some(
                old(self).ring()[(old(self).total() % old(self).cap()) as int],
            ),
    {
        if self.size > 0 {
            let index = self.count % self.size;
            let displaced = self.vec[index];
            self.vec.set(index, value);
            self.last_removed = Some(displaced);
        } else {
            self.vec.push(value);
        }
        self.count = self.count + 1;
    }

    fn get(&self, i: usize) -> (r: Option<&T>)
        ensures
            self.cap() > 0 ==> r is Some && *r.unwrap() == self.ring()[(i as int) % (
            self.cap() as int)],
            self.cap() == 0 && i < self.total() ==> r is Some && *r.unwrap() == self.ring()[
                i as int],
            self.cap() == 0 && i >= self.total() ==> r is None,
    {
        if self.size > 0 {
            Some(&self.vec[i % self.size])
        } else if i < self.vec.len() {
            Some(&self.vec[i])
        } else {
            None
        }
    }

    fn last(&self) -> (r: Option<&T>)
        ensures
            r is Some <==> self.total() > 0,
            self.total() > 0 ==> *r.unwrap() == retained_of(
                self.cap(),
                self.total(),
                self.ring(),
            ).last(),
    {
        if self.count == 0 {
            None
        } else if self.size > 0 {
            let index = (self.count - 1) % self.size;
            proof {
                let c = self.size as int;
                let n = self.count as int;
                if n > c {
                    lemma_add_mod_noop_right(c - 1, n, c);
                    lemma_mod_add_multiples_vanish(n - 1, c);
                }
            }
            Some(&self.vec[index])
        } else {
            Some(&self.vec[self.vec.len() - 1])
        }
    }

    fn last_mut(&mut self) -> (r: Option<&mut T>)
        ensures
            r is Some <==> old(self).total() > 0,
            final(self).wf(),
            final(self).cap() == old(self).cap(),
            final(self).total() == old(self).total(),
            final(self).evicted() == old(self).evicted(),
            old(self).total() == 0 ==> final(self).ring() == old(self).ring(),
            old(self).total() > 0 ==> *r.unwrap() == retained_of(
                old(self).cap(),
                old(self).total(),
                old(self).ring(),
            ).last(),
            old(self).total() > 0 ==> final(self).ring() == old(self).ring().update(
                if old(self).cap() == 0 {
                    old(self).total() - 1
                } else {
                    (old(self).total() - 1) % (old(self).cap() as int)
                },
                *final(r.unwrap()),
            ),
    {
        if self.count == 0 {
            None
        } else if self.size > 0 {
            let index = (self.count - 1) % self.size;
            proof {
                let c = self.size as int;
                let n = self.count as int;
                if n > c {
                    lemma_add_mod_noop_right(c - 1, n, c);
                    lemma_mod_add_multiples_vanish(n - 1, c);
                }
            }
            Some(&mut self.vec[index])
        } else {
            let index = self.vec.len() - 1;
            Some(&mut self.vec[index])
        }
    }

    fn first(&self) -> (r: Option<&T>)
        ensures
            r is Some <==> self.total() > 0,
            self.total() > 0 ==> *r.unwrap() == retained_of(
                self.cap(),
                self.total(),
                self.ring(),
            ).first(),
    {
        if self.count == 0 {
            None
        } else if self.size > 0 {
            if self.count <= self.size {
                proof {
                    lemma_small_mod(0, self.size as nat);
                }
                Some(&self.vec[0])
            } else {
                let index = self.count % self.size;
                proof {
                    lemma_mod_twice(self.count as int, self.size as int);
                }
                Some(&self.vec[index])
            }
        } else {
            Some(&self.vec[0])
        }
    }

    fn len(&self) -> (r: usize)
        ensures
            r == live_len(self.cap(), self.total()),
    {
        if self.count < self.size {
            self.count
        } else {
            self.vec.len()
        }
    }

    fn size(&self) -> (r: usize)
        ensures
            r == self.cap(),
    {
        self.size
    }

    fn raw(&self) -> (r: &Vec<T>)
        ensures
            r@ == self.ring(),
    {
        &self.vec
    }

    fn last_removed(&self) -> (r: &Option<T>)
        ensures
            *r == self.evicted(),
    {
        &self.last_removed
    }

    fn count(&self) -> (r: usize)
        ensures
            r == self.total(),
    {
        self.count
    }

    fn is_empty(&self) -> (r: bool)
        ensures
            r <==> self.total() == 0,
    {
        self.count == 0
    }

    fn to_vec(&self) -> (r: Vec<T>)
        ensures
            r@ == retained_of(self.cap(), self.total(), self.ring()),
    {
        let mut out: Vec<T> = Vec::new();
        if self.size > 0 {
            let m = if self.count < self.size {
                self.count
            } else {
                self.size
            };
            let start = if self.count <= self.size {
                0
            } else {
                self.count % self.size
            };
            let mut idx = start;
            let mut k: usize = 0;
            while k < m
                invariant
                    self.wf(),
                    self.size > 0,
                    m == live_len(self.cap(), self.total()),
                    start == start_slot(self.cap(), self.total()),
                    start < self.size,
                    m <= self.size,
                    k <= m,
                    idx == if start + k < self.size {
                        (start + k) as int
                    } else {
                        start + k - self.size
                    },
                    out@.len() == k,
                    forall|j: int|
                        0 <= j < k ==> out@[j] == retained_of(
                            self.cap(),
                            self.total(),
                            self.ring(),
                        )[j],
                decreases m - k,
            {
                proof {
                    let c = self.size as int;
                    let s = start as int;
                    let ki = k as int;
                    if s + ki < c {
                        lemma_small_mod((s + ki) as nat, c as nat);
                    } else {
                        lemma_mod_sub_multiples_vanish(s + ki, c);
                        lemma_small_mod((s + ki - c) as nat, c as nat);
                    }
                }
                out.push(self.vec[idx]);
                idx = if idx + 1 == self.size {
                    0
                } else {
                    idx + 1
                };
                k = k + 1;
            }
            proof {
                assert(out@ =~= retained_of(self.cap(), self.total(), self.ring()));
            }
        } else {
            let mut k: usize = 0;
            while k < self.vec.len()
                invariant
                    self.wf(),
                    self.size == 0,
                    k <= self.vec.len(),
                    out@.len() == k,
                    forall|j: int| 0 <= j < k ==> out@[j] == self.vec@[j],
                decreases self.vec.len() - k,
            {
                out.push(self.vec[k]);
                k = k + 1;
            }
            proof {
                assert(out@ =~= retained_of(self.cap(), self.total(), self.ring()));
            }
        }
        out
    }
}

} // verus!
