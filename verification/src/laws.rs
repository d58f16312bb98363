//! General laws of the rolling buffer, stated over a model of whole append
//! histories: `ring_after` and `evicted_after` replay a sequence of appends
//! against the recurrence that `Rolling::push` guarantees, and the lemmas
//! here say what the buffer then retains.

use vstd::arithmetic::div_mod::lemma_add_mod_noop_right;
use vstd::arithmetic::div_mod::lemma_mod_add_multiples_vanish;
use vstd::arithmetic::div_mod::lemma_mod_equivalence;
use vstd::arithmetic::div_mod::lemma_mod_self_0;
use vstd::arithmetic::div_mod::lemma_mod_twice;
use vstd::arithmetic::div_mod::lemma_small_mod;
use vstd::prelude::*;

use crate::traits::live_len;
use crate::traits::retained_of;

verus! {

/// The physical storage after appending the elements of `vs` in order into
/// a fresh buffer of capacity `cap` whose slots start out as `fill`.
/// Each step is exactly the transition that `Rolling::push` ensures.
pub open spec fn ring_after<T>(cap: nat, fill: T, vs: Seq<T>) -> Seq<T>
    decreases vs.len(),
{
    if vs.len() == 0 {
        Seq::new(cap, |i: int| fill)
    } else {
        let prev = ring_after(cap, fill, vs.drop_last());
        if cap == 0 {
            prev.push(vs.last())
        } else {
            prev.update(((vs.len() - 1) % (cap as int)), vs.last())
        }
    }
}

/// The most recently displaced element after appending the elements of
/// `vs` in order, matching the capture that `Rolling::push` ensures.
pub open spec fn evicted_after<T>(cap: nat, fill: T, vs: Seq<T>) -> Option<T>
    decreases vs.len(),
{
    if vs.len() == 0 || cap == 0 {
        None
    } else {
        Some(ring_after(cap, fill, vs.drop_last())[(vs.len() - 1) % (cap as int)])
    }
}

/// The physical storage always has one slot per unit of capacity; in
/// unbounded mode it has exactly one slot per append.
pub proof fn lemma_ring_after_len<T>(cap: nat, fill: T, vs: Seq<T>)
    ensures
        ring_after(cap, fill, vs).len() == (if cap == 0 {
            vs.len()
        } else {
            cap
        }),
    decreases vs.len(),
{
    if vs.len() > 0 {
        lemma_ring_after_len(cap, fill, vs.drop_last());
    }
}

/// With capacity 0 the buffer is a plain append-only list: the storage is
/// exactly the appended elements in order, the retained elements are all of
/// them, and nothing is ever evicted.
pub proof fn lemma_unbounded_plain_list<T>(fill: T, vs: Seq<T>)
    ensures
        ring_after(0, fill, vs) == vs,
        retained_of(0, vs.len(), ring_after(0, fill, vs)) == vs,
        evicted_after(0, fill, vs) is None,
    decreases vs.len(),
{
    if vs.len() == 0 {
        assert(ring_after(0, fill, vs) =~= vs);
    } else {
        lemma_unbounded_plain_list(fill, vs.drop_last());
        assert(vs.drop_last().push(vs.last()) =~= vs);
    }
    assert(retained_of(0, vs.len(), vs) =~= vs);
}

/// Overwrite correctness: after appending the elements of `vs` in order,
/// the retained elements read in logical order are exactly the trailing
/// `live_len` elements of `vs`, i.e. the newest ones.
pub proof fn lemma_snapshot_is_suffix<T>(cap: nat, fill: T, vs: Seq<T>)
    ensures
        retained_of(cap, vs.len(), ring_after(cap, fill, vs)) == vs.subrange(
            vs.len() - live_len(cap, vs.len()),
            vs.len() as int,
        ),
    decreases vs.len(),
{
    let n = vs.len() as int;
    let ring = ring_after(cap, fill, vs);
    let ret = retained_of(cap, vs.len(), ring);
    lemma_ring_after_len(cap, fill, vs);
    if cap == 0 {
        lemma_unbounded_plain_list(fill, vs);
        assert(vs.subrange(0, n) =~= vs);
    } else if n == 0 {
        assert(ret =~= vs.subrange(0, 0));
    } else {
        let c = cap as int;
        let vs1 = vs.drop_last();
        lemma_snapshot_is_suffix(cap, fill, vs1);
        lemma_ring_after_len(cap, fill, vs1);
        let ring1 = ring_after(cap, fill, vs1);
        let ret1 = retained_of(cap, vs1.len(), ring1);
        let lv = live_len(cap, vs.len()) as int;
        let lv1 = live_len(cap, vs1.len()) as int;
        assert forall|k: int| 0 <= k < lv implies ret[k] == vs[n - lv + k] by {
            if n <= c {
                lemma_small_mod((n - 1) as nat, cap);
                lemma_small_mod(k as nat, cap);
                if k < n - 1 {
                    assert(ret1[k] == vs1[k]);
                }
            } else {
                lemma_add_mod_noop_right(k, n, c);
                if n - 1 == c {
                    lemma_mod_self_0(c);
                }
                if k == c - 1 {
                    lemma_mod_add_multiples_vanish(n - 1, c);
                    assert(ret[k] == vs[n - 1]);
                } else {
                    lemma_add_mod_noop_right(k + 1, n - 1, c);
                    lemma_mod_equivalence(n + k, n - 1, c);
                    lemma_small_mod((k + 1) as nat, cap);
                    assert((n + k) % c != (n - 1) % c);
                    assert(ret[k] == ring1[(n + k) % c]);
                    assert(ret1[k + 1] == ring1[(n + k) % c]);
                    assert(ret1[k + 1] == vs1[(n - 1) - lv1 + (k + 1)]);
                }
            }
        }
        assert(ret =~= vs.subrange(n - lv, n));
    }
}

/// The oldest retained element is the earliest append not yet overwritten,
/// and the newest retained element is the most recent append.
pub proof fn lemma_first_last<T>(cap: nat, fill: T, vs: Seq<T>)
    requires
        vs.len() > 0,
    ensures
        retained_of(cap, vs.len(), ring_after(cap, fill, vs)).last() == vs.last(),
        retained_of(cap, vs.len(), ring_after(cap, fill, vs)).first() == vs[vs.len()
            - live_len(cap, vs.len())],
{
    lemma_snapshot_is_suffix(cap, fill, vs);
}

/// Slots that no append has reached yet still hold the initial fill value.
proof fn lemma_ring_after_fill<T>(cap: nat, fill: T, vs: Seq<T>)
    requires
        vs.len() <= cap,
    ensures
        forall|k: int| vs.len() <= k < cap ==> ring_after(cap, fill, vs)[k] == fill,
    decreases vs.len(),
{
    lemma_ring_after_len(cap, fill, vs);
    if vs.len() > 0 {
        lemma_ring_after_fill(cap, fill, vs.drop_last());
        lemma_ring_after_len(cap, fill, vs.drop_last());
        lemma_small_mod((vs.len() - 1) as nat, cap);
    }
}

/// Eviction tracking: each append within the first `cap` displaces a copy
/// of the initial fill value, and every later append displaces the element
/// appended exactly `cap` steps before it. Unbounded buffers never evict.
pub proof fn lemma_evicted_after<T>(cap: nat, fill: T, vs: Seq<T>)
    ensures
        cap == 0 || vs.len() == 0 ==> evicted_after(cap, fill, vs) is None,
        cap > 0 && 0 < vs.len() <= cap ==> evicted_after(cap, fill, vs) == Some(fill),
        cap > 0 && vs.len() > cap ==> evicted_after(cap, fill, vs) == Some(
            vs[vs.len() - cap - 1],
        ),
{
    let n = vs.len() as int;
    if cap > 0 && n > 0 {
        let c = cap as int;
        let vs1 = vs.drop_last();
        let ring1 = ring_after(cap, fill, vs1);
        lemma_ring_after_len(cap, fill, vs1);
        if n <= c {
            lemma_small_mod((n - 1) as nat, cap);
            lemma_ring_after_fill(cap, fill, vs1);
        } else {
            lemma_snapshot_is_suffix(cap, fill, vs1);
            let ret1 = retained_of(cap, vs1.len(), ring1);
            if n - 1 == c {
                lemma_mod_self_0(c);
                lemma_small_mod(0, cap);
            } else {
                lemma_mod_twice(n - 1, c);
            }
            assert(ret1[0] == ring1[(n - 1) % c]);
            assert(ret1[0] == vs1[(n - 1) - live_len(cap, vs1.len())]);
        }
    }
}

} // verus!
