//! Properties of the allocation protocol that span several calls, stated over
//! the outcomes that `ChannelTable::take` and `ChannelTable::claim` follow.
use vstd::prelude::*;
use crate::endpoint::{Puller, Pusher};
use crate::table::{claim_outcome, created_by, endpoints_at, sized_for, take_outcome, AllocError, SlotView};

verus! {

/// The outcome of the `allocated`-th allocation call of each worker of
/// `order`, in that order, all for channel kind `kind`: the table after the
/// last call, or the first error.
pub open spec fn claim_each(v: Seq<SlotView>, peers: nat, order: Seq<int>, allocated: int, kind: u64) -> Result<Seq<SlotView>, AllocError>
    decreases order.len(),
{
    if order.len() == 0 {
        Ok(v)
    } else {
        match claim_outcome(v, peers, order[0], allocated, kind) {
            Ok(next) => claim_each(next, peers, order.drop_first(), allocated, kind),
            Err(e) => Err(e),
        }
    }
}

/// Takes of the workers of `order` from an existing slot `a`, none of them
/// taken before, all succeed and mark exactly those workers.
proof fn lemma_takes_succeed(v: Seq<SlotView>, peers: nat, order: Seq<int>, a: int, kind: u64)
    requires
        0 <= a < v.len(),
        v[a].0 == kind,
        v[a].1.len() == peers,
        order.no_duplicates(),
        forall|i: int| 0 <= i < order.len() ==> 0 <= #[trigger] order[i] < peers && !v[a].1[order[i]],
    ensures
        claim_each(v, peers, order, a, kind) == Ok::<Seq<SlotView>, AllocError>(
            v.update(a, (kind, Seq::new(peers, |w: int| v[a].1[w] || order.contains(w)))),
        ),
    decreases order.len(),
{
    if order.len() == 0 {
        assert(Seq::new(peers, |w: int| v[a].1[w] || order.contains(w)) =~= v[a].1);
        assert(v.update(a, (kind, v[a].1)) =~= v);
    } else {
        let w0 = order[0];
        let next = v.update(a, (kind, v[a].1.update(w0, true)));
        assert(claim_outcome(v, peers, w0, a, kind) == Ok::<Seq<SlotView>, AllocError>(next));
        let rest = order.drop_first();
        assert forall|i: int| 0 <= i < rest.len() implies 0 <= #[trigger] rest[i] < peers && !next[a].1[rest[i]] by {
            assert(rest[i] == order[i + 1]);
            assert(order[i + 1] != order[0]);
        }
        lemma_takes_succeed(next, peers, rest, a, kind);
        assert forall|w: int| 0 <= w < peers implies (next[a].1[w] || rest.contains(w)) == (v[a].1[w] || order.contains(w)) by {
            if order.contains(w) && w != w0 {
                let i = choose|i: int| 0 <= i < order.len() && order[i] == w;
                assert(i != 0);
                assert(rest[i - 1] == w);
            }
            if rest.contains(w) {
                let i = choose|i: int| 0 <= i < rest.len() && rest[i] == w;
                assert(order[i + 1] == w);
            }
            if w == w0 {
                assert(order[0] == w);
            }
        }
        assert(Seq::new(peers, |w: int| next[a].1[w] || rest.contains(w)) =~= Seq::new(
            peers,
            |w: int| v[a].1[w] || order.contains(w),
        ));
        assert(next.update(a, (kind, Seq::new(peers, |w: int| next[a].1[w] || rest.contains(w)))) =~= v.update(
            a,
            (kind, Seq::new(peers, |w: int| v[a].1[w] || order.contains(w))),
        ));
    }
}

/// When every worker of a group makes its next allocation call once, in any
/// order, every call succeeds: the first creates the slot, each takes its own
/// share, and afterwards the new slot has every share taken.
pub proof fn lemma_every_worker_gets_its_share(v: Seq<SlotView>, peers: nat, order: Seq<int>, kind: u64)
    requires
        peers >= 1,
        order.len() == peers,
        order.no_duplicates(),
        forall|i: int| 0 <= i < order.len() ==> 0 <= #[trigger] order[i] < peers,
    ensures
        claim_each(v, peers, order, v.len() as int, kind) == Ok::<Seq<SlotView>, AllocError>(
            v.push((kind, Seq::new(peers, |w: int| true))),
        ),
{
    let a = v.len() as int;
    let w0 = order[0];
    let first = v.push(created_by(kind, peers, w0));
    assert(claim_outcome(v, peers, w0, a, kind) == Ok::<Seq<SlotView>, AllocError>(first));
    let rest = order.drop_first();
    assert forall|i: int| 0 <= i < rest.len() implies 0 <= #[trigger] rest[i] < peers && !first[a].1[rest[i]] by {
        assert(rest[i] == order[i + 1]);
        assert(order[i + 1] != order[0]);
    }
    lemma_takes_succeed(first, peers, rest, a, kind);
    assert forall|w: int| 0 <= w < peers implies first[a].1[w] || rest.contains(w) by {
        // `order` holds each of the `peers` workers; map the missing one to a
        // contradiction on the count.
        if !first[a].1[w] && !rest.contains(w) {
            assert(!order.contains(w)) by {
                if order.contains(w) {
                    let i = choose|i: int| 0 <= i < order.len() && order[i] == w;
                    if i == 0 {
                        assert(first[a].1[w]);
                    } else {
                        assert(rest[i - 1] == w);
                    }
                }
            }
            lemma_all_present(order, peers, w);
        }
    }
    assert(Seq::new(peers, |w: int| first[a].1[w] || rest.contains(w)) =~= Seq::new(peers, |w: int| true));
    assert(first.update(a, (kind, Seq::new(peers, |w: int| first[a].1[w] || rest.contains(w)))) =~= v.push(
        (kind, Seq::new(peers, |w: int| true)),
    ));
}

/// A sequence of `peers` distinct workers of `0..peers` holds each of them.
proof fn lemma_all_present(order: Seq<int>, peers: nat, w: int)
    requires
        order.len() == peers,
        order.no_duplicates(),
        forall|i: int| 0 <= i < order.len() ==> 0 <= #[trigger] order[i] < peers,
        0 <= w < peers,
    ensures
        order.contains(w),
{
    let s = order.to_set();
    order.unique_seq_to_set();
    assert(s.len() == peers);
    let full = Set::new(|x: int| 0 <= x < peers);
    assert(s.subset_of(full));
    lemma_range_set_len(peers);
    if !order.contains(w) {
        assert(!s.contains(w));
        assert(s.subset_of(full.remove(w)));
        vstd::set_lib::lemma_len_subset(s, full.remove(w));
        assert(full.contains(w));
    }
}

/// The set of integers `0..n` has `n` elements.
proof fn lemma_range_set_len(n: nat)
    ensures
        Set::new(|x: int| 0 <= x < n).finite(),
        Set::new(|x: int| 0 <= x < n).len() == n,
    decreases n,
{
    let s = Set::new(|x: int| 0 <= x < n);
    if n == 0 {
        assert(s =~= Set::<int>::empty());
    } else {
        lemma_range_set_len((n - 1) as nat);
        let t = Set::new(|x: int| 0 <= x < n - 1);
        assert(s =~= t.insert(n - 1));
    }
}

/// A worker's share is handed out once: after a call succeeds, taking the same
/// worker's share of the same slot again fails with `AlreadyTaken` and leaves
/// the table as it is.
pub proof fn lemma_second_take_fails(v: Seq<SlotView>, peers: nat, index: int, allocated: int, kind: u64)
    requires
        sized_for(v, peers),
        0 <= index,
        0 <= allocated,
        claim_outcome(v, peers, index, allocated, kind) is Ok,
    ensures
        ({
            let after = claim_outcome(v, peers, index, allocated, kind)->Ok_0;
            &&& take_outcome(after, peers, allocated, index, kind) == Err::<Seq<SlotView>, AllocError>(AllocError::AlreadyTaken)
            &&& claim_outcome(after, peers, index, allocated, kind) == Err::<Seq<SlotView>, AllocError>(AllocError::AlreadyTaken)
        }),
{
    let after = claim_outcome(v, peers, index, allocated, kind)->Ok_0;
    if allocated == v.len() {
        assert(after[allocated] == created_by(kind, peers, index));
        assert(after[allocated].1[index]);
    } else {
        assert(v[allocated].1.len() == peers);
        assert(after[allocated].1[index]);
    }
}

/// Two successive calls of one worker, for two channel kinds, each get a slot
/// of their own: the first creates slot `a` for `k1`, the second slot `a + 1`
/// for `k2`, and the second leaves the first slot as the first call left it.
pub proof fn lemma_calls_get_own_slots(v: Seq<SlotView>, peers: nat, index: int, k1: u64, k2: u64)
    requires
        0 <= index < peers,
    ensures
        ({
            let a = v.len() as int;
            let first = claim_outcome(v, peers, index, a, k1);
            let second = claim_outcome(first->Ok_0, peers, index, a + 1, k2);
            &&& first is Ok
            &&& second is Ok
            &&& second->Ok_0.len() == a + 2
            &&& second->Ok_0[a] == first->Ok_0[a]
            &&& second->Ok_0[a] == created_by(k1, peers, index)
            &&& second->Ok_0[a + 1] == created_by(k2, peers, index)
            &&& second->Ok_0.subrange(0, a) == v
        }),
{
    let a = v.len() as int;
    let first = v.push(created_by(k1, peers, index));
    let second = first.push(created_by(k2, peers, index));
    assert(second.subrange(0, a) =~= v);
}

/// A worker's pushers include one to itself: the pusher for its own index
/// sends on the edge its puller receives from.
pub proof fn lemma_self_loop<T>(ps: Seq<Pusher<T>>, pl: Puller<T>, slot: int, w: int, peers: int)
    requires
        endpoints_at(ps, pl, slot, w, peers),
    ensures
        ps[w].edge() == pl.edge(),
{
}

} // verus!
