//! The channel table: one slot per allocation call, each holding a full mesh
//! of queues from which every worker takes its own endpoints exactly once.
use vstd::prelude::*;
use crate::endpoint::{fresh_queue, Edge, Puller, Pusher};

verus! {

/// The endpoints one worker receives for one slot: a pusher for every
/// destination, in destination order, and the puller of its own queue.
pub type Endpoints<T> = (Vec<Pusher<T>>, Puller<T>);

/// One worker's share of a slot: still waiting to be taken, or taken.
#[verifier::reject_recursive_types(T)]
pub enum Share<T> {
    Ready(Vec<Pusher<T>>, Puller<T>),
    Taken,
}

/// One slot of the table: the channel kind it was created for and the share
/// of each worker.
#[verifier::reject_recursive_types(T)]
pub struct Slot<T> {
    kind: u64,
    shares: Vec<Share<T>>,
}

/// Why an allocation could not hand out endpoints.
#[derive(Clone, Copy, PartialEq, Eq, Debug)]
pub enum AllocError {
    /// The worker index is not below the group's size.
    NotAPeer,
    /// The slot lies beyond the end of the table: the caller skipped a call.
    OutOfSequence,
    /// The slot was created for another channel kind: the workers disagree on
    /// the order of their calls.
    KindMismatch,
    /// The worker's share of the slot was already taken.
    AlreadyTaken,
}

/// The endpoints of worker `w` in slot `slot` of a group of `peers`: one
/// pusher per destination, in order, and the puller of `w`'s own queue.
pub open spec fn endpoints_at<T>(ps: Seq<Pusher<T>>, pl: Puller<T>, slot: int, w: int, peers: int) -> bool {
    &&& ps.len() == peers
    &&& forall|d: int|
        0 <= d < peers ==> (#[trigger] ps[d].edge()).slot == slot && ps[d].edge().dest == d
    &&& pl.edge().slot == slot
    &&& pl.edge().dest == w
    &&& 0 <= w < peers
}

/// What a slot looks like from outside: its kind, and for every worker
/// whether its share was taken.
pub type SlotView = (u64, Seq<bool>);

/// The view of a slot just created by worker `w` for channel kind `kind`:
/// only `w`'s share is taken.
pub open spec fn created_by(kind: u64, peers: nat, w: int) -> SlotView {
    (kind, Seq::new(peers, |i: int| i == w))
}

/// What taking worker `index`'s share of slot `slot`, made for channel kind
/// `kind`, does to a table of view `v` serving `peers` workers: the table
/// after it, or the error.
pub open spec fn take_outcome(v: Seq<SlotView>, peers: nat, slot: int, index: int, kind: u64) -> Result<Seq<SlotView>, AllocError> {
    if index >= peers {
        Err(AllocError::NotAPeer)
    } else if slot >= v.len() {
        Err(AllocError::OutOfSequence)
    } else if v[slot].0 != kind {
        Err(AllocError::KindMismatch)
    } else if v[slot].1[index] {
        Err(AllocError::AlreadyTaken)
    } else {
        Ok(v.update(slot, (kind, v[slot].1.update(index, true))))
    }
}

/// What the `allocated`-th allocation call of worker `index`, for channel
/// kind `kind`, does to a table of view `v` serving `peers` workers: the
/// first worker to reach a slot creates it, every worker takes its share.
pub open spec fn claim_outcome(v: Seq<SlotView>, peers: nat, index: int, allocated: int, kind: u64) -> Result<Seq<SlotView>, AllocError> {
    if index >= peers {
        Err(AllocError::NotAPeer)
    } else if allocated > v.len() {
        Err(AllocError::OutOfSequence)
    } else if allocated == v.len() {
        Ok(v.push(created_by(kind, peers, index)))
    } else {
        take_outcome(v, peers, allocated, index, kind)
    }
}

/// The table has view `after` when `outcome` is `Ok(after)`, and is unchanged
/// otherwise; `r` fails exactly when `outcome` does, with the same error.
pub open spec fn follows<T>(r: Result<Endpoints<T>, AllocError>, outcome: Result<Seq<SlotView>, AllocError>, before: Seq<SlotView>, after: Seq<SlotView>) -> bool {
    match outcome {
        Ok(v) => r is Ok && after == v,
        Err(e) => r == Err::<Endpoints<T>, AllocError>(e) && after == before,
    }
}

/// Every slot of `v` has one flag per worker of a group of `peers`.
pub open spec fn sized_for(v: Seq<SlotView>, peers: nat) -> bool {
    forall|s: int| 0 <= s < v.len() ==> (#[trigger] v[s]).1.len() == peers
}

spec fn share_wf<T>(s: Share<T>, slot: int, w: int, peers: int) -> bool {
    match s {
        Share::Ready(ps, pl) => endpoints_at(ps@, pl, slot, w, peers),
        Share::Taken => true,
    }
}

spec fn slot_wf<T>(s: Slot<T>, slot: int, peers: int) -> bool {
    &&& s.shares@.len() == peers
    &&& forall|w: int| 0 <= w < peers ==> share_wf(#[trigger] s.shares@[w], slot, w, peers)
}

spec fn slot_view<T>(s: Slot<T>) -> SlotView {
    (s.kind, Seq::new(s.shares@.len(), |w: int| s.shares@[w] is Taken))
}

/// The shared table of a group of workers.
#[verifier::reject_recursive_types(T)]
pub struct ChannelTable<T> {
    peers: usize,
    slots: Vec<Slot<T>>,
}

impl<T> View for ChannelTable<T> {
    type V = Seq<SlotView>;

    closed spec fn view(&self) -> Seq<SlotView> {
        Seq::new(self.slots@.len(), |i: int| slot_view(self.slots@[i]))
    }
}

/// A pusher for every destination `0..peers` of slot `slot`, each on the write
/// end of one fresh queue, with the matching pullers.
fn fresh_mesh<T>(peers: usize, slot: usize) -> (r: (Vec<Pusher<T>>, Vec<Puller<T>>))
    ensures
        r.0@.len() == peers,
        r.1@.len() == peers,
        forall|d: int|
            0 <= d < peers ==> (#[trigger] r.0@[d].edge()) == (Edge { slot, dest: d as usize }),
        forall|d: int|
            0 <= d < peers ==> (#[trigger] r.1@[d].edge()) == (Edge { slot, dest: d as usize }),
{
    let mut pushers: Vec<Pusher<T>> = Vec::new();
    let mut pullers: Vec<Puller<T>> = Vec::new();
    let mut d: usize = 0;
    while d < peers
        invariant
            d <= peers,
            pushers@.len() == d,
            pullers@.len() == d,
            forall|e: int| 0 <= e < d ==> (#[trigger] pushers@[e].edge()) == (Edge { slot, dest: e as usize }),
            forall|e: int| 0 <= e < d ==> (#[trigger] pullers@[e].edge()) == (Edge { slot, dest: e as usize }),
        decreases peers - d,
    {
        let (s, r) = fresh_queue();
        pushers.push(Pusher::new(s, Edge { slot, dest: d }));
        pullers.push(Puller::new(r, Edge { slot, dest: d }));
        d = d + 1;
    }
    (pushers, pullers)
}

/// A second handle on every pusher of `ps`, in the same order.
fn duplicate_all<T>(ps: &Vec<Pusher<T>>) -> (r: Vec<Pusher<T>>)
    ensures
        r@.len() == ps@.len(),
        forall|d: int| 0 <= d < ps@.len() ==> (#[trigger] r@[d].edge()) == ps@[d].edge(),
{
    let mut r: Vec<Pusher<T>> = Vec::new();
    let mut d: usize = 0;
    while d < ps.len()
        invariant
            d <= ps@.len(),
            r@.len() == d,
            forall|e: int| 0 <= e < d ==> (#[trigger] r@[e].edge()) == ps@[e].edge(),
        decreases ps@.len() - d,
    {
        r.push(ps[d].clone());
        d = d + 1;
    }
    r
}

impl<T> Slot<T> {
    /// A slot of kind `kind` at position `slot`, with a fresh mesh of `peers`
    /// queues: every worker's share is ready and holds a pusher to every
    /// worker, and its own puller.
    fn create(peers: usize, slot: usize, kind: u64) -> (s: Self)
        ensures
            slot_wf(s, slot as int, peers as int),
            slot_view(s) == (kind, Seq::new(peers as nat, |w: int| false)),
    {
        let (pushers, mut pullers) = fresh_mesh::<T>(peers, slot);
        let mut shares: Vec<Share<T>> = Vec::new();
        let mut w: usize = 0;
        while w < peers
            invariant
                w <= peers,
                shares@.len() == w,
                pullers@.len() == peers - w,
                pushers@.len() == peers,
                forall|d: int|
                    0 <= d < peers ==> (#[trigger] pushers@[d].edge()) == (Edge { slot, dest: d as usize }),
                forall|d: int|
                    0 <= d < peers - w ==> (#[trigger] pullers@[d].edge()) == (Edge { slot, dest: (d + w) as usize }),
                forall|v: int| 0 <= v < w ==> share_wf(#[trigger] shares@[v], slot as int, v, peers as int),
                forall|v: int| 0 <= v < w ==> (#[trigger] shares@[v]) is Ready,
            decreases peers - w,
        {
            let pl = pullers.remove(0);
            let ps = duplicate_all(&pushers);
            shares.push(Share::Ready(ps, pl));
            w = w + 1;
        }
        let s = Slot { kind, shares };
        assert(slot_view(s).1 =~= Seq::new(peers as nat, |w: int| false));
        s
    }
}

impl<T> ChannelTable<T> {
    /// Every slot has one share per worker, and every share not yet taken
    /// holds the endpoints of its worker at its slot.
    pub closed spec fn wf(&self) -> bool {
        forall|i: int| 0 <= i < self.slots@.len() ==> slot_wf(#[trigger] self.slots@[i], i, self.peers as int)
    }

    /// The size of the group the table serves.
    pub closed spec fn peer_count(&self) -> nat {
        self.peers as nat
    }

    /// An empty table for a group of `peers` workers.
    pub fn new(peers: usize) -> (t: Self)
        ensures
            t.wf(),
            t.peer_count() == peers,
            t@ == Seq::<SlotView>::empty(),
    {
        let t = ChannelTable { peers, slots: Vec::new() };
        assert(t@ =~= Seq::<SlotView>::empty());
        t
    }

    /// The number of slots created so far.
    pub fn len(&self) -> (n: usize)
        ensures
            n == self@.len(),
    {
        self.slots.len()
    }

    /// Takes worker `index`'s share of slot `slot`, created for channel kind
    /// `kind`. Succeeds exactly when `index` is a worker of the group, the
    /// slot exists, has that kind, and the share is still there; the share is
    /// then marked taken and nothing else changes. On every error the table
    /// is left as it was.
    pub fn take(&mut self, slot: usize, index: usize, kind: u64) -> (r: Result<Endpoints<T>, AllocError>)
        requires
            old(self).wf(),
        ensures
            final(self).wf(),
            final(self).peer_count() == old(self).peer_count(),
            sized_for(final(self)@, final(self).peer_count()),
            follows(r, take_outcome(old(self)@, old(self).peer_count(), slot as int, index as int, kind), old(self)@, final(self)@),
            r matches Ok((ps, pl)) ==> endpoints_at(ps@, pl, slot as int, index as int, old(self).peer_count() as int),
    {
        if index >= self.peers {
            return Err(AllocError::NotAPeer);
        }
        if slot >= self.slots.len() {
            return Err(AllocError::OutOfSequence);
        }
        if self.slots[slot].kind != kind {
            return Err(AllocError::KindMismatch);
        }
        assert(slot_wf(self.slots@[slot as int], slot as int, self.peers as int));
        let ghost before = *self;
        let mut share = Share::Taken;
        std::mem::swap(&mut share, &mut self.slots[slot].shares[index]);
        assert(self.wf());
        match share {
            Share::Ready(ps, pl) => {
                assert(slot_view(self.slots@[slot as int]).1 =~= before@[slot as int].1.update(index as int, true));
                assert(self@ =~= before@.update(slot as int, (kind, before@[slot as int].1.update(index as int, true))));
                Ok((ps, pl))
            },
            Share::Taken => {
                // The share was already gone: a taken share went in for it.
                assert(self.slots@[slot as int].shares@ =~= before.slots@[slot as int].shares@);
                assert(self@ =~= before@);
                Err(AllocError::AlreadyTaken)
            },
        }
    }

    /// One allocation call of worker `index`, its `allocated`-th, for channel
    /// kind `kind`. When `allocated` is the table's length the worker is the
    /// first to reach this slot and creates it with a fresh mesh; then, or
    /// when the slot already exists, the worker takes its share as `take`
    /// does. A slot further on than the table's end is `OutOfSequence`.
    pub fn claim(&mut self, index: usize, allocated: usize, kind: u64) -> (r: Result<Endpoints<T>, AllocError>)
        requires
            old(self).wf(),
        ensures
            final(self).wf(),
            final(self).peer_count() == old(self).peer_count(),
            sized_for(final(self)@, final(self).peer_count()),
            follows(
                r,
                claim_outcome(old(self)@, old(self).peer_count(), index as int, allocated as int, kind),
                old(self)@,
                final(self)@,
            ),
            r matches Ok((ps, pl)) ==> endpoints_at(ps@, pl, allocated as int, index as int, old(self).peer_count() as int),
    {
        if index >= self.peers {
            return Err(AllocError::NotAPeer);
        }
        if allocated == self.slots.len() {
            let ghost before = self@;
            let slot = Slot::create(self.peers, allocated, kind);
            self.slots.push(slot);
            assert(self@ =~= before.push((kind, Seq::new(self.peers as nat, |w: int| false))));
            let r = self.take(allocated, index, kind);
            assert(Seq::new(self.peers as nat, |w: int| false).update(index as int, true)
                =~= created_by(kind, self.peers as nat, index as int).1);
            assert(self@ =~= before.push(created_by(kind, self.peers as nat, index as int)));
            r
        } else {
            self.take(allocated, index, kind)
        }
    }
}

} // verus!
