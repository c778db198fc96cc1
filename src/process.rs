//! The per-worker allocator: a handle on the group's shared channel table.
use vstd::prelude::*;
use vstd::rwlock::{RwLock, RwLockPredicate};
use std::sync::Arc;
use crate::endpoint::{Puller, Pusher};
use crate::table::{endpoints_at, AllocError, ChannelTable};

verus! {

/// Relies on Arc::clone: a second handle on the same shared value.
#[verifier::external_body]
fn share<V>(a: &Arc<V>) -> (r: Arc<V>)
    ensures
        r == *a,
{
    Arc::clone(a)
}

/// What the shared lock holds: a well-formed table for a group of `peers`.
pub struct TableInv {
    pub peers: nat,
}

impl<T> RwLockPredicate<ChannelTable<T>> for TableInv {
    open spec fn inv(self, t: ChannelTable<T>) -> bool {
        t.wf() && t.peer_count() == self.peers
    }
}

/// The worker-local allocator that a `Process` wraps and lends out.
pub struct Thread;

/// A worker's place in its group: its ordinal, the group's size, and the
/// lock on the group's table, which only ever holds a well-formed table sized
/// for that group.
#[verifier::reject_recursive_types(T)]
struct Membership<T> {
    index: usize,
    peers: usize,
    channels: Arc<RwLock<ChannelTable<T>, TableInv>>,
}

impl<T> Membership<T> {
    #[verifier::type_invariant]
    spec fn group_wf(&self) -> bool {
        &&& self.index < self.peers
        &&& self.channels.pred() == TableInv { peers: self.peers as nat }
    }
}

/// An allocator for typed channels between the workers of one process.
#[verifier::reject_recursive_types(T)]
pub struct Process<T> {
    inner: Thread,
    allocated: usize,
    member: Membership<T>,
}

impl<T> Process<T> {
    /// This worker's ordinal in its group.
    pub closed spec fn index_spec(&self) -> nat {
        self.member.index as nat
    }

    /// The number of workers in the group.
    pub closed spec fn peers_spec(&self) -> nat {
        self.member.peers as nat
    }

    /// How many allocation calls of this worker have succeeded.
    pub closed spec fn allocated_spec(&self) -> nat {
        self.allocated as nat
    }

    /// Whether two allocators hold the same shared table.
    pub closed spec fn shares_table_with(&self, other: &Self) -> bool {
        *self.member.channels == *other.member.channels
    }

    /// `count` allocators, with indices `0..count`, all on one fresh, empty
    /// table.
    pub fn new_vector(count: usize) -> (r: Vec<Process<T>>)
        ensures
            r@.len() == count,
            forall|i: int|
                0 <= i < count ==> {
                    &&& (#[trigger] r@[i]).index_spec() == i
                    &&& r@[i].peers_spec() == count
                    &&& r@[i].allocated_spec() == 0
                },
            forall|i: int, j: int|
                0 <= i < count && 0 <= j < count ==> #[trigger] r@[i].shares_table_with(&r@[j]),
    {
        let channels = Arc::new(
            RwLock::new(ChannelTable::new(count), Ghost(TableInv { peers: count as nat })),
        );
        let mut r: Vec<Process<T>> = Vec::new();
        let mut index: usize = 0;
        while index < count
            invariant
                index <= count,
                r@.len() == index,
                channels.pred() == (TableInv { peers: count as nat }),
                forall|i: int|
                    0 <= i < index ==> {
                        &&& (#[trigger] r@[i]).index_spec() == i
                        &&& r@[i].peers_spec() == count
                        &&& r@[i].allocated_spec() == 0
                        &&& *r@[i].member.channels == *channels
                    },
            decreases count - index,
        {
            let member = Membership { index, peers: count, channels: share(&channels) };
            r.push(Process { inner: Thread, allocated: 0, member });
            index = index + 1;
        }
        r
    }

    /// Access the wrapped worker-local allocator.
    pub fn inner(&mut self) -> (r: &mut Thread)
        ensures
            final(self).index_spec() == old(self).index_spec(),
            final(self).peers_spec() == old(self).peers_spec(),
            final(self).allocated_spec() == old(self).allocated_spec(),
            final(self).shares_table_with(old(self)),
    {
        &mut self.inner
    }

    /// This worker's ordinal in its group.
    pub fn index(&self) -> (r: usize)
        ensures
            r == self.index_spec(),
    {
        self.member.index
    }

    /// The number of workers in the group.
    pub fn peers(&self) -> (r: usize)
        ensures
            r == self.peers_spec(),
    {
        self.member.peers
    }

    /// How many allocation calls of this worker have succeeded.
    pub fn allocated(&self) -> (r: usize)
        ensures
            r == self.allocated_spec(),
    {
        self.allocated
    }

    /// This worker's next allocation call, for channel kind `kind`: under the
    /// table's lock, the slot numbered by the calls this worker has made is
    /// created if no worker has reached it yet, and this worker's share of it
    /// is taken. On success the worker gets a pusher to every worker of the
    /// group and the puller of its own queue, and its count of calls goes up
    /// by one; on an error nothing of this allocator changes. The third part
    /// of the result, a hint at a serialization format, is always `None`: the
    /// values never leave the process.
    pub fn allocate(&mut self, kind: u64) -> (r: Result<(Vec<Pusher<T>>, Puller<T>, Option<usize>), AllocError>)
        ensures
            final(self).index_spec() == old(self).index_spec(),
            final(self).peers_spec() == old(self).peers_spec(),
            final(self).shares_table_with(old(self)),
            r is Ok ==> final(self).allocated_spec() == old(self).allocated_spec() + 1,
            r is Err ==> final(self).allocated_spec() == old(self).allocated_spec(),
            r != Err::<(Vec<Pusher<T>>, Puller<T>, Option<usize>), AllocError>(AllocError::NotAPeer),
            r matches Ok((_, _, hint)) ==> hint is None,
            r matches Ok((ps, pl, _)) ==> endpoints_at(
                ps@,
                pl,
                old(self).allocated_spec() as int,
                old(self).index_spec() as int,
                old(self).peers_spec() as int,
            ),
    {
        proof {
            use_type_invariant(&self.member);
        }
        let (mut table, handle) = self.member.channels.acquire_write();
        let r = table.claim(self.member.index, self.allocated, kind);
        let n = table.len();
        handle.release_write(table);
        match r {
            Ok((ps, pl)) => {
                assert(self.allocated < n);
                self.allocated = self.allocated + 1;
                Ok((ps, pl, None))
            },
            Err(e) => Err(e),
        }
    }
}

} // verus!
