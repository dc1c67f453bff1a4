//! The stream-slot table: a fixed pool of per-stream-id state machines that
//! admits callers, routes responses back to them, honors abandonment, and
//! enforces backpressure through a counting-semaphore model.
//!
//! Each operation is a pure transition on the table; the asynchronous shell
//! around the library supplies the actual semaphore, locks and wakers and
//! calls in here for every decision.

use vstd::prelude::*;
use vstd::pervasive::VecAdditionalExecFns;
use vstd::seq_lib::*;
use vstd::set_lib::*;
use crate::response::Response;

verus! {

/// How many stream ids the table manages: the non-negative half of the
/// signed 16-bit stream id space.
pub const TOTAL_STREAMS: usize = 32768;

/// The life cycle of one stream slot. Every state but `Free` holds one
/// admission permit of the free-slot semaphore.
pub enum StreamState {
    /// Not assigned; the id sits in the free pool.
    Free,
    /// Assigned to a caller; the request frame is not yet written.
    Registered,
    /// The request frame is on the wire; a response is awaited.
    Sent,
    /// The caller abandoned the query after the frame was sent; the slot
    /// stays occupied until the response arrives.
    SentButAbandoned,
    /// The response arrived and waits for the caller to consume it.
    Responded(Response),
    /// The caller consumed the response; the slot waits to be recycled.
    Finished,
}

/// A connection-wide fault, stored once and reported to every caller.
#[derive(Clone, Copy, Debug, PartialEq, Eq, Structural)]
pub enum ConnectionFault {
    /// The socket failed, or an inbound frame was malformed.
    IoError,
    /// The connection was shut down.
    Closed,
}

/// What the reader task must do after a response was routed.
#[derive(Clone, Copy, Debug, PartialEq, Eq, Structural)]
pub enum RouteAction {
    /// A caller waits on this slot: wake it.
    Wake,
    /// The slot was abandoned and has been recycled; wake nobody.
    Freed,
    /// The response matched no outstanding query: report it through the
    /// diagnostic hook and carry on.
    Violation,
}

/// A caller-facing token referencing one slot. The shell keeps at most one
/// live handle per occupied slot.
#[derive(Debug, PartialEq, Eq)]
pub struct StreamHandle {
    pub id: crate::types::StreamId,
}

/// The stream table: one state per slot, the pool of free ids, and the
/// permit count of the free-slot semaphore. `fault` is set once the
/// connection has failed.
pub struct StreamsManager {
    pub streams: Vec<StreamState>,
    pub free_streams: Vec<crate::types::StreamId>,
    pub free_permits: usize,
    pub fault: Option<ConnectionFault>,
}

impl StreamsManager {
    /// Well-formedness: the table has exactly [`TOTAL_STREAMS`] slots, the
    /// free pool lists exactly the `Free` slots, each once, and the
    /// semaphore's permits equal the size of the free pool.
    pub open spec fn wf(self) -> bool {
        &&& self.streams@.len() == TOTAL_STREAMS
        &&& self.free_streams@.no_duplicates()
        &&& (forall|j: int|
            0 <= j < self.free_streams@.len() ==> 0 <= #[trigger] self.free_streams@[j]
                < TOTAL_STREAMS && self.streams@[self.free_streams@[j] as int] is Free)
        &&& (forall|id: int|
            0 <= id < TOTAL_STREAMS && (#[trigger] self.streams@[id]) is Free
                ==> self.free_streams@.contains(id as crate::types::StreamId))
        &&& self.free_permits == self.free_streams@.len()
    }

    /// The ids of slots currently `Free`.
    pub open spec fn free_ids(self) -> Set<int> {
        Set::new(|id: int| 0 <= id < TOTAL_STREAMS && self.streams@[id] is Free)
    }

    /// The ids of slots currently occupied.
    pub open spec fn occupied_ids(self) -> Set<int> {
        Set::new(|id: int| 0 <= id < TOTAL_STREAMS && !(self.streams@[id] is Free))
    }

    /// The free pool seen as mathematical integers.
    pub open spec fn free_seq_as_ints(self) -> Seq<int> {
        self.free_streams@.map_values(|x: crate::types::StreamId| x as int)
    }
}

/// In a well-formed table the free pool is an exact enumeration of the
/// `Free` slots: same elements, no repetition, same cardinality.
proof fn lemma_free_pool_enumerates_free_slots(m: StreamsManager)
    requires
        m.wf(),
    ensures
        m.free_ids().finite(),
        m.free_ids().len() == m.free_streams@.len(),
{
    broadcast use vstd::seq_lib::seq_to_set_is_finite;

    let s = m.free_seq_as_ints();
    assert forall|i: int, j: int| 0 <= i < j < s.len() implies s[i] != s[j] by {
        assert(m.free_streams@[i] != m.free_streams@[j]);
    }
    assert(s.no_duplicates());
    s.unique_seq_to_set();
    assert forall|x: int| s.to_set().contains(x) implies m.free_ids().contains(x) by {
        let j = choose|j: int| 0 <= j < s.len() && s[j] == x;
        assert(m.free_streams@[j] as int == x);
    }
    assert forall|x: int| m.free_ids().contains(x) implies s.to_set().contains(x) by {
        assert(m.free_streams@.contains(x as crate::types::StreamId));
        let j = choose|j: int|
            0 <= j < m.free_streams@.len() && m.free_streams@[j] == x as crate::types::StreamId;
        assert(s[j] == x);
        assert(s.contains(x));
    }
    assert(s.to_set() =~= m.free_ids());
}

/// The slot accounting law: free plus occupied slots exhaust the table,
/// and the semaphore's available permits equal the number of free slots.
pub proof fn lemma_slot_accounting(m: StreamsManager)
    requires
        m.wf(),
    ensures
        m.free_ids().len() + m.occupied_ids().len() == TOTAL_STREAMS,
        m.free_permits == m.free_ids().len(),
{
    lemma_free_pool_enumerates_free_slots(m);
    let fr = m.free_ids();
    let oc = m.occupied_ids();
    let all = set_int_range(0, TOTAL_STREAMS as int);
    lemma_int_range(0, TOTAL_STREAMS as int);
    assert(oc.subset_of(all));
    lemma_len_subset(oc, all);
    assert(fr.disjoint(oc));
    lemma_set_disjoint_lens(fr, oc);
    assert(fr + oc =~= all);
}

/// In a well-formed table the free pool never exceeds the table, and is
/// strictly smaller whenever some slot is occupied.
proof fn lemma_free_pool_len_bound(m: StreamsManager, occupied: int)
    requires
        m.wf(),
        0 <= occupied < TOTAL_STREAMS,
        !(m.streams@[occupied] is Free),
    ensures
        m.free_streams@.len() < TOTAL_STREAMS,
{
    lemma_free_pool_enumerates_free_slots(m);
    let fr = m.free_ids();
    let all = set_int_range(0, TOTAL_STREAMS as int);
    lemma_int_range(0, TOTAL_STREAMS as int);
    assert(fr.subset_of(all.remove(occupied)));
    assert(all.contains(occupied));
    assert(all.remove(occupied).len() == all.len() - 1);
    lemma_len_subset(fr, all.remove(occupied));
}

/// The table change made by a successful registration: the last pooled id
/// leaves the free pool and its slot becomes `Registered`, consuming one
/// permit.
pub open spec fn register_transition(
    pre: StreamsManager,
    post: StreamsManager,
    h: StreamHandle,
) -> bool {
    &&& 0 <= h.id < TOTAL_STREAMS
    &&& pre.streams@[h.id as int] is Free
    &&& pre.free_streams@.len() > 0
    &&& h.id == pre.free_streams@.last()
    &&& post.streams@ == pre.streams@.update(h.id as int, StreamState::Registered)
    &&& post.free_streams@ == pre.free_streams@.drop_last()
    &&& post.free_permits == pre.free_permits - 1
    &&& post.fault == pre.fault
}

/// The table change made by marking a request sent.
pub open spec fn send_transition(pre: StreamsManager, post: StreamsManager, id: int) -> bool {
    &&& 0 <= id < TOTAL_STREAMS
    &&& pre.streams@[id] is Registered
    &&& post.streams@ == pre.streams@.update(id, StreamState::Sent)
    &&& post.free_streams@ == pre.free_streams@
    &&& post.free_permits == pre.free_permits
    &&& post.fault == pre.fault
}

/// The table change made by consuming a delivered response.
pub open spec fn consume_transition(pre: StreamsManager, post: StreamsManager, id: int) -> bool {
    &&& 0 <= id < TOTAL_STREAMS
    &&& pre.streams@[id] is Responded
    &&& post.streams@ == pre.streams@.update(id, StreamState::Finished)
    &&& post.free_streams@ == pre.free_streams@
    &&& post.free_permits == pre.free_permits
    &&& post.fault == pre.fault
}

/// The table change made by dropping a handle: a slot whose response was
/// never sent, or already consumed, or still unread, is recycled and its
/// permit released; a slot whose request is on the wire is kept occupied
/// as `SentButAbandoned`.
pub open spec fn release_transition(pre: StreamsManager, post: StreamsManager, id: int) -> bool {
    &&& 0 <= id < TOTAL_STREAMS
    &&& if pre.streams@[id] is Registered || pre.streams@[id] is Responded || pre.streams@[id]
        is Finished {
        &&& post.streams@ == pre.streams@.update(id, StreamState::Free)
        &&& post.free_streams@ == pre.free_streams@.push(id as crate::types::StreamId)
        &&& post.free_permits == pre.free_permits + 1
        &&& post.fault == pre.fault
    } else if pre.streams@[id] is Sent {
        &&& post.streams@ == pre.streams@.update(id, StreamState::SentButAbandoned)
        &&& post.free_streams@ == pre.free_streams@
        &&& post.free_permits == pre.free_permits
        &&& post.fault == pre.fault
    } else {
        false
    }
}

/// The table change made by routing one received response to the slot its
/// stream id names.
pub open spec fn response_transition(
    pre: StreamsManager,
    post: StreamsManager,
    id: int,
    response: Response,
    action: RouteAction,
) -> bool {
    if 0 <= id < TOTAL_STREAMS && pre.streams@[id] is Sent {
        &&& action == RouteAction::Wake
        &&& post.streams@ == pre.streams@.update(id, StreamState::Responded(response))
        &&& post.free_streams@ == pre.free_streams@
        &&& post.free_permits == pre.free_permits
        &&& post.fault == pre.fault
    } else if 0 <= id < TOTAL_STREAMS && pre.streams@[id] is SentButAbandoned {
        &&& action == RouteAction::Freed
        &&& post.streams@ == pre.streams@.update(id, StreamState::Free)
        &&& post.free_streams@ == pre.free_streams@.push(id as crate::types::StreamId)
        &&& post.free_permits == pre.free_permits + 1
        &&& post.fault == pre.fault
    } else {
        &&& action == RouteAction::Violation
        &&& post == pre
    }
}

/// The table change made by recording a connection-wide fault.
pub open spec fn fault_transition(
    pre: StreamsManager,
    post: StreamsManager,
    fault: ConnectionFault,
) -> bool {
    &&& post.streams@ == pre.streams@
    &&& post.free_streams@ == pre.free_streams@
    &&& post.free_permits == pre.free_permits
    &&& post.fault == Some(fault)
}

impl StreamsManager {
    /// Builds the table: every slot `Free`, every id pooled, all permits
    /// available, no fault.
    pub fn new() -> (r: StreamsManager)
        ensures
            r.wf(),
            r.streams@.len() == TOTAL_STREAMS,
            forall|id: int| 0 <= id < TOTAL_STREAMS ==> (#[trigger] r.streams@[id]) is Free,
            r.free_streams@.len() == TOTAL_STREAMS,
            forall|j: int|
                0 <= j < TOTAL_STREAMS ==> #[trigger] r.free_streams@[j] == j as crate::types::StreamId,
            r.free_permits == TOTAL_STREAMS,
            r.fault is None,
    {
        let mut streams: Vec<StreamState> = Vec::new();
        let mut free_streams: Vec<crate::types::StreamId> = Vec::new();
        let mut i: usize = 0;
        while i < TOTAL_STREAMS
            invariant
                i <= TOTAL_STREAMS,
                streams@.len() == i,
                free_streams@.len() == i,
                forall|id: int| 0 <= id < i ==> (#[trigger] streams@[id]) is Free,
                forall|j: int|
                    0 <= j < i ==> #[trigger] free_streams@[j] == j as crate::types::StreamId,
            decreases TOTAL_STREAMS - i,
        {
            streams.push(StreamState::Free);
            free_streams.push(i as crate::types::StreamId);
            i += 1;
        }
        let r = StreamsManager { streams, free_streams, free_permits: TOTAL_STREAMS, fault: None };
        proof {
            assert forall|id: int|
                0 <= id < TOTAL_STREAMS && (#[trigger] r.streams@[id]) is Free implies r
                .free_streams@.contains(id as crate::types::StreamId) by {
                assert(r.free_streams@[id] == id as crate::types::StreamId);
            }
        }
        r
    }

    /// Admits one caller. Fails fast with the stored fault once the
    /// connection has failed; reports exhaustion (`Ok(None)`) while no
    /// permit is available, which is when the shell must suspend the
    /// caller; otherwise pops a free slot, marks it `Registered`, and hands
    /// out its handle.
    pub fn register_stream(&mut self) -> (r: Result<Option<StreamHandle>, ConnectionFault>)
        requires
            old(self).wf(),
        ensures
            final(self).wf(),
            match r {
                Err(f) => old(self).fault == Some(f) && *final(self) == *old(self),
                Ok(ro) => match ro {
                    None => old(self).fault is None && old(self).free_permits == 0 && *final(self)
                        == *old(self),
                    Some(h) => old(self).fault is None && old(self).free_permits > 0
                        && register_transition(*old(self), *final(self), h),
                },
            },
    {
        if let Some(f) = self.fault {
            return Err(f);
        }
        if self.free_permits == 0 {
            return Ok(None);
        }
        let id = match self.free_streams.pop() {
            Some(id) => id,
            None => {
                proof {
                    assert(false);
                }
                return Ok(None);
            },
        };
        proof {
            assert(old(self).free_streams@[old(self).free_streams@.len() - 1] == id);
            assert(0 <= id < TOTAL_STREAMS);
            assert(self.streams@[id as int] is Free);
        }
        self.streams.set(id as usize, StreamState::Registered);
        self.free_permits = self.free_permits - 1;
        let h = StreamHandle { id };
        proof {
            assert(self.free_streams@ =~= old(self).free_streams@.drop_last());
            lemma_wf_after_pop(*old(self), *self, id as int);
        }
        Ok(Some(h))
    }

    /// Routes one received response to the slot its stream id names. A
    /// `Sent` slot stores the response and asks the shell to wake its
    /// caller; an abandoned slot is recycled, discarding the response;
    /// any other id is a protocol violation, reported but harmless.
    pub fn on_response_received(&mut self, response: Response, stream_id: crate::types::StreamId) -> (r:
        RouteAction)
        requires
            old(self).wf(),
        ensures
            final(self).wf(),
            response_transition(*old(self), *final(self), stream_id as int, response, r),
    {
        if stream_id < 0 {
            return RouteAction::Violation;
        }
        let idx = stream_id as usize;
        let is_sent = match &self.streams[idx] {
            StreamState::Sent => true,
            _ => false,
        };
        let is_abandoned = match &self.streams[idx] {
            StreamState::SentButAbandoned => true,
            _ => false,
        };
        if is_sent {
            self.streams.set(idx, StreamState::Responded(response));
            proof {
                lemma_wf_after_occupied_update(*old(self), *self, idx as int);
            }
            RouteAction::Wake
        } else if is_abandoned {
            proof {
                lemma_free_pool_len_bound(*self, idx as int);
            }
            self.streams.set(idx, StreamState::Free);
            self.free_streams.push(stream_id);
            self.free_permits = self.free_permits + 1;
            proof {
                lemma_wf_after_recycle(*old(self), *self, idx as int);
            }
            RouteAction::Freed
        } else {
            RouteAction::Violation
        }
    }

    /// Records a connection-wide fault. Slot states are kept; every later
    /// poll or registration reports the fault instead, and the shell wakes
    /// all waiting callers.
    pub fn on_receive_error(&mut self, fault: ConnectionFault)
        requires
            old(self).wf(),
        ensures
            final(self).wf(),
            fault_transition(*old(self), *final(self), fault),
    {
        self.fault = Some(fault);
    }
}

/// Registering the last pooled id — removing it from the pool and marking
/// its slot `Registered` — keeps the table well-formed.
proof fn lemma_wf_after_pop(pre: StreamsManager, post: StreamsManager, id: int)
    requires
        pre.wf(),
        pre.free_streams@.len() > 0,
        id == pre.free_streams@.last() as int,
        post.streams@ == pre.streams@.update(id, StreamState::Registered),
        post.free_streams@ == pre.free_streams@.drop_last(),
        post.free_permits == pre.free_permits - 1,
    ensures
        post.wf(),
{
    assert(0 <= id < TOTAL_STREAMS);
    assert forall|j: int|
        0 <= j < post.free_streams@.len() implies 0 <= #[trigger] post.free_streams@[j]
        < TOTAL_STREAMS && post.streams@[post.free_streams@[j] as int] is Free by {
        assert(pre.free_streams@[j] == post.free_streams@[j]);
        assert(pre.free_streams@[j] as int != id);
    }
    assert forall|sid: int|
        0 <= sid < TOTAL_STREAMS && (#[trigger] post.streams@[sid]) is Free implies post
        .free_streams@.contains(sid as crate::types::StreamId) by {
        assert(sid != id);
        assert(pre.streams@[sid] is Free);
        assert(pre.free_streams@.contains(sid as crate::types::StreamId));
        let j = choose|j: int|
            0 <= j < pre.free_streams@.len() && pre.free_streams@[j]
                == sid as crate::types::StreamId;
        assert(j != pre.free_streams@.len() - 1);
        assert(post.free_streams@[j] == sid as crate::types::StreamId);
    }
}

/// Replacing an occupied slot's state by another occupied state keeps the
/// table well-formed.
proof fn lemma_wf_after_occupied_update(pre: StreamsManager, post: StreamsManager, id: int)
    requires
        pre.wf(),
        0 <= id < TOTAL_STREAMS,
        !(pre.streams@[id] is Free),
        !(post.streams@[id] is Free),
        post.streams@ == pre.streams@.update(id, post.streams@[id]),
        post.free_streams@ == pre.free_streams@,
        post.free_permits == pre.free_permits,
    ensures
        post.wf(),
{
    assert forall|j: int|
        0 <= j < post.free_streams@.len() implies 0 <= #[trigger] post.free_streams@[j]
        < TOTAL_STREAMS && post.streams@[post.free_streams@[j] as int] is Free by {
        assert(pre.streams@[pre.free_streams@[j] as int] is Free);
        assert(pre.free_streams@[j] as int != id);
    }
    assert forall|sid: int|
        0 <= sid < TOTAL_STREAMS && (#[trigger] post.streams@[sid]) is Free implies post
        .free_streams@.contains(sid as crate::types::StreamId) by {
        assert(sid != id);
        assert(pre.streams@[sid] is Free);
    }
}

/// Recycling an occupied slot — marking it `Free` and appending its id to
/// the free pool — keeps the table well-formed.
proof fn lemma_wf_after_recycle(pre: StreamsManager, post: StreamsManager, id: int)
    requires
        pre.wf(),
        0 <= id < TOTAL_STREAMS,
        !(pre.streams@[id] is Free),
        post.streams@ == pre.streams@.update(id, StreamState::Free),
        post.free_streams@ == pre.free_streams@.push(id as crate::types::StreamId),
        post.free_permits == pre.free_permits + 1,
    ensures
        post.wf(),
{
    let n = pre.free_streams@.len() as int;
    assert(forall|j: int| 0 <= j < n ==> post.free_streams@[j] == pre.free_streams@[j]);
    assert(post.free_streams@[n] == id as crate::types::StreamId);
    assert forall|i: int, j: int|
        0 <= i < j < post.free_streams@.len() implies post.free_streams@[i] != post.free_streams@[j] by {
        if j < n {
        } else {
            assert(j == n);
            assert(pre.streams@[pre.free_streams@[i] as int] is Free);
            assert(pre.free_streams@[i] as int != id);
        }
    }
    assert(post.free_streams@.no_duplicates());
    assert forall|j: int|
        0 <= j < post.free_streams@.len() implies 0 <= #[trigger] post.free_streams@[j]
        < TOTAL_STREAMS && post.streams@[post.free_streams@[j] as int] is Free by {
        if j < n {
            assert(pre.streams@[pre.free_streams@[j] as int] is Free);
        }
    }
    assert forall|sid: int|
        0 <= sid < TOTAL_STREAMS && (#[trigger] post.streams@[sid]) is Free implies post
        .free_streams@.contains(sid as crate::types::StreamId) by {
        if sid == id {
            assert(post.free_streams@[n] == sid as crate::types::StreamId);
        } else {
            assert(pre.streams@[sid] is Free);
            assert(pre.free_streams@.contains(sid as crate::types::StreamId));
            let j = choose|j: int|
                0 <= j < pre.free_streams@.len() && pre.free_streams@[j]
                    == sid as crate::types::StreamId;
            assert(post.free_streams@[j] == sid as crate::types::StreamId);
        }
    }
}

impl StreamHandle {
    /// The stream id this handle owns.
    pub fn get_stream_id(&self) -> (r: crate::types::StreamId)
        ensures
            r == self.id,
    {
        self.id
    }

    /// Marks the handle's slot `Sent`: its request frame is now on the
    /// wire.
    pub fn mark_request_sent(&self, manager: &mut StreamsManager)
        requires
            old(manager).wf(),
            0 <= self.id < TOTAL_STREAMS,
            old(manager).streams@[self.id as int] is Registered,
        ensures
            final(manager).wf(),
            send_transition(*old(manager), *final(manager), self.id as int),
    {
        manager.streams.set(self.id as usize, StreamState::Sent);
        proof {
            lemma_wf_after_occupied_update(*old(manager), *manager, self.id as int);
        }
    }

    /// One poll of the handle's pending response. Reports the stored fault
    /// once the connection has failed; hands the response out and marks the
    /// slot `Finished` when it has arrived; otherwise asks the shell to
    /// park the caller (`Ok(None)`).
    pub fn poll_response(&self, manager: &mut StreamsManager) -> (r: Result<
        Option<Response>,
        ConnectionFault,
    >)
        requires
            old(manager).wf(),
            0 <= self.id < TOTAL_STREAMS,
            old(manager).streams@[self.id as int] is Registered || old(manager).streams@[self.id
                as int] is Sent || old(manager).streams@[self.id as int] is Responded,
        ensures
            final(manager).wf(),
            match r {
                Err(f) => old(manager).fault == Some(f) && *final(manager) == *old(manager),
                Ok(ro) => old(manager).fault is None && match ro {
                    Some(response) => old(manager).streams@[self.id as int]
                        == StreamState::Responded(response) && consume_transition(
                        *old(manager),
                        *final(manager),
                        self.id as int,
                    ),
                    None => !(old(manager).streams@[self.id as int] is Responded) && *final(manager)
                        == *old(manager),
                },
            },
    {
        if let Some(f) = manager.fault {
            return Err(f);
        }
        let idx = self.id as usize;
        let is_responded = match &manager.streams[idx] {
            StreamState::Responded(_) => true,
            _ => false,
        };
        if is_responded {
            let mut taken = StreamState::Finished;
            manager.streams.set_and_swap(idx, &mut taken);
            proof {
                lemma_wf_after_occupied_update(*old(manager), *manager, idx as int);
            }
            match taken {
                StreamState::Responded(response) => Ok(Some(response)),
                _ => {
                    proof {
                        assert(false);
                    }
                    Ok(None)
                },
            }
        } else {
            Ok(None)
        }
    }

    /// The drop path of a handle: recycles the slot, or leaves it
    /// occupied as `SentButAbandoned` when its request is already on the
    /// wire and the response must still be absorbed.
    pub fn release(self, manager: &mut StreamsManager)
        requires
            old(manager).wf(),
            0 <= self.id < TOTAL_STREAMS,
            !(old(manager).streams@[self.id as int] is Free),
            !(old(manager).streams@[self.id as int] is SentButAbandoned),
        ensures
            final(manager).wf(),
            release_transition(*old(manager), *final(manager), self.id as int),
    {
        let idx = self.id as usize;
        let is_sent = match &manager.streams[idx] {
            StreamState::Sent => true,
            _ => false,
        };
        if is_sent {
            manager.streams.set(idx, StreamState::SentButAbandoned);
            proof {
                lemma_wf_after_occupied_update(*old(manager), *manager, idx as int);
            }
        } else {
            proof {
                lemma_free_pool_len_bound(*manager, idx as int);
            }
            manager.streams.set(idx, StreamState::Free);
            manager.free_streams.push(self.id);
            manager.free_permits = manager.free_permits + 1;
            proof {
                lemma_wf_after_recycle(*old(manager), *manager, idx as int);
            }
        }
    }
}

/// Abandoning a query whose request is on the wire and then delivering its
/// response recycles the slot: it returns to `Free`, exactly one permit is
/// released, and no caller is woken.
pub proof fn lemma_abandoned_response_frees_slot(
    pre: StreamsManager,
    mid: StreamsManager,
    post: StreamsManager,
    id: int,
    response: Response,
    action: RouteAction,
)
    requires
        pre.wf(),
        0 <= id < TOTAL_STREAMS,
        pre.streams@[id] is Sent,
        release_transition(pre, mid, id),
        response_transition(mid, post, id, response, action),
    ensures
        post.streams@[id] is Free,
        post.free_permits == pre.free_permits + 1,
        action == RouteAction::Freed,
{
}

/// Any single step of the table: a registration, a send, a response
/// routing, a consumption, a handle drop, a fault, or a step that changed
/// nothing (a refused registration, a pending poll).
pub open spec fn table_step(pre: StreamsManager, post: StreamsManager) -> bool {
    ||| post == pre
    ||| exists|h: StreamHandle| register_transition(pre, post, h)
    ||| exists|id: int| send_transition(pre, post, id)
    ||| exists|id: int| consume_transition(pre, post, id)
    ||| exists|id: int| release_transition(pre, post, id)
    ||| exists|id: int, response: Response, action: RouteAction|
        response_transition(pre, post, id, response, action)
    ||| exists|fault: ConnectionFault| fault_transition(pre, post, fault)
}

/// Every single table step keeps the table well-formed, so the slot
/// accounting of [`lemma_slot_accounting`] holds after any interleaving of
/// registrations, sends, drops, responses and faults.
pub proof fn lemma_step_preserves_wf(pre: StreamsManager, post: StreamsManager)
    requires
        pre.wf(),
        table_step(pre, post),
    ensures
        post.wf(),
{
    if post == pre {
    } else if exists|h: StreamHandle| register_transition(pre, post, h) {
        let h = choose|h: StreamHandle| register_transition(pre, post, h);
        assert(pre.free_streams@[pre.free_streams@.len() - 1] == pre.free_streams@.last());
        lemma_wf_after_pop(pre, post, h.id as int);
    } else if exists|id: int| send_transition(pre, post, id) {
        let id = choose|id: int| send_transition(pre, post, id);
        lemma_wf_after_occupied_update(pre, post, id);
    } else if exists|id: int| consume_transition(pre, post, id) {
        let id = choose|id: int| consume_transition(pre, post, id);
        lemma_wf_after_occupied_update(pre, post, id);
    } else if exists|id: int| release_transition(pre, post, id) {
        let id = choose|id: int| release_transition(pre, post, id);
        if pre.streams@[id] is Sent {
            lemma_wf_after_occupied_update(pre, post, id);
        } else {
            lemma_wf_after_recycle(pre, post, id);
        }
    } else if exists|id: int, response: Response, action: RouteAction|
        response_transition(pre, post, id, response, action) {
        let (id, response, action) = choose|id: int, response: Response, action: RouteAction|
            response_transition(pre, post, id, response, action);
        if 0 <= id < TOTAL_STREAMS && pre.streams@[id] is Sent {
            lemma_wf_after_occupied_update(pre, post, id);
        } else if 0 <= id < TOTAL_STREAMS && pre.streams@[id] is SentButAbandoned {
            lemma_wf_after_recycle(pre, post, id);
        }
    } else {
        let fault = choose|fault: ConnectionFault| fault_transition(pre, post, fault);
        assert(fault_transition(pre, post, fault));
    }
}

/// A fault, once recorded, survives any run of table steps: every later
/// poll and registration keeps reporting a stored fault, so no query stays
/// pending once the connection has failed.
pub proof fn lemma_fault_persists(states: Seq<StreamsManager>)
    requires
        states.len() > 0,
        states.first().fault is Some,
        forall|i: int| 0 <= i < states.len() - 1 ==> #[trigger] table_step(states[i], states[i + 1]),
    ensures
        states.last().fault is Some,
    decreases states.len(),
{
    if states.len() > 1 {
        let prefix = states.drop_last();
        assert(prefix.first() == states.first());
        assert forall|i: int| 0 <= i < prefix.len() - 1 implies #[trigger] table_step(
            prefix[i],
            prefix[i + 1],
        ) by {
            assert(table_step(states[i], states[i + 1]));
        }
        lemma_fault_persists(prefix);
        let k = states.len() - 2;
        assert(table_step(states[k], states[k + 1]));
        assert(states[k] == prefix.last());
        assert(states[k + 1] == states.last());
    }
}

} // verus!
