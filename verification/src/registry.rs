//! Connection numbering and the broadcast delivery filter.
//!
//! Every accepted transport connection draws an identifier from a shared
//! counter; identifier `0` is reserved as the broadcast-to-everyone
//! sentinel and is never handed out.  Each connection's outbound pump
//! subscribes to a shared bus and forwards a published event to its
//! transport exactly when the event is addressed to everyone or to the
//! pump's own connection.

use vstd::prelude::*;
use crate::codec::{Event, canonical_json, frame_fields};

verus! {

/// Identifier `0` addresses every connection at once.
pub const BROADCAST_ID: i32 = 0;

/// Allocates process-lifetime-unique connection identifiers.
///
/// The caller serialises access (the transport layer holds a lock across
/// the increment); this type guarantees that the drawn identifiers are
/// the strictly increasing sequence `1, 2, 3, ...` and never `0`.
pub struct ConnectionCounter {
    last: i32,
}

impl ConnectionCounter {
    /// How many identifiers have been drawn so far.
    pub closed spec fn drawn(&self) -> int {
        self.last as int
    }

    pub open spec fn wf(&self) -> bool {
        0 <= self.drawn()
    }

    pub fn new() -> (r: Self)
        ensures
            r.wf(),
            r.drawn() == 0,
    {
        ConnectionCounter { last: 0 }
    }

    /// How many identifiers have been drawn, for callers that must
    /// check the counter has room before drawing.
    pub fn drawn_count(&self) -> (r: i32)
        ensures
            r == self.drawn(),
    {
        self.last
    }

    /// Draws the next identifier: positive, and distinct from every one
    /// drawn before or after.
    pub fn allocate(&mut self) -> (id: i32)
        requires
            old(self).wf(),
            old(self).drawn() < i32::MAX,
        ensures
            final(self).wf(),
            id == old(self).drawn() + 1,
            final(self).drawn() == id,
            id >= 1,
    {
        self.last = self.last + 1;
        self.last
    }
}

/// The identifier drawn by the `k`-th allocation after `start` draws.
pub open spec fn id_at(start: int, k: nat) -> int {
    start + k + 1
}

/// The identifiers drawn by `n` successive allocations after `start` draws.
pub open spec fn ids_from(start: int, n: nat) -> Seq<int> {
    Seq::new(n, |k: int| id_at(start, k as nat))
}

/// Any run of allocations yields pairwise distinct, strictly positive
/// identifiers, none of them the broadcast sentinel `0`.
pub proof fn lemma_allocated_ids_distinct(start: int, n: nat)
    requires
        0 <= start,
    ensures
        forall|i: int, j: int|
            0 <= i < n && 0 <= j < n && i != j ==> ids_from(start, n)[i] != ids_from(start, n)[j],
        forall|i: int| 0 <= i < n ==> ids_from(start, n)[i] >= 1,
{
}

/// Whether an event addressed to `recipient` is delivered to the pump
/// owned by connection `conn`.
pub open spec fn spec_should_deliver(recipient: int, conn: int) -> bool {
    recipient == BROADCAST_ID || recipient == conn
}

/// Delivery decision of one outbound pump: forward the event to the
/// transport exactly when it is addressed to everyone or to this pump's
/// own connection; discard it otherwise.
pub fn should_deliver(recipient: i32, conn: i32) -> (r: bool)
    ensures
        r == spec_should_deliver(recipient as int, conn as int),
{
    recipient == BROADCAST_ID || recipient == conn
}

/// The subset of subscribed connections that an event addressed to
/// `recipient` reaches.
pub open spec fn delivered_to(recipient: int, subscribers: Set<int>) -> Set<int> {
    subscribers.filter(|c: int| spec_should_deliver(recipient, c))
}

/// An event addressed to the broadcast sentinel reaches every pump
/// subscribed at publish time, and only those.
pub proof fn lemma_broadcast_reaches_all(subscribers: Set<int>)
    ensures
        delivered_to(BROADCAST_ID as int, subscribers) == subscribers,
{
    assert(delivered_to(BROADCAST_ID as int, subscribers) =~= subscribers);
}

/// An event addressed to a real connection `k` reaches the pump owned by
/// `k` if it is subscribed, and no other pump.
pub proof fn lemma_targeted_reaches_only_owner(k: int, subscribers: Set<int>)
    requires
        k != BROADCAST_ID as int,
    ensures
        subscribers.contains(k) ==> delivered_to(k, subscribers) == set![k],
        !subscribers.contains(k) ==> delivered_to(k, subscribers) == Set::<int>::empty(),
        forall|c: int| #[trigger] delivered_to(k, subscribers).contains(c) ==> c == k,
{
    if subscribers.contains(k) {
        assert(delivered_to(k, subscribers) =~= set![k]);
    } else {
        assert(delivered_to(k, subscribers) =~= Set::<int>::empty());
    }
}

/// The events one outbound pump forwards to its transport, given the
/// bus events it observes in FIFO publish order: exactly those the
/// filter admits, in the same order.
pub open spec fn forwarded(conn: int, observed: Seq<Event>) -> Seq<Event> {
    observed.filter(|e: Event| spec_should_deliver(e.id as int, conn))
}

/// One more observed bus event extends a pump's output by that event
/// exactly when it is addressed to the pump — so every admitted event
/// is forwarded exactly once, in the bus's FIFO order, and a discarded
/// event leaves the output untouched.
pub proof fn lemma_pump_forwards_in_order(conn: int, observed: Seq<Event>, e: Event)
    ensures
        spec_should_deliver(e.id as int, conn) ==> forwarded(conn, observed.push(e)) == forwarded(
            conn,
            observed,
        ).push(e),
        !spec_should_deliver(e.id as int, conn) ==> forwarded(conn, observed.push(e)) == forwarded(
            conn,
            observed,
        ),
{
    reveal(Seq::filter);
    assert(observed.push(e).drop_last() =~= observed);
    assert(observed.push(e).last() == e);
}

/// One outbound pump's whole decision for one observed bus event: the
/// frame to write to its own transport, or nothing when the event is
/// not addressed to this pump.
pub fn pump_frame(conn: i32, e: &Event) -> (r: Option<String>)
    ensures
        !spec_should_deliver(e.id as int, conn as int) ==> r is None,
        spec_should_deliver(e.id as int, conn as int) && canonical_json(e.dat@) ==> (r matches Some(
            t,
        ) && frame_fields(t@) == Some((Some(e.id as int), e.name@, e.dat@))),
{
    if should_deliver(e.id, conn) {
        e.encode()
    } else {
        None
    }
}

} // verus!
