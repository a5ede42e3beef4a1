//! The correlation machinery: a single-resolution suspension cell per
//! outstanding call, and the shared table that routes each inbound response
//! to the one cell whose correlation id it carries.
//!
//! A cell is Pending while no response has arrived (it may hold the waiting
//! task's resumption handle), becomes Ready when the response is attached,
//! and is Consumed — removed from the table — by the first poll that
//! observes the response.  At most one response is ever attached; a
//! response that arrives before the first poll simply waits in the cell,
//! and nothing is lost.  The callers that run the actual event loop live
//! outside this crate: they lock the table, take one step through these
//! functions, and perform the wake they are handed back.

use vstd::prelude::*;
use std::collections::HashMap;
use std::task::Waker;
use crate::net::Packet;

verus! {

broadcast use vstd::std_specs::hash::group_hash_axioms;

#[verifier::external_type_specification]
#[verifier::external_body]
pub struct ExWaker(Waker);

/// Relies on std::task::Waker::wake_by_ref: signals the task behind the
/// handle to be scheduled again.
#[verifier::external_body]
fn waker_wake_by_ref(w: &Waker) {
    w.wake_by_ref()
}

/// One suspension cell: the slot a response is attached to, the waiting
/// task's resumption handle if one was stored, and the correlation id the
/// cell is registered under.
pub struct BukrsFuture {
    pub data: Option<Packet>,
    pub waker: Option<Waker>,
    pub payload_id: u32,
}

impl BukrsFuture {
    /// A fresh Pending cell: no response yet, no resumption handle.
    pub fn new(payload_id: u32) -> (r: BukrsFuture)
        ensures
            r.payload_id == payload_id,
            r.data is None,
            r.waker is None,
    {
        BukrsFuture { data: None, waker: None, payload_id }
    }

    /// Stores the waiting task's resumption handle, replacing any older one.
    pub fn set_waker(&mut self, waker: Waker)
        ensures
            final(self).waker == Some(waker),
            final(self).data == old(self).data,
            final(self).payload_id == old(self).payload_id,
    {
        self.waker = Some(waker);
    }

    /// Attaches the response.  A cell takes at most one response, so one
    /// already attached is ruled out here.
    pub fn set_data(&mut self, data: Packet)
        requires
            old(self).data is None,
        ensures
            final(self).data == Some(data),
            final(self).waker == old(self).waker,
            final(self).payload_id == old(self).payload_id,
    {
        self.data = Some(data);
    }

    /// Invokes the stored resumption handle.  There must be one: a cell
    /// that was never polled has no task to wake.
    pub fn wake(&self)
        requires
            self.waker is Some,
    {
        if let Some(w) = &self.waker {
            waker_wake_by_ref(w);
        }
    }
}

/// What attaching a response to the table does: if the id has a Pending
/// entry that still lacks a response, the response is attached and the
/// stored handle is taken out to be woken; any other table is unchanged.
pub open spec fn spec_resolve(m: Map<u32, BukrsFuture>, id: u32, data: Packet) -> Map<
    u32,
    BukrsFuture,
> {
    if m.contains_key(id) && m[id].data is None {
        m.insert(
            id,
            (BukrsFuture { data: Some(data), waker: None, payload_id: m[id].payload_id }),
        )
    } else {
        m
    }
}

/// The table of outstanding correlated calls, keyed by correlation id.
pub struct PendingTable {
    pub entries: HashMap<u32, BukrsFuture>,
}

impl PendingTable {
    /// The map the table stands for.
    pub open spec fn view_map(&self) -> Map<u32, BukrsFuture> {
        self.entries@
    }

    /// An empty table: no call is outstanding.
    pub fn new() -> (r: PendingTable)
        ensures
            r.view_map() == Map::<u32, BukrsFuture>::empty(),
    {
        PendingTable { entries: HashMap::new() }
    }

    /// Whether a call with this id is outstanding.
    pub fn contains(&self, id: u32) -> (r: bool)
        ensures
            r == self.view_map().contains_key(id),
    {
        self.entries.contains_key(&id)
    }

    /// Claims a correlation id for a new call: exactly when the id is
    /// nonzero and not yet taken, a fresh Pending cell is registered under
    /// it.  Zero never correlates, and a taken id stays with its call, so
    /// both leave the table unchanged.
    pub fn claim_payload_id(&mut self, id: u32) -> (r: bool)
        ensures
            r == (id != 0 && !old(self).view_map().contains_key(id)),
            r ==> final(self).view_map() == old(self).view_map().insert(
                id,
                (BukrsFuture { data: None, waker: None, payload_id: id }),
            ),
            !r ==> final(self).view_map() == old(self).view_map(),
    {
        if id == 0 {
            return false;
        }
        if self.entries.contains_key(&id) {
            return false;
        }
        self.entries.insert(id, BukrsFuture::new(id));
        true
    }

    /// Attaches an inbound response to the call it correlates with, per
    /// `spec_resolve`, and hands back the resumption handle to invoke — if
    /// the call had already been polled once.  A response for an unknown
    /// id, or a second response for the same id, changes nothing and wakes
    /// nobody.
    pub fn resolve(&mut self, id: u32, data: Packet) -> (w: Option<Waker>)
        ensures
            final(self).view_map() == spec_resolve(old(self).view_map(), id, data),
            (old(self).view_map().contains_key(id) && old(self).view_map()[id].data is None)
                ==> w == old(self).view_map()[id].waker,
            !(old(self).view_map().contains_key(id) && old(self).view_map()[id].data is None)
                ==> w is None,
    {
        match self.entries.remove(&id) {
            None => None,
            Some(mut cell) => {
                if cell.data.is_some() {
                    self.entries.insert(id, cell);
                    proof {
                        assert(self.entries@ =~= old(self).entries@);
                    }
                    None
                } else {
                    cell.set_data(data);
                    let w = cell.waker.take();
                    self.entries.insert(id, cell);
                    w
                }
            },
        }
    }

    /// One poll step by the awaiting task.  A response already attached is
    /// taken out and the entry is removed — the call is over, whether or
    /// not a handle was ever stored.  Otherwise the caller's handle is
    /// stored so the response's arrival can wake it, and the call stays
    /// outstanding.
    pub fn poll(&mut self, id: u32, waker: Waker) -> (r: Option<Packet>)
        requires
            old(self).view_map().contains_key(id),
        ensures
            old(self).view_map()[id].data is Some ==> r == old(self).view_map()[id].data
                && final(self).view_map() == old(self).view_map().remove(id),
            old(self).view_map()[id].data is None ==> r is None
                && final(self).view_map() == old(self).view_map().insert(
                id,
                (BukrsFuture {
                    data: None,
                    waker: Some(waker),
                    payload_id: old(self).view_map()[id].payload_id,
                }),
            ),
    {
        match self.entries.remove(&id) {
            None => {
                proof {
                    assert(false);
                }
                None
            },
            Some(mut cell) => {
                match cell.data {
                    Some(data) => Some(data),
                    None => {
                        cell.set_waker(waker);
                        self.entries.insert(id, cell);
                        None
                    },
                }
            },
        }
    }

    /// Drops an outstanding call, for a caller abandoned before its
    /// response arrived: the entry leaves the table and can never leak.
    pub fn cancel(&mut self, id: u32)
        ensures
            final(self).view_map() == old(self).view_map().remove(id),
    {
        self.entries.remove(&id);
        proof {
            if !old(self).entries@.contains_key(id) {
                assert(self.entries@ =~= old(self).entries@.remove(id));
            }
        }
    }
}

/// One step of the inbound read loop: a frame whose correlation id is
/// nonzero and outstanding resolves that call; everything else leaves the
/// table alone.  Either way the caller also hands the packet to every
/// subscribed listener — that delivery is unconditional and not the
/// table's business.
pub fn handle_inbound(table: &mut PendingTable, payload_id: Option<u32>, event: Packet) -> (w:
    Option<Waker>)
    ensures
        match payload_id {
            Some(id) => final(table).view_map() == spec_resolve(old(table).view_map(), id, event)
                && ((old(table).view_map().contains_key(id) && old(table).view_map()[id].data
                is None) ==> w == old(table).view_map()[id].waker) && (!(old(
                table,
            ).view_map().contains_key(id) && old(table).view_map()[id].data is None) ==> w
                is None),
            None => final(table).view_map() == old(table).view_map() && w is None,
        },
{
    match payload_id {
        Some(id) => table.resolve(id, event),
        None => None,
    }
}

/// Two outstanding calls with distinct ids each resolve only to their own
/// response, even when the responses arrive in the opposite order: after
/// the second call's response and then the first call's, each cell holds
/// exactly the response that carried its id.
pub proof fn lemma_distinct_calls_resolve_independently(
    m: Map<u32, BukrsFuture>,
    id1: u32,
    id2: u32,
    p1: Packet,
    p2: Packet,
)
    requires
        id1 != id2,
        m.contains_key(id1),
        m[id1].data is None,
        m.contains_key(id2),
        m[id2].data is None,
    ensures
        spec_resolve(spec_resolve(m, id2, p2), id1, p1)[id1].data == Some(p1),
        spec_resolve(spec_resolve(m, id2, p2), id1, p1)[id2].data == Some(p2),
{
}

} // verus!
