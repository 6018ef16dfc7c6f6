//! Pending-request tracking.
//!
//! Every issued request is registered here, keyed by the run-global counter
//! embedded in its identifier, before the frame is handed to the transport.
//! When a response arrives the matching entry is resolved at most once: a
//! duplicate or unknown identifier resolves to nothing and changes nothing.

use vstd::prelude::*;
use std::collections::HashMap;

verus! {

broadcast use vstd::std_specs::hash::group_hash_axioms;

/// One outstanding request: the connection that issued it, when it was
/// handed to the transport, and whether its response has been seen.
#[derive(Clone, Copy)]
pub struct PendingRequest {
    pub conn: u64,
    pub sent_at_us: u64,
    pub responded: bool,
}

/// Elapsed time between registration and resolution, clamped at zero so a
/// non-monotonic clock reading can never produce a negative latency.
pub open spec fn elapsed_us(sent_at_us: u64, now_us: u64) -> u64 {
    if now_us >= sent_at_us {
        (now_us - sent_at_us) as u64
    } else {
        0
    }
}

/// An entry that a response for connection `conn`, counter `k` may resolve:
/// it exists, belongs to that connection, and has not been resolved before.
pub open spec fn can_resolve(m: Map<u64, PendingRequest>, conn: u64, k: u64) -> bool {
    m.contains_key(k) && m[k].conn == conn && !m[k].responded
}

/// The set of counters whose request has been resolved.
pub open spec fn responded_set(m: Map<u64, PendingRequest>) -> Set<u64> {
    m.dom().filter(|k: u64| m[k].responded)
}

/// Maps each outstanding request's counter to its pending entry.
pub struct PendingRequestTracker {
    map: HashMap<u64, PendingRequest>,
}

impl View for PendingRequestTracker {
    type V = Map<u64, PendingRequest>;

    closed spec fn view(&self) -> Map<u64, PendingRequest> {
        self.map@
    }
}

impl PendingRequestTracker {
    pub fn new() -> (r: Self)
        ensures
            r@ == Map::<u64, PendingRequest>::empty(),
    {
        PendingRequestTracker { map: HashMap::new() }
    }

    /// Insert a fresh pending entry. The caller draws `k` from a monotonic
    /// counter, so a collision never happens; if one did, the entry would be
    /// overwritten, which the map semantics below states faithfully.
    pub fn register(&mut self, conn: u64, k: u64, now_us: u64)
        ensures
            final(self)@ == old(self)@.insert(
                k,
                PendingRequest { conn, sent_at_us: now_us, responded: false },
            ),
    {
        self.map.insert(k, PendingRequest { conn, sent_at_us: now_us, responded: false });
    }

    /// Resolve the entry for connection `conn`, counter `k`, at most once.
    ///
    /// Returns the elapsed time exactly when a matching unresolved entry
    /// exists, and marks it resolved; a duplicate, unknown, or foreign
    /// identifier returns `None` and leaves every entry as it was.
    pub fn resolve(&mut self, conn: u64, k: u64, now_us: u64) -> (r: Option<u64>)
        ensures
            can_resolve(old(self)@, conn, k) ==> {
                &&& r == Some(elapsed_us(old(self)@[k].sent_at_us, now_us))
                &&& final(self)@ == old(self)@.insert(
                    k,
                    PendingRequest {
                        conn,
                        sent_at_us: old(self)@[k].sent_at_us,
                        responded: true,
                    },
                )
            },
            !can_resolve(old(self)@, conn, k) ==> r is None && final(self)@ == old(self)@,
    {
        match self.map.get(&k) {
            Some(entry) => {
                let e = *entry;
                if e.conn == conn && !e.responded {
                    let lat = if now_us >= e.sent_at_us {
                        now_us - e.sent_at_us
                    } else {
                        0
                    };
                    self.map.insert(
                        k,
                        PendingRequest { conn, sent_at_us: e.sent_at_us, responded: true },
                    );
                    Some(lat)
                } else {
                    None
                }
            },
            None => None,
        }
    }

    /// How many requests were ever registered.
    pub fn len(&self) -> (r: usize)
        ensures
            r == self@.dom().len(),
    {
        self.map.len()
    }
}

/// Registering a fresh counter leaves the set of resolved requests as it was.
pub proof fn lemma_register_keeps_responded(m: Map<u64, PendingRequest>, e: PendingRequest, k: u64)
    requires
        !e.responded,
    ensures
        responded_set(m.insert(k, e)) == responded_set(m).remove(k),
{
    assert(responded_set(m.insert(k, e)) =~= responded_set(m).remove(k));
}

/// Resolving an unresolved entry grows the set of resolved requests by
/// exactly that entry.
pub proof fn lemma_resolve_grows_responded(
    m: Map<u64, PendingRequest>,
    conn: u64,
    k: u64,
)
    requires
        can_resolve(m, conn, k),
    ensures
        responded_set(
            m.insert(k, PendingRequest { conn, sent_at_us: m[k].sent_at_us, responded: true }),
        ) == responded_set(m).insert(k),
        !responded_set(m).contains(k),
{
    assert(responded_set(
        m.insert(k, PendingRequest { conn, sent_at_us: m[k].sent_at_us, responded: true }),
    ) =~= responded_set(m).insert(k));
}

/// At-most-once resolution: after a resolve succeeds, a second resolve of
/// the same identifier returns nothing and changes nothing, whatever the
/// clock then reads.
pub proof fn lemma_resolve_idempotent(m: Map<u64, PendingRequest>, conn: u64, k: u64)
    requires
        can_resolve(m, conn, k),
    ensures
        !can_resolve(
            m.insert(k, PendingRequest { conn, sent_at_us: m[k].sent_at_us, responded: true }),
            conn,
            k,
        ),
{
}

} // verus!
