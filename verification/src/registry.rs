//! The process-wide session registry: the map from session id to its
//! broker. Lookups happen only when a WebSocket attaches; steady-state
//! traffic never touches it. Ids are minted fresh for every created or
//! resumed session, so an id is never registered twice: an id either
//! resolves to its live broker, or resolves to nothing — permanently,
//! unless that very id is later minted.

use vstd::prelude::*;
use crate::broker::SessionEntry;

verus! {

/// The registry: session id (the 128-bit value of the session's UUID) to
/// broker, keys unique.
pub struct Registry {
    entries: Vec<(u128, SessionEntry)>,
}

impl Registry {
    /// The registered entries, in insertion order.
    pub closed spec fn pairs(self) -> Seq<(u128, SessionEntry)> {
        self.entries@
    }

    /// The registered ids, in insertion order.
    pub open spec fn ids(self) -> Seq<u128> {
        self.pairs().map_values(|e: (u128, SessionEntry)| e.0)
    }

    /// Whether an id is registered.
    pub open spec fn contains_id(self, id: u128) -> bool {
        self.ids().contains(id)
    }

    /// Ids are never registered twice.
    pub open spec fn wf(self) -> bool {
        forall|i: int, j: int|
            0 <= i < j < self.ids().len() ==> #[trigger] self.ids()[i] != #[trigger] self.ids()[j]
    }

    /// An empty registry.
    pub fn new() -> (r: Registry)
        ensures
            r.wf(),
            r.pairs() == Seq::<(u128, SessionEntry)>::empty(),
    {
        let r = Registry { entries: Vec::new() };
        proof {
            assert(r.ids() =~= Seq::<u128>::empty());
        }
        r
    }

    /// Registers a broker under a freshly minted id. Ids are fresh by
    /// construction, so registering an id twice is ruled out here rather
    /// than overwritten.
    pub fn insert(&mut self, id: u128, entry: SessionEntry)
        requires
            old(self).wf(),
            !old(self).contains_id(id),
        ensures
            final(self).wf(),
            final(self).pairs() == old(self).pairs().push((id, entry)),
            final(self).contains_id(id),
    {
        let ghost prev = self.entries@;
        self.entries.push((id, entry));
        proof {
            let ids = self.ids();
            assert(ids =~= prev.map_values(|e: (u128, SessionEntry)| e.0).push(id));
            assert(ids[ids.len() - 1] == id);
            assert forall|i: int, j: int| 0 <= i < j < ids.len() implies #[trigger] ids[i]
                != #[trigger] ids[j] by {
                if j < ids.len() - 1 {
                    assert(old(self).ids()[i] == ids[i] && old(self).ids()[j] == ids[j]);
                } else {
                    assert(old(self).ids()[i] == ids[i]);
                    assert(!old(self).ids().contains(id));
                }
            }
        }
    }

    /// Looks an id up: the broker registered under it, or nothing. An
    /// unregistered id resolves to nothing.
    pub fn get(&self, id: u128) -> (r: Option<&SessionEntry>)
        ensures
            match r {
                Some(e) => self.contains_id(id) && exists|i: int|
                    0 <= i < self.pairs().len() && #[trigger] self.pairs()[i] == (id, *e),
                None => !self.contains_id(id),
            },
    {
        let n = self.entries.len();
        let mut i: usize = 0;
        while i < n
            invariant
                0 <= i <= n,
                n == self.pairs().len(),
                forall|j: int| 0 <= j < i ==> #[trigger] self.ids()[j] != id,
            decreases n - i,
        {
            if self.entries[i].0 == id {
                proof {
                    assert(self.ids()[i as int] == id);
                    assert(self.pairs()[i as int] == (id, self.entries@[i as int].1));
                }
                return Some(&self.entries[i].1);
            }
            proof {
                assert(self.ids()[i as int] == self.entries@[i as int].0);
            }
            i = i + 1;
        }
        proof {
            assert(!self.contains_id(id)) by {
                if self.contains_id(id) {
                    let k = choose|k: int| 0 <= k < self.ids().len() && self.ids()[k] == id;
                    assert(self.ids()[k] != id);
                }
            }
        }
        None
    }
}

/// Registering one freshly minted id never changes what any other id
/// resolves to: an id unknown to the registry resolves to "not found"
/// permanently, unless that very id is minted, and a registered id keeps
/// its broker.
pub proof fn lemma_other_ids_unchanged(
    before: Registry,
    after: Registry,
    id: u128,
    e: SessionEntry,
    other: u128,
)
    requires
        after.pairs() == before.pairs().push((id, e)),
        other != id,
    ensures
        after.contains_id(other) <==> before.contains_id(other),
{
    assert(after.ids() =~= before.ids().push(id));
    if before.contains_id(other) {
        let k = choose|k: int| 0 <= k < before.ids().len() && before.ids()[k] == other;
        assert(after.ids()[k] == other);
    }
    if after.contains_id(other) {
        let k = choose|k: int| 0 <= k < after.ids().len() && after.ids()[k] == other;
        assert(k < before.ids().len());
        assert(before.ids()[k] == other);
    }
}

} // verus!
