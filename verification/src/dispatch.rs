//! Process-wide dispatch registry: one entry per hot-patchable function
//! identity, remembering the code address seen at the last check so that a
//! change of address — the sign that a patch replaced the implementation —
//! can be detected exactly once.

use vstd::prelude::*;
use vstd::pervasive::VecAdditionalExecFns;
use crate::patch_channel::{AddressPair, identity_table, redirect_model};

verus! {

/// Bookkeeping for one hot-patchable function.  `current_address` is
/// refreshed on every check cycle; `last_seen_address` lags by one cycle and
/// exists purely for change detection.
#[derive(Clone, Copy, Debug, PartialEq, Eq, Structural)]
pub struct DispatchEntry {
    pub identity: u64,
    pub current_address: u64,
    pub last_seen_address: u64,
}

/// Whether some entry carries this function identity.
pub open spec fn contains_identity(entries: Seq<DispatchEntry>, identity: u64) -> bool {
    exists|i: int| 0 <= i < entries.len() && entries[i].identity == identity
}

/// The index of the entry carrying `identity` (unique while the registry is
/// well formed).
pub open spec fn index_of_identity(entries: Seq<DispatchEntry>, identity: u64) -> int {
    choose|i: int| 0 <= i < entries.len() && entries[i].identity == identity
}

/// Whether a refresh that resolved the current address to `resolved` reports
/// a change for entry `e`: exactly when the resolved address differs from the
/// one seen at the previous cycle.
pub open spec fn refresh_reports_change(e: DispatchEntry, resolved: u64) -> bool {
    resolved != e.last_seen_address
}

/// The entry after a refresh: both addresses now hold the resolved one.
pub open spec fn refreshed_entry(e: DispatchEntry, resolved: u64) -> DispatchEntry {
    DispatchEntry { identity: e.identity, current_address: resolved, last_seen_address: resolved }
}

/// The process-wide map from function identity to dispatch entry.  Entries
/// are created on first call of a function and never removed.
pub struct DispatchRegistry {
    entries: Vec<DispatchEntry>,
}

impl View for DispatchRegistry {
    type V = Seq<DispatchEntry>;

    closed spec fn view(&self) -> Seq<DispatchEntry> {
        self.entries@
    }
}

impl DispatchRegistry {
    /// No two entries carry the same identity.
    pub open spec fn wf(self) -> bool {
        forall|i: int, j: int|
            0 <= i < j < self@.len() ==> self@[i].identity != self@[j].identity
    }

    /// An empty registry, as the process starts with.
    pub fn new() -> (r: Self)
        ensures
            r@ =~= Seq::<DispatchEntry>::empty(),
            r.wf(),
    {
        DispatchRegistry { entries: Vec::new() }
    }

    /// Number of registered entries.
    pub fn len(&self) -> (r: usize)
        ensures
            r == self@.len(),
    {
        self.entries.len()
    }

    /// The entry at a position, for walking the registry.
    pub fn entry_at(&self, i: usize) -> (r: DispatchEntry)
        requires
            i < self@.len(),
        ensures
            r == self@[i as int],
    {
        self.entries[i]
    }

    /// Register a function identity on first sight, with the address its
    /// implementation currently lives at; idempotent afterwards.
    pub fn ensure_registered(&mut self, identity: u64, address: u64)
        requires
            old(self).wf(),
        ensures
            final(self).wf(),
            contains_identity(old(self)@, identity) ==> final(self)@ == old(self)@,
            !contains_identity(old(self)@, identity) ==> final(self)@ == old(self)@.push(
                DispatchEntry {
                    identity,
                    current_address: address,
                    last_seen_address: address,
                },
            ),
    {
        let mut i: usize = 0;
        while i < self.entries.len()
            invariant
                0 <= i <= self@.len(),
                self@ == old(self)@,
                old(self).wf(),
                forall|j: int| 0 <= j < i ==> self@[j].identity != identity,
            decreases self@.len() - i,
        {
            if self.entries[i].identity == identity {
                return ;
            }
            i = i + 1;
        }
        self.entries.push(
            DispatchEntry { identity, current_address: address, last_seen_address: address },
        );
    }

    /// One check cycle for one function: store the freshly resolved current
    /// address, report whether it differs from the address seen last cycle,
    /// and let `last_seen_address` catch up.
    pub fn refresh(&mut self, identity: u64, resolved: u64) -> (changed: bool)
        requires
            old(self).wf(),
            contains_identity(old(self)@, identity),
        ensures
            final(self).wf(),
            final(self)@.len() == old(self)@.len(),
            ({
                let idx = index_of_identity(old(self)@, identity);
                &&& final(self)@ == old(self)@.update(
                    idx,
                    refreshed_entry(old(self)@[idx], resolved),
                )
                &&& changed == refresh_reports_change(old(self)@[idx], resolved)
            }),
    {
        let ghost idx = index_of_identity(old(self)@, identity);
        proof {
            assert(exists|k: int|
                0 <= k < old(self)@.len() && old(self)@[k].identity == identity);
            assert(0 <= idx < old(self)@.len() && old(self)@[idx].identity == identity);
        }
        let mut i: usize = 0;
        while i < self.entries.len()
            invariant
                0 <= i <= self@.len(),
                self@ == old(self)@,
                old(self).wf(),
                0 <= idx < old(self)@.len() && old(self)@[idx].identity == identity,
                forall|j: int| 0 <= j < i ==> self@[j].identity != identity,
            decreases self@.len() - i,
        {
            if self.entries[i].identity == identity {
                proof {
                    if (i as int) < idx {
                        assert(old(self)@[i as int].identity != old(self)@[idx].identity);
                    }
                    if idx < i as int {
                        assert(old(self)@[idx].identity != old(self)@[i as int].identity);
                    }
                    assert(idx == i as int);
                }
                let e = self.entries[i];
                let changed = resolved != e.last_seen_address;
                self.entries.set(
                    i,
                    DispatchEntry {
                        identity: e.identity,
                        current_address: resolved,
                        last_seen_address: resolved,
                    },
                );
                return changed;
            }
            i = i + 1;
        }
        proof {
            assert(self@[idx].identity == identity);
            assert(false);
        }
        false
    }
}

/// An idempotent no-op patch is invisible to change detection: under a jump
/// table that maps every address to itself, every entry whose bookkeeping is
/// settled (the previous cycle saw the address that is still current) has its
/// refresh report no change.
pub proof fn lemma_noop_patch_reports_unchanged(
    entries: Seq<DispatchEntry>,
    pairs: Seq<AddressPair>,
)
    requires
        identity_table(pairs),
        forall|i: int|
            0 <= i < entries.len() ==> (#[trigger] entries[i]).last_seen_address
                == entries[i].current_address,
    ensures
        forall|i: int|
            0 <= i < entries.len() ==> !refresh_reports_change(
                #[trigger] entries[i],
                redirect_model(pairs, entries[i].current_address),
            ),
{
}

} // verus!
