//! The dual-layer indirection behind a hot-patchable function: a stable
//! *outer* address that every call site references, and a swappable *inner*
//! address holding the implementation current at this moment.
//!
//! A patch moves only the inner address: callers keep calling through the
//! outer one, and each call re-resolves the inner implementation, so the very
//! next call after a patch already runs the new code.

use vstd::prelude::*;
use crate::patch_channel::{AddressPair, JumpTable, redirect_model};

verus! {

/// The two addresses of a trampoline, as a plain value.
#[derive(Clone, Copy, Debug, PartialEq, Eq, Structural)]
pub struct TrampolineModel {
    pub outer: u64,
    pub inner: u64,
}

/// What one applied jump table does to a trampoline: the outer address is
/// untouched, the inner address follows the table.
pub open spec fn patch_step(t: TrampolineModel, pairs: Seq<AddressPair>) -> TrampolineModel {
    TrampolineModel { outer: t.outer, inner: redirect_model(pairs, t.inner) }
}

/// A trampoline after a whole sequence of patches, applied oldest first.
pub open spec fn patch_all(t: TrampolineModel, tables: Seq<Seq<AddressPair>>) -> TrampolineModel
    decreases tables.len(),
{
    if tables.len() == 0 {
        t
    } else {
        patch_all(patch_step(t, tables[0]), tables.skip(1))
    }
}

/// Trampoline stability: across arbitrarily many patches the outer address
/// never moves.
pub proof fn lemma_outer_address_stable(t: TrampolineModel, tables: Seq<Seq<AddressPair>>)
    ensures
        patch_all(t, tables).outer == t.outer,
    decreases tables.len(),
{
    if tables.len() > 0 {
        lemma_outer_address_stable(patch_step(t, tables[0]), tables.skip(1));
    }
}

/// A patch whose table moves the currently resolved inner address leaves the
/// trampoline resolving a different implementation than before.
pub proof fn lemma_patch_changes_resolution(t: TrampolineModel, pairs: Seq<AddressPair>)
    requires
        redirect_model(pairs, t.inner) != t.inner,
    ensures
        patch_step(t, pairs).inner != t.inner,
        patch_step(t, pairs).outer == t.outer,
{
}

/// A hot-patchable function's two-level address pair.  The outer address is
/// what call sites hold; the inner address is what actually runs, and is the
/// only thing a patch may move.
pub struct Trampoline {
    outer_address: u64,
    inner_address: u64,
}

impl View for Trampoline {
    type V = TrampolineModel;

    closed spec fn view(&self) -> TrampolineModel {
        TrampolineModel { outer: self.outer_address, inner: self.inner_address }
    }
}

impl Trampoline {
    /// Install a trampoline for a freshly generated function: the outer entry
    /// point at `outer_address`, its first implementation at `inner_address`.
    pub fn install(outer_address: u64, inner_address: u64) -> (t: Self)
        ensures
            t@ == (TrampolineModel { outer: outer_address, inner: inner_address }),
    {
        Trampoline { outer_address, inner_address }
    }

    /// The address call sites reference.  Constant for the trampoline's life.
    pub fn outer_address(&self) -> (r: u64)
        ensures
            r == self@.outer,
    {
        self.outer_address
    }

    /// Re-resolve the implementation current right now.  Called on every
    /// invocation of the outer function, never cached.
    pub fn resolve_current(&self) -> (r: u64)
        ensures
            r == self@.inner,
    {
        self.inner_address
    }

    /// Apply one jump table: the inner address follows the table, the outer
    /// address stays.
    pub fn apply_patch(&mut self, table: &JumpTable)
        ensures
            final(self)@ == patch_step(old(self)@, table@),
    {
        self.inner_address = table.redirect(self.inner_address);
    }

    /// Apply a whole sequence of tables, oldest first.
    pub fn apply_patches(&mut self, tables: &Vec<JumpTable>)
        ensures
            final(self)@ == patch_all(old(self)@, tables@.map_values(|t: JumpTable| t@)),
    {
        let ghost all = tables@.map_values(|t: JumpTable| t@);
        let mut i: usize = 0;
        assert(all.skip(0) =~= all);
        while i < tables.len()
            invariant
                0 <= i <= tables.len(),
                all == tables@.map_values(|t: JumpTable| t@),
                patch_all(old(self)@, all) == patch_all(self@, all.skip(i as int)),
            decreases tables.len() - i,
        {
            assert(all.skip(i as int)[0] == tables@[i as int]@);
            assert(all.skip(i as int).skip(1) =~= all.skip(i + 1));
            self.apply_patch(&tables[i]);
            i = i + 1;
        }
        assert(all.skip(i as int).len() == 0);
    }
}

} // verus!
