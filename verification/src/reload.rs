//! Reload positions: the recorded source-line spans in which a rerun-on-patch
//! routine spawned entities during its last run, and the despawn pass that
//! clears those entities out before the routine runs again.
//!
//! A routine generated with provenance tracking records, every time it runs,
//! the span of source lines its body occupies.  Before the startup-rerun
//! phase reruns, every entity whose spawn location falls strictly inside a
//! recorded span of the same file is despawned — so rerunning a spawning
//! routine replaces its entities instead of duplicating them.  The records
//! are cleared before each rerun so stale spans never persist.

use vstd::prelude::*;
use crate::world::{SpawnLocation, World, WorldModel, keep_entities, EntityModel};

verus! {

/// A recorded span: the file a routine lives in and the line range its body
/// occupied when it last ran.
#[derive(Clone, Copy, Debug, PartialEq, Eq, Structural)]
pub struct ReloadSpan {
    pub file: u64,
    pub line_start: u64,
    pub line_end: u64,
}

/// Whether a spawn location falls strictly inside one recorded span of its
/// file.  Entities without provenance are never matched.
pub open spec fn location_in_spans(loc: Option<SpawnLocation>, spans: Seq<ReloadSpan>) -> bool {
    match loc {
        Some(l) => exists|i: int|
            0 <= i < spans.len() && (#[trigger] spans[i]).file == l.file && spans[i].line_start
                < l.line < spans[i].line_end,
        None => false,
    }
}

/// What recording a span leaves behind: set semantics, a span already present
/// is not recorded twice.
pub open spec fn record_model(spans: Seq<ReloadSpan>, span: ReloadSpan) -> Seq<ReloadSpan> {
    if spans.contains(span) {
        spans
    } else {
        spans.push(span)
    }
}

/// The process-wide set of reload-position records.  Cleared and rebuilt
/// every time the tracked routines rerun.
pub struct ReloadPositions {
    spans: Vec<ReloadSpan>,
}

impl View for ReloadPositions {
    type V = Seq<ReloadSpan>;

    closed spec fn view(&self) -> Seq<ReloadSpan> {
        self.spans@
    }
}

impl ReloadPositions {
    /// No spans recorded, as at process start.
    pub fn new() -> (r: Self)
        ensures
            r@ =~= Seq::<ReloadSpan>::empty(),
    {
        ReloadPositions { spans: Vec::new() }
    }

    /// How many spans are recorded.
    pub fn len(&self) -> (r: usize)
        ensures
            r == self@.len(),
    {
        self.spans.len()
    }

    /// Record the span a tracked routine occupied during this run.
    pub fn record(&mut self, span: ReloadSpan)
        ensures
            final(self)@ == record_model(old(self)@, span),
    {
        let mut i: usize = 0;
        while i < self.spans.len()
            invariant
                0 <= i <= self.spans@.len(),
                self.spans@ == old(self).spans@,
                forall|j: int| 0 <= j < i ==> self.spans@[j] != span,
            decreases self.spans@.len() - i,
        {
            if self.spans[i].file == span.file && self.spans[i].line_start == span.line_start
                && self.spans[i].line_end == span.line_end {
                assert(self.spans@[i as int] == span);
                assert(self@.contains(span));
                return ;
            }
            i = i + 1;
        }
        proof {
            if self@.contains(span) {
                let w = choose|k: int| 0 <= k < self@.len() && self@[k] == span;
                assert(self@[w] == span);
                assert(false);
            }
        }
        self.spans.push(span);
    }

    /// Forget every recorded span, ahead of a rerun.
    pub fn clear(&mut self)
        ensures
            final(self)@ =~= Seq::<ReloadSpan>::empty(),
    {
        self.spans.clear();
    }

    /// Whether a spawn location falls strictly inside a recorded span.
    pub fn matches_location(&self, loc: Option<SpawnLocation>) -> (r: bool)
        ensures
            r == location_in_spans(loc, self@),
    {
        if loc.is_none() {
            return false;
        }
        let l = loc.unwrap();
        let mut i: usize = 0;
        while i < self.spans.len()
            invariant
                loc == Some(l),
                0 <= i <= self.spans@.len(),
                forall|j: int|
                    0 <= j < i ==> !((#[trigger] self.spans@[j]).file == l.file
                        && self.spans@[j].line_start < l.line < self.spans@[j].line_end),
            decreases self.spans@.len() - i,
        {
            if self.spans[i].file == l.file && self.spans[i].line_start < l.line && l.line
                < self.spans[i].line_end {
                assert(exists|k: int|
                    0 <= k < self@.len() && (#[trigger] self@[k]).file == l.file
                        && self@[k].line_start < l.line < self@[k].line_end) by {
                    assert(0 <= i < self@.len() && self@[i as int].file == l.file && self@[
                        i as int
                    ].line_start < l.line < self@[i as int].line_end);
                }
                assert(location_in_spans(loc, self@));
                return true;
            }
            i = i + 1;
        }
        false
    }
}

/// Despawn every entity whose spawn location falls strictly inside a recorded
/// span: the cleanup that precedes a rerun of the startup-rerun phase.
/// Entities without provenance, and everything else in the world, are left
/// untouched.
pub fn despawn_in_spans(world: &mut World, positions: &ReloadPositions)
    ensures
        final(world)@.entities == keep_entities(
            old(world)@.entities,
            |e: EntityModel| !location_in_spans(e.spawned_at, positions@),
        ),
        final(world)@.resources == old(world)@.resources,
        final(world)@.next_id == old(world)@.next_id,
{
    let ghost orig = world@.entities;
    let mut kept: Vec<crate::world::Entity> = Vec::new();
    let mut i: usize = 0;
    assert(orig.take(0) =~= Seq::<EntityModel>::empty());
    while i < world.entities.len()
        invariant
            0 <= i <= world.entities@.len(),
            world.entities@ == old(world).entities@,
            world.resources@ == old(world).resources@,
            world.next_id == old(world).next_id,
            orig == world@.entities,
            kept@.map_values(|e: crate::world::Entity| e@) == keep_entities(
                orig.take(i as int),
                |e: EntityModel| !location_in_spans(e.spawned_at, positions@),
            ),
        decreases world.entities@.len() - i,
    {
        proof {
            assert(orig.take(i + 1).drop_last() =~= orig.take(i as int));
            assert(orig.take(i + 1).last() == orig[i as int]);
        }
        let stale = positions.matches_location(world.entities[i].spawned_at);
        proof {
            assert(orig[i as int] == world.entities@[i as int]@);
            assert(orig[i as int].spawned_at == world.entities@[i as int].spawned_at);
        }
        if !stale {
            let e = crate::world::duplicate_entity(&world.entities[i]);
            kept.push(e);
            proof {
                assert(kept@.map_values(|x: crate::world::Entity| x@) =~= keep_entities(
                    orig.take(i + 1),
                    |x: EntityModel| !location_in_spans(x.spawned_at, positions@),
                ));
            }
        } else {
            proof {
                assert(kept@.map_values(|x: crate::world::Entity| x@) =~= keep_entities(
                    orig.take(i + 1),
                    |x: EntityModel| !location_in_spans(x.spawned_at, positions@),
                ));
            }
        }
        i = i + 1;
    }
    assert(orig.take(i as int) =~= orig);
    world.entities = kept;
}

/// The cleanup step before the startup-rerun phase reruns: despawn every
/// entity inside a recorded span, then clear the records so the rerun can
/// lay down fresh ones.
pub fn startup_rerun_prepare(world: &mut World, positions: &mut ReloadPositions)
    ensures
        final(world)@.entities == keep_entities(
            old(world)@.entities,
            |e: EntityModel| !location_in_spans(e.spawned_at, old(positions)@),
        ),
        final(world)@.resources == old(world)@.resources,
        final(world)@.next_id == old(world)@.next_id,
        final(positions)@ =~= Seq::<ReloadSpan>::empty(),
{
    despawn_in_spans(world, positions);
    positions.clear();
}

} // verus!
