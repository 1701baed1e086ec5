//! What the generated outer function of a hot-patchable system does at run
//! time, modeled one tick at a time: record the body's source span when
//! provenance tracking is on, validate the declared parameters, and either
//! skip — leaving the world exactly as it was — or run the wrapped body at
//! most once and commit its buffered commands.
//!
//! The wrapped body itself is host code; what reaches the world is the
//! command buffer it filled, which is taken here as a value.  A skipped tick
//! applies none of it.

use vstd::prelude::*;
use crate::dispatch::{contains_identity, refresh_reports_change, refreshed_entry, DispatchRegistry, index_of_identity};
use crate::extract::{params_ok, validate_params, ParamDesc, param_ok};
use crate::macro_shape::{HotArgs, WorldParam};
use crate::reload::{record_model, ReloadPositions, ReloadSpan};
use crate::trampoline::Trampoline;
use crate::world::{apply_commands_model, count_with_component, Command, World, WorldModel};

verus! {

/// Where a tagged function's body sits in its source file: the line its span
/// starts at and how many newlines the body covers.
#[derive(Clone, Copy, Debug, PartialEq, Eq, Structural)]
pub struct SourceSpan {
    pub file: u64,
    pub line_start: u64,
    pub newlines: u64,
}

/// The reload-position record one run of a tracked routine lays down.
pub open spec fn recorded_span(s: SourceSpan) -> ReloadSpan {
    ReloadSpan {
        file: s.file,
        line_start: s.line_start,
        line_end: ((s.line_start + s.newlines) as u64),
    }
}

/// A hot-patchable system as the generated harness sees it: its declared
/// parameters, the tag's flags, its calling convention, and where its body
/// lives in source.
pub struct HotSystem {
    pub params: Vec<ParamDesc>,
    pub args: HotArgs,
    pub world_param: WorldParam,
    pub span: SourceSpan,
}

/// What one tick did with a system.
#[derive(Clone, Copy, Debug, PartialEq, Eq, Structural)]
pub enum TickAction {
    /// A skip condition held; the body did not run and the world is
    /// untouched.  Retried next tick.
    Skipped,
    /// The body ran, once, and its buffered commands were committed.
    Executed,
}

/// Whether a system runs this tick: whole-world systems always do; systems
/// with declared parameters run exactly when validation resolves every
/// parameter.
pub open spec fn system_runs(w: WorldModel, world_param: WorldParam, params: Seq<ParamDesc>) -> bool {
    match world_param {
        WorldParam::NotWorld => params_ok(w, params),
        _ => true,
    }
}

/// One tick of a generated system.  Records the body's source span first
/// (when the tag asked for provenance tracking, and regardless of whether the
/// run is skipped), then validates, then runs at most once: a skip leaves the
/// world untouched, a run commits exactly the body's buffered commands.
///
/// `body` is the command buffer the wrapped body would fill this tick.
pub fn run_hot_system(
    world: &mut World,
    positions: &mut ReloadPositions,
    sys: &HotSystem,
    body: Vec<Command>,
) -> (r: TickAction)
    requires
        old(world)@.next_id + body@.len() <= u64::MAX,
        sys.span.line_start + sys.span.newlines <= u64::MAX,
    ensures
        sys.args.hot_patch_signature ==> final(positions)@ == record_model(
            old(positions)@,
            recorded_span(sys.span),
        ),
        !sys.args.hot_patch_signature ==> final(positions)@ == old(positions)@,
        (r is Executed) == system_runs(old(world)@, sys.world_param, sys.params@),
        r is Skipped ==> final(world)@ == old(world)@,
        r is Executed ==> final(world)@ == apply_commands_model(
            old(world)@,
            body@.map_values(|c: Command| c@),
        ),
{
    if sys.args.hot_patch_signature {
        positions.record(
            ReloadSpan {
                file: sys.span.file,
                line_start: sys.span.line_start,
                line_end: sys.span.line_start + sys.span.newlines,
            },
        );
    }
    let proceed = match sys.world_param {
        WorldParam::Ref => true,
        WorldParam::Mut => true,
        WorldParam::NotWorld => validate_params(world, &sys.params),
    };
    if !proceed {
        return TickAction::Skipped;
    }
    world.apply_commands(body);
    TickAction::Executed
}

/// Skip semantics of single-match extraction: a declared single-match query
/// whose component is carried by zero or by several entities fails the whole
/// validation, so the system's tick is a no-op.
pub proof fn lemma_single_mismatch_skips(w: WorldModel, params: Seq<ParamDesc>, i: int)
    requires
        0 <= i < params.len(),
        params[i] matches ParamDesc::Single { component, .. } && count_with_component(
            w.entities,
            component,
        ) != 1,
    ensures
        !params_ok(w, params),
{
    assert(!param_ok(w, params[i]));
}

/// The check-cycle pass planted ahead of each tick for a function tagged to
/// rerun on patches: refresh the dispatch entry from the trampoline's current
/// resolution, and exactly when the address moved since the last cycle *and*
/// the tag asked for it, re-execute the function right away with the current
/// world state instead of waiting for its natural schedule slot.  A cycle
/// that does not rerun touches neither the world nor the reload positions.
pub fn recheck_and_rerun(
    world: &mut World,
    positions: &mut ReloadPositions,
    registry: &mut DispatchRegistry,
    trampoline: &Trampoline,
    identity: u64,
    sys: &HotSystem,
    body: Vec<Command>,
) -> (r: Option<TickAction>)
    requires
        old(registry).wf(),
        contains_identity(old(registry)@, identity),
        old(world)@.next_id + body@.len() <= u64::MAX,
        sys.span.line_start + sys.span.newlines <= u64::MAX,
    ensures
        final(registry).wf(),
        ({
            let idx = index_of_identity(old(registry)@, identity);
            let changed = refresh_reports_change(old(registry)@[idx], trampoline@.inner);
            &&& final(registry)@ == old(registry)@.update(
                idx,
                refreshed_entry(old(registry)@[idx], trampoline@.inner),
            )
            &&& (r is Some) == (changed && sys.args.rerun_on_hot_patch)
            &&& r is None ==> final(world)@ == old(world)@ && final(positions)@ == old(
                positions,
            )@
            &&& r matches Some(action) ==> {
                &&& (action is Executed) == system_runs(old(world)@, sys.world_param, sys.params@)
                &&& action is Skipped ==> final(world)@ == old(world)@
                &&& action is Executed ==> final(world)@ == apply_commands_model(
                    old(world)@,
                    body@.map_values(|c: Command| c@),
                )
                &&& sys.args.hot_patch_signature ==> final(positions)@ == record_model(
                    old(positions)@,
                    recorded_span(sys.span),
                )
                &&& !sys.args.hot_patch_signature ==> final(positions)@ == old(positions)@
            }
        }),
{
    let changed = patch_check(registry, trampoline, identity);
    if changed && sys.args.rerun_on_hot_patch {
        Some(run_hot_system(world, positions, sys, body))
    } else {
        None
    }
}

/// The bookkeeping the generated outer function runs once per check cycle:
/// re-resolve the trampoline's current inner address, store it in the
/// dispatch registry, and learn whether a patch moved this function since the
/// last cycle.
pub fn patch_check(
    registry: &mut DispatchRegistry,
    trampoline: &Trampoline,
    identity: u64,
) -> (changed: bool)
    requires
        old(registry).wf(),
        contains_identity(old(registry)@, identity),
    ensures
        final(registry).wf(),
        ({
            let idx = index_of_identity(old(registry)@, identity);
            &&& final(registry)@ == old(registry)@.update(
                idx,
                refreshed_entry(old(registry)@[idx], trampoline@.inner),
            )
            &&& changed == refresh_reports_change(old(registry)@[idx], trampoline@.inner)
        }),
{
    let resolved = trampoline.resolve_current();
    registry.refresh(identity, resolved)
}

} // verus!
