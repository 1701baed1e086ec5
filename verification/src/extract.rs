//! Parameter extraction: given the world and a declared parameter list,
//! decide — before anything is borrowed — whether the system can run this
//! tick, and resolve single-match queries.
//!
//! Skip conditions are not errors: a single-match query with zero or several
//! matching entities, or a required resource that is absent, makes the whole
//! run a no-op to be retried next tick.  Exclusivity of write access between
//! two declared parameters is likewise checked up front, so that no two
//! materialized views ever alias a mutable borrow of the same data.

use vstd::prelude::*;
use crate::world::{
    World, WorldModel, count_with_component, ids_with_component, resource_present,
};

verus! {

/// How a parameter borrows the data it resolves to.
#[derive(Clone, Copy, Debug, PartialEq, Eq, Structural)]
pub enum Access {
    Shared,
    Exclusive,
}

/// One declared parameter of a hot-patchable system.
#[derive(Clone, Copy, Debug, PartialEq, Eq, Structural)]
pub enum ParamDesc {
    /// All entities carrying a component of this type identity.
    Query { component: u64, access: Access },
    /// Exactly one entity carrying this component is expected; any other
    /// count is a skip condition, not an error.
    Single { component: u64, access: Access },
    /// A global resource that must be present; its absence is a skip
    /// condition.
    Resource { resource: u64, access: Access },
    /// A global resource whose absence is a legitimate outcome.
    OptionalResource { resource: u64, access: Access },
    /// The deferred command buffer; conflicts with nothing.
    CommandBuffer,
}

/// Whether one parameter can be resolved against this world: single-match
/// queries need exactly one match, required resources must be present,
/// everything else always resolves.
pub open spec fn param_ok(w: WorldModel, p: ParamDesc) -> bool {
    match p {
        ParamDesc::Single { component, .. } => count_with_component(w.entities, component) == 1,
        ParamDesc::Resource { resource, .. } => resource_present(w, resource),
        _ => true,
    }
}

/// Whether the whole declared list can be resolved: the validation the outer
/// function runs before borrowing anything.
pub open spec fn params_ok(w: WorldModel, params: Seq<ParamDesc>) -> bool {
    forall|i: int| 0 <= i < params.len() ==> param_ok(w, #[trigger] params[i])
}

/// The data a parameter resolves to, for aliasing purposes: a component type
/// identity, a resource type identity, or nothing that could alias.
pub open spec fn touches_component(p: ParamDesc) -> Option<u64> {
    match p {
        ParamDesc::Query { component, .. } => Some(component),
        ParamDesc::Single { component, .. } => Some(component),
        _ => None,
    }
}

/// The resource a parameter resolves to, if any.
pub open spec fn touches_resource(p: ParamDesc) -> Option<u64> {
    match p {
        ParamDesc::Resource { resource, .. } => Some(resource),
        ParamDesc::OptionalResource { resource, .. } => Some(resource),
        _ => None,
    }
}

/// Whether a parameter borrows its data exclusively.
pub open spec fn is_exclusive(p: ParamDesc) -> bool {
    match p {
        ParamDesc::Query { access, .. } => access is Exclusive,
        ParamDesc::Single { access, .. } => access is Exclusive,
        ParamDesc::Resource { access, .. } => access is Exclusive,
        ParamDesc::OptionalResource { access, .. } => access is Exclusive,
        ParamDesc::CommandBuffer => false,
    }
}

/// Whether two parameters would alias a mutable borrow of the same data.
pub open spec fn params_conflict(p: ParamDesc, q: ParamDesc) -> bool {
    (is_exclusive(p) || is_exclusive(q)) && ((touches_component(p) is Some && touches_component(p)
        == touches_component(q)) || (touches_resource(p) is Some && touches_resource(p)
        == touches_resource(q)))
}

/// Whether a declared list is free of aliasing: no two parameters hold a
/// mutable borrow of overlapping data.
pub open spec fn params_exclusive(params: Seq<ParamDesc>) -> bool {
    forall|i: int, j: int|
        0 <= i < j < params.len() ==> !params_conflict(#[trigger] params[i], #[trigger] params[j])
}

/// Run the validation pass: `true` exactly when every declared parameter can
/// be resolved against the current world.  Reads only; borrows nothing.
pub fn validate_params(w: &World, params: &Vec<ParamDesc>) -> (r: bool)
    ensures
        r == params_ok(w@, params@),
{
    let mut i: usize = 0;
    while i < params.len()
        invariant
            0 <= i <= params@.len(),
            forall|j: int| 0 <= j < i ==> param_ok(w@, #[trigger] params@[j]),
        decreases params@.len() - i,
    {
        let ok = match params[i] {
            ParamDesc::Single { component, .. } => w.count_matching(component) == 1,
            ParamDesc::Resource { resource, .. } => w.has_resource(resource),
            _ => true,
        };
        if !ok {
            assert(!param_ok(w@, params@[i as int]));
            return false;
        }
        assert(param_ok(w@, params@[i as int]));
        i = i + 1;
    }
    true
}

/// Check borrow exclusivity of a declared list.  A violation is a build-time
/// shape problem of the declared parameters, not a property of the world.
pub fn check_exclusive(params: &Vec<ParamDesc>) -> (r: bool)
    ensures
        r == params_exclusive(params@),
{
    let mut i: usize = 0;
    while i < params.len()
        invariant
            0 <= i <= params@.len(),
            forall|a: int, b: int|
                0 <= a < b < params@.len() && a < i ==> !params_conflict(
                    #[trigger] params@[a],
                    #[trigger] params@[b],
                ),
        decreases params@.len() - i,
    {
        let mut j: usize = i + 1;
        while j < params.len()
            invariant
                0 <= i < j <= params@.len(),
                forall|a: int, b: int|
                    0 <= a < b < params@.len() && a < i ==> !params_conflict(
                        #[trigger] params@[a],
                        #[trigger] params@[b],
                    ),
                forall|b: int|
                    i < b < j ==> !params_conflict(params@[i as int], #[trigger] params@[b]),
            decreases params@.len() - j,
        {
            if conflicts(params[i], params[j]) {
                return false;
            }
            j = j + 1;
        }
        i = i + 1;
    }
    true
}

/// Whether two parameters conflict: same data, at least one exclusive borrow.
fn conflicts(p: ParamDesc, q: ParamDesc) -> (r: bool)
    ensures
        r == params_conflict(p, q),
{
    let p_excl = match p {
        ParamDesc::Query { access, .. } => matches!(access, Access::Exclusive),
        ParamDesc::Single { access, .. } => matches!(access, Access::Exclusive),
        ParamDesc::Resource { access, .. } => matches!(access, Access::Exclusive),
        ParamDesc::OptionalResource { access, .. } => matches!(access, Access::Exclusive),
        ParamDesc::CommandBuffer => false,
    };
    let q_excl = match q {
        ParamDesc::Query { access, .. } => matches!(access, Access::Exclusive),
        ParamDesc::Single { access, .. } => matches!(access, Access::Exclusive),
        ParamDesc::Resource { access, .. } => matches!(access, Access::Exclusive),
        ParamDesc::OptionalResource { access, .. } => matches!(access, Access::Exclusive),
        ParamDesc::CommandBuffer => false,
    };
    if !p_excl && !q_excl {
        return false;
    }
    let p_comp = match p {
        ParamDesc::Query { component, .. } => Some(component),
        ParamDesc::Single { component, .. } => Some(component),
        _ => None,
    };
    let q_comp = match q {
        ParamDesc::Query { component, .. } => Some(component),
        ParamDesc::Single { component, .. } => Some(component),
        _ => None,
    };
    let same_component = match (p_comp, q_comp) {
        (Some(a), Some(b)) => a == b,
        _ => false,
    };
    let p_res = match p {
        ParamDesc::Resource { resource, .. } => Some(resource),
        ParamDesc::OptionalResource { resource, .. } => Some(resource),
        _ => None,
    };
    let q_res = match q {
        ParamDesc::Resource { resource, .. } => Some(resource),
        ParamDesc::OptionalResource { resource, .. } => Some(resource),
        _ => None,
    };
    let same_resource = match (p_res, q_res) {
        (Some(a), Some(b)) => a == b,
        _ => false,
    };
    same_component || same_resource
}

/// Resolve a single-match query: the id of the one entity carrying the
/// component when exactly one does, and nothing — the skip signal — when
/// zero or several do.
pub fn extract_single(w: &World, component: u64) -> (r: Option<u64>)
    ensures
        r is Some <==> count_with_component(w@.entities, component) == 1,
        r matches Some(id) ==> ids_with_component(w@.entities, component) =~= seq![id],
{
    let ghost entities = w@.entities;
    let mut found: Option<u64> = None;
    let mut count: usize = 0;
    let mut i: usize = 0;
    assert(entities.take(0) =~= Seq::<crate::world::EntityModel>::empty());
    while i < w.entities.len()
        invariant
            0 <= i <= w.entities@.len(),
            entities == w@.entities,
            w.entities@.len() == entities.len(),
            count == count_with_component(entities.take(i as int), component),
            count == ids_with_component(entities.take(i as int), component).len(),
            found matches Some(id) ==> count >= 1 && ids_with_component(
                entities.take(i as int),
                component,
            )[0] == id,
            count >= 1 ==> found is Some,
            count <= i,
        decreases w.entities@.len() - i,
    {
        proof {
            assert(entities.take(i + 1).drop_last() =~= entities.take(i as int));
            assert(entities.take(i + 1).last() == entities[i as int]);
        }
        if crate::world::entity_has(&w.entities[i], component) {
            if found.is_none() {
                found = Some(w.entities[i].id);
            }
            count = count + 1;
        }
        i = i + 1;
    }
    assert(entities.take(i as int) =~= entities);
    if count == 1 {
        proof {
            assert(ids_with_component(entities, component).len() == 1);
        }
        found
    } else {
        None
    }
}

} // verus!
