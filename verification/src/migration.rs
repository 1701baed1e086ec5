//! The component-schema migration engine: when a hot patch changes the
//! in-process definition of a component type, every live entity still holding
//! data under the old type identity is rewritten, field by field, into the
//! new layout.
//!
//! A type takes part only if its registration carries the needed
//! capabilities: reflective access as a component for the old type, and
//! default construction plus component access for the new one.  A missing
//! capability skips that type with a report naming what was missing — never a
//! failure.  Rewriting an entity replaces its old-typed component with the
//! migrated one as a single step; an entity never observably holds neither.

use vstd::prelude::*;
use vstd::pervasive::VecAdditionalExecFns;
use crate::schema::{
    migrate_struct, migrate_struct_model, mismatched_names, FieldDecl, Schema,
};
use crate::world::{
    count_with_component, ComponentModel, Component, EntityModel, Entity, World, WorldModel,
    entity_has_component,
};

verus! {

/// The capability a migratable component type implements: resolving the
/// *current* identity of its (possibly hot-patched) in-process definition.
/// Host types get this from the migration derive; its result changes across
/// patches, which is exactly what the sweep watches for.
pub trait HotPatchMigrate {
    /// The identity of this type's current in-process definition.
    fn current_type_id() -> (r: u64);
}

/// What the reflection registry knows about one registered type: its
/// identity, its layout, and which capabilities its registration carries.
pub struct TypeInfo {
    pub identity: u64,
    pub schema: Schema,
    pub reflect_component: bool,
    pub reflect_default: bool,
}

/// The mathematical value of a type registration.
pub struct TypeInfoModel {
    pub identity: u64,
    pub schema: Seq<FieldDecl>,
    pub reflect_component: bool,
    pub reflect_default: bool,
}

impl View for TypeInfo {
    type V = TypeInfoModel;

    open spec fn view(&self) -> TypeInfoModel {
        TypeInfoModel {
            identity: self.identity,
            schema: self.schema@,
            reflect_component: self.reflect_component,
            reflect_default: self.reflect_default,
        }
    }
}

/// The first registration of a type identity, if any.
pub open spec fn find_info(infos: Seq<TypeInfoModel>, identity: u64) -> Option<TypeInfoModel>
    decreases infos.len(),
{
    if infos.len() == 0 {
        None
    } else if infos[0].identity == identity {
        Some(infos[0])
    } else {
        find_info(infos.skip(1), identity)
    }
}

/// The registered layout of a type identity; empty when unregistered (the
/// capability gate rejects that case before the layout is ever used).
pub open spec fn schema_of(infos: Seq<TypeInfoModel>, identity: u64) -> Seq<FieldDecl> {
    match find_info(infos, identity) {
        Some(info) => info.schema,
        None => Seq::empty(),
    }
}

/// The model of the reflection/type registry the engine reads.
pub struct TypeRegistry {
    pub infos: Vec<TypeInfo>,
}

impl View for TypeRegistry {
    type V = Seq<TypeInfoModel>;

    open spec fn view(&self) -> Seq<TypeInfoModel> {
        self.infos@.map_values(|t: TypeInfo| t@)
    }
}

impl TypeRegistry {
    /// A registry with nothing registered.
    pub fn new() -> (r: Self)
        ensures
            r@ =~= Seq::<TypeInfoModel>::empty(),
    {
        TypeRegistry { infos: Vec::new() }
    }

    /// Register a type.
    pub fn add(&mut self, info: TypeInfo)
        ensures
            final(self)@ =~= old(self)@.push(info@),
    {
        let ghost iv = info@;
        let ghost prev = self.infos@;
        self.infos.push(info);
        proof {
            assert(self.infos@ == prev.push(self.infos@.last()));
            assert(self@ =~= old(self)@.push(iv));
        }
    }

    /// The first registration of a type identity.
    pub fn lookup<'a>(&'a self, identity: u64) -> (r: Option<&'a TypeInfo>)
        ensures
            r is Some <==> find_info(self@, identity) is Some,
            r matches Some(info) ==> find_info(self@, identity) == Some(info@),
    {
        let ghost all = self@;
        let mut i: usize = 0;
        assert(all.skip(0) =~= all);
        while i < self.infos.len()
            invariant
                0 <= i <= self.infos@.len(),
                all == self@,
                find_info(all, identity) == find_info(all.skip(i as int), identity),
            decreases self.infos@.len() - i,
        {
            proof {
                assert(all.skip(i as int)[0] == all[i as int]);
                assert(all.skip(i as int).skip(1) =~= all.skip(i + 1));
            }
            if self.infos[i].identity == identity {
                return Some(&self.infos[i]);
            }
            i = i + 1;
        }
        assert(all.skip(i as int).len() == 0);
        None
    }
}

/// What a type's registration can lack, making migration skip it: the old
/// type unreachable as a component, or the new type without default
/// construction or component access.  Reported, never fatal.
#[derive(Clone, Copy, Debug, PartialEq, Eq, Structural)]
pub enum MissingCapability {
    SourceComponentReflection,
    TargetDefaultConstruction,
    TargetComponentReflection,
}

/// The prerequisite check run before a migration: what is missing, if
/// anything, checked in the order the engine reports it.
pub open spec fn capability_gate(
    infos: Seq<TypeInfoModel>,
    prev: u64,
    to: u64,
) -> Option<MissingCapability> {
    match find_info(infos, prev) {
        None => Some(MissingCapability::SourceComponentReflection),
        Some(p) => if !p.reflect_component {
            Some(MissingCapability::SourceComponentReflection)
        } else {
            match find_info(infos, to) {
                None => Some(MissingCapability::TargetDefaultConstruction),
                Some(t) => if !t.reflect_default {
                    Some(MissingCapability::TargetDefaultConstruction)
                } else if !t.reflect_component {
                    Some(MissingCapability::TargetComponentReflection)
                } else {
                    None
                },
            }
        },
    }
}

/// One component after the migration of identity `prev` to `to`: an old-typed
/// component is replaced in place by its migrated value under the new
/// identity, anything else is untouched.
pub open spec fn migrate_one(
    c: ComponentModel,
    prev: u64,
    to: u64,
    schema: Seq<FieldDecl>,
) -> ComponentModel {
    if c.identity == prev {
        ComponentModel { identity: to, fields: migrate_struct_model(c.fields, schema) }
    } else {
        c
    }
}

/// An entity's components after a migration.
pub open spec fn migrate_components_of(
    cs: Seq<ComponentModel>,
    prev: u64,
    to: u64,
    schema: Seq<FieldDecl>,
) -> Seq<ComponentModel>
    decreases cs.len(),
{
    if cs.len() == 0 {
        Seq::empty()
    } else {
        migrate_components_of(cs.drop_last(), prev, to, schema).push(
            migrate_one(cs.last(), prev, to, schema),
        )
    }
}

/// Every entity after a migration: ids and provenance untouched, old-typed
/// components rewritten.
pub open spec fn migrate_entities(
    entities: Seq<EntityModel>,
    prev: u64,
    to: u64,
    schema: Seq<FieldDecl>,
) -> Seq<EntityModel>
    decreases entities.len(),
{
    if entities.len() == 0 {
        Seq::empty()
    } else {
        migrate_entities(entities.drop_last(), prev, to, schema).push(
            EntityModel {
                id: entities.last().id,
                spawned_at: entities.last().spawned_at,
                components: migrate_components_of(entities.last().components, prev, to, schema),
            },
        )
    }
}

/// A migration rewrites components one for one: the result has as many.
pub proof fn lemma_migrate_components_len(
    cs: Seq<ComponentModel>,
    prev: u64,
    to: u64,
    schema: Seq<FieldDecl>,
)
    ensures
        migrate_components_of(cs, prev, to, schema).len() == cs.len(),
    decreases cs.len(),
{
    if cs.len() > 0 {
        lemma_migrate_components_len(cs.drop_last(), prev, to, schema);
    }
}

/// The whole world after migrating one type identity: entities rewritten,
/// resources and the id counter untouched.
pub open spec fn migrate_world_model(
    w: WorldModel,
    prev: u64,
    to: u64,
    schema: Seq<FieldDecl>,
) -> WorldModel {
    WorldModel {
        entities: migrate_entities(w.entities, prev, to, schema),
        resources: w.resources,
        next_id: w.next_id,
    }
}

/// One field whose old value could not be carried over: the entity it sits
/// on and the field's name — the identifying context a host operator needs.
#[derive(Clone, Copy, Debug, PartialEq, Eq, Structural)]
pub struct FieldMismatch {
    pub entity: u64,
    pub field_name: u64,
}

/// Mismatched field names tagged with the entity they belong to.
pub open spec fn tag_mismatches(entity: u64, names: Seq<u64>) -> Seq<FieldMismatch>
    decreases names.len(),
{
    if names.len() == 0 {
        Seq::empty()
    } else {
        tag_mismatches(entity, names.drop_last()).push(
            FieldMismatch { entity, field_name: names.last() },
        )
    }
}

/// The mismatches migrating one entity's components produces, in component
/// order.
pub open spec fn mismatches_in_components(
    entity: u64,
    cs: Seq<ComponentModel>,
    prev: u64,
    schema: Seq<FieldDecl>,
) -> Seq<FieldMismatch>
    decreases cs.len(),
{
    if cs.len() == 0 {
        Seq::empty()
    } else {
        mismatches_in_components(entity, cs.drop_last(), prev, schema) + (if cs.last().identity
            == prev {
            tag_mismatches(entity, mismatched_names(cs.last().fields, schema))
        } else {
            Seq::empty()
        })
    }
}

/// The mismatches migrating the whole world produces, in entity order.
pub open spec fn mismatches_in_entities(
    entities: Seq<EntityModel>,
    prev: u64,
    schema: Seq<FieldDecl>,
) -> Seq<FieldMismatch>
    decreases entities.len(),
{
    if entities.len() == 0 {
        Seq::empty()
    } else {
        mismatches_in_entities(entities.drop_last(), prev, schema) + mismatches_in_components(
            entities.last().id,
            entities.last().components,
            prev,
            schema,
        )
    }
}

/// How migrating one type ended.
#[derive(Clone, Copy, Debug, PartialEq, Eq, Structural)]
pub enum MigrationOutcome {
    /// The sweep rewrote this many entities (zero when nothing held the old
    /// type — a no-op, not an error).
    Migrated { migrated_entities: usize },
    /// A prerequisite capability was missing; nothing was touched.  Not
    /// retried until the capability is added and the process restarts.
    Skipped { missing: MissingCapability },
}

/// The engine's account of migrating one type: how it ended and, field by
/// field, what could not be carried over.
pub struct MigrationReport {
    pub outcome: MigrationOutcome,
    pub mismatches: Vec<FieldMismatch>,
}

/// The mathematical value of a report.
pub struct ReportModel {
    pub outcome: MigrationOutcome,
    pub mismatches: Seq<FieldMismatch>,
}

impl View for MigrationReport {
    type V = ReportModel;

    open spec fn view(&self) -> ReportModel {
        ReportModel { outcome: self.outcome, mismatches: self.mismatches@ }
    }
}

/// The world `migrate_component` leaves behind: unchanged when a capability
/// is missing, the migrated world otherwise.
pub open spec fn migrate_outcome_world(
    w: WorldModel,
    prev: u64,
    to: u64,
    infos: Seq<TypeInfoModel>,
) -> WorldModel {
    match capability_gate(infos, prev, to) {
        Some(_) => w,
        None => migrate_world_model(w, prev, to, schema_of(infos, to)),
    }
}

/// The report `migrate_component` returns.
pub open spec fn migrate_report_model(
    w: WorldModel,
    prev: u64,
    to: u64,
    infos: Seq<TypeInfoModel>,
) -> ReportModel {
    match capability_gate(infos, prev, to) {
        Some(missing) => ReportModel {
            outcome: MigrationOutcome::Skipped { missing },
            mismatches: Seq::empty(),
        },
        None => ReportModel {
            outcome: MigrationOutcome::Migrated {
                migrated_entities: (count_with_component(w.entities, prev) as usize),
            },
            mismatches: mismatches_in_entities(w.entities, prev, schema_of(infos, to)),
        },
    }
}

/// Migrate every entity carrying the old type identity to the new one:
/// check the capability prerequisites, then rewrite each old-typed component
/// field by field into the new layout, replacing it in place — one observable
/// step per component, never an entity with neither.  Returns how it ended
/// and every field whose old value had to be dropped for its type.
pub fn migrate_component(world: &mut World, types: &TypeRegistry, prev: u64, to: u64) -> (r:
    MigrationReport)
    ensures
        final(world)@ == migrate_outcome_world(old(world)@, prev, to, types@),
        r@ == migrate_report_model(old(world)@, prev, to, types@),
{
    let source_ok = match types.lookup(prev) {
        Some(info) => info.reflect_component,
        None => false,
    };
    if !source_ok {
        return MigrationReport {
            outcome: MigrationOutcome::Skipped {
                missing: MissingCapability::SourceComponentReflection,
            },
            mismatches: Vec::new(),
        };
    }
    let target = match types.lookup(to) {
        Some(info) => info,
        None => {
            return MigrationReport {
                outcome: MigrationOutcome::Skipped {
                    missing: MissingCapability::TargetDefaultConstruction,
                },
                mismatches: Vec::new(),
            };
        },
    };
    if !target.reflect_default {
        return MigrationReport {
            outcome: MigrationOutcome::Skipped {
                missing: MissingCapability::TargetDefaultConstruction,
            },
            mismatches: Vec::new(),
        };
    }
    if !target.reflect_component {
        return MigrationReport {
            outcome: MigrationOutcome::Skipped {
                missing: MissingCapability::TargetComponentReflection,
            },
            mismatches: Vec::new(),
        };
    }
    let schema = &target.schema;
    let ghost sm = schema@;
    proof {
        assert(capability_gate(types@, prev, to) is None);
        assert(sm == schema_of(types@, to));
    }
    let ghost orig = world@.entities;
    let mut new_entities: Vec<Entity> = Vec::new();
    let mut mismatches: Vec<FieldMismatch> = Vec::new();
    let mut migrated: usize = 0;
    let mut i: usize = 0;
    assert(orig.take(0) =~= Seq::<EntityModel>::empty());
    while i < world.entities.len()
        invariant
            0 <= i <= world.entities@.len(),
            world.entities@ == old(world).entities@,
            world.resources@ == old(world).resources@,
            world.next_id == old(world).next_id,
            orig == world@.entities,
            sm == schema_of(types@, to),
            sm == schema@,
            new_entities@.map_values(|e: Entity| e@) == migrate_entities(
                orig.take(i as int),
                prev,
                to,
                sm,
            ),
            mismatches@ == mismatches_in_entities(orig.take(i as int), prev, sm),
            migrated == count_with_component(orig.take(i as int), prev),
            migrated <= i,
        decreases world.entities@.len() - i,
    {
        proof {
            assert(orig.take(i + 1).drop_last() =~= orig.take(i as int));
            assert(orig.take(i + 1).last() == orig[i as int]);
            assert(orig[i as int] == world.entities@[i as int]@);
        }
        let src = &world.entities[i];
        let ghost ev = src@;
        let ghost ecs = ev.components;
        let mut new_components: Vec<Component> = Vec::new();
        let mut entity_mismatches: Vec<FieldMismatch> = Vec::new();
        let mut saw_old: bool = false;
        let mut j: usize = 0;
        assert(ecs.take(0) =~= Seq::<ComponentModel>::empty());
        while j < src.components.len()
            invariant
                0 <= j <= src.components@.len(),
                ev == src@,
                ecs == src@.components,
                src.components@.len() == ecs.len(),
                sm == schema_of(types@, to),
                sm == schema@,
                new_components@.map_values(|c: Component| c@) == migrate_components_of(
                    ecs.take(j as int),
                    prev,
                    to,
                    sm,
                ),
                entity_mismatches@ == mismatches_in_components(ev.id, ecs.take(j as int), prev, sm),
                saw_old == exists|k: int| 0 <= k < j && (#[trigger] ecs[k]).identity == prev,
            decreases src.components@.len() - j,
        {
            proof {
                assert(ecs.take(j + 1).drop_last() =~= ecs.take(j as int));
                assert(ecs.take(j + 1).last() == ecs[j as int]);
                assert(ecs[j as int] == src.components@[j as int]@);
            }
            let c = &src.components[j];
            let ghost before_nc = new_components@;
            let ghost before_em = entity_mismatches@;
            if c.identity == prev {
                let (value, names) = migrate_struct(&c.value, schema);
                let newc = Component { identity: to, value };
                let ghost ncv = newc@;
                proof {
                    assert(ecs[j as int].identity == prev);
                    assert(ecs[j as int].fields == c.value@);
                    assert(ncv == migrate_one(ecs[j as int], prev, to, sm));
                    assert(names@ == mismatched_names(ecs[j as int].fields, sm));
                }
                new_components.push(newc);
                assert(new_components@.last()@ == migrate_one(ecs[j as int], prev, to, sm));
                let tagged = tag_entity_mismatches(src.id, &names);
                let ghost tv = tagged@;
                let mut tagged_vec = tagged;
                entity_mismatches.append(&mut tagged_vec);
                proof {
                    assert(ev.id == src.id);
                    assert(tv == tag_mismatches(ev.id, mismatched_names(
                        ecs[j as int].fields,
                        sm,
                    )));
                    assert(entity_mismatches@ =~= mismatches_in_components(
                        ev.id,
                        ecs.take(j + 1),
                        prev,
                        sm,
                    ));
                }
                saw_old = true;
            } else {
                let copy = crate::world::duplicate_component(c);
                let ghost ncv = copy@;
                proof {
                    assert(ecs[j as int].identity != prev);
                    assert(ncv == migrate_one(ecs[j as int], prev, to, sm));
                }
                new_components.push(copy);
                assert(new_components@.last()@ == migrate_one(ecs[j as int], prev, to, sm));
                proof {
                    assert(entity_mismatches@ =~= mismatches_in_components(
                        ev.id,
                        ecs.take(j + 1),
                        prev,
                        sm,
                    ));
                }
            }
            proof {
                assert(new_components@ == before_nc.push(new_components@.last()));
                assert(before_nc.map_values(|c: Component| c@).len() == before_nc.len());
                lemma_migrate_components_len(ecs.take(j as int), prev, to, sm);
                assert(before_nc.len() == j);
                assert(new_components@.len() == j + 1);
                assert(migrate_components_of(ecs.take(j + 1), prev, to, sm)
                    == migrate_components_of(ecs.take(j as int), prev, to, sm).push(
                    migrate_one(ecs[j as int], prev, to, sm),
                ));
                assert forall|k: int| 0 <= k < j + 1 implies new_components@.map_values(
                    |c: Component| c@,
                )[k] == #[trigger] migrate_components_of(ecs.take(j + 1), prev, to, sm)[k] by {
                    if k < j {
                        assert(new_components@[k] == before_nc[k]);
                        assert(before_nc.map_values(|c: Component| c@)[k]
                            == migrate_components_of(ecs.take(j as int), prev, to, sm)[k]);
                    } else {
                        assert(new_components@[k] == new_components@.last());
                    }
                }
                assert(new_components@.map_values(|c: Component| c@) =~= migrate_components_of(
                    ecs.take(j + 1),
                    prev,
                    to,
                    sm,
                ));
            }
            j = j + 1;
        }
        proof {
            assert(ecs.take(j as int) =~= ecs);
            assert(saw_old == entity_has_component(ev, prev));
        }
        let new_entity = Entity { id: src.id, spawned_at: src.spawned_at, components: new_components };
        proof {
            assert(new_entity@ == (EntityModel {
                id: ev.id,
                spawned_at: ev.spawned_at,
                components: migrate_components_of(ecs, prev, to, sm),
            }));
        }
        new_entities.push(new_entity);
        let ghost before_m = mismatches@;
        let mut em = entity_mismatches;
        mismatches.append(&mut em);
        if saw_old {
            migrated = migrated + 1;
        }
        proof {
            assert(new_entities@.map_values(|e: Entity| e@) =~= migrate_entities(
                orig.take(i + 1),
                prev,
                to,
                sm,
            ));
            assert(mismatches@ =~= mismatches_in_entities(orig.take(i + 1), prev, sm));
            assert(migrated == count_with_component(orig.take(i + 1), prev));
        }
        i = i + 1;
    }
    proof {
        assert(orig.take(i as int) =~= orig);
    }
    world.entities = new_entities;
    proof {
        assert(world@ == migrate_outcome_world(old(world)@, prev, to, types@));
    }
    MigrationReport {
        outcome: MigrationOutcome::Migrated { migrated_entities: migrated },
        mismatches,
    }
}

/// What registering an identity leaves tracked: inserted on first sight,
/// idempotent afterwards, never removed.
pub open spec fn register_model(entries: Seq<u64>, identity: u64) -> Seq<u64> {
    if entries.contains(identity) {
        entries
    } else {
        entries.push(identity)
    }
}

/// The migration registry: for each migratable type, the identity that was
/// current at the last observation.  When the type's resolver stops returning
/// the tracked identity, a migration fires and the entry is updated to track
/// the new one.
pub struct MigrationRegistry {
    entries: Vec<u64>,
}

impl View for MigrationRegistry {
    type V = Seq<u64>;

    closed spec fn view(&self) -> Seq<u64> {
        self.entries@
    }
}

impl MigrationRegistry {
    /// A registry tracking nothing.
    pub fn new() -> (r: Self)
        ensures
            r@ =~= Seq::<u64>::empty(),
    {
        MigrationRegistry { entries: Vec::new() }
    }

    /// How many types are tracked.
    pub fn len(&self) -> (r: usize)
        ensures
            r == self@.len(),
    {
        self.entries.len()
    }

    /// The identity tracked at a position.
    pub fn tracked_at(&self, i: usize) -> (r: u64)
        requires
            i < self@.len(),
        ensures
            r == self@[i as int],
    {
        self.entries[i]
    }

    /// Track a type identity on first sight; idempotent afterwards.
    pub fn register(&mut self, identity: u64)
        ensures
            final(self)@ == register_model(old(self)@, identity),
    {
        let mut i: usize = 0;
        while i < self.entries.len()
            invariant
                0 <= i <= self.entries@.len(),
                self.entries@ == old(self).entries@,
                forall|j: int| 0 <= j < i ==> self.entries@[j] != identity,
            decreases self.entries@.len() - i,
        {
            if self.entries[i] == identity {
                assert(self@.contains(identity));
                return ;
            }
            i = i + 1;
        }
        proof {
            if self@.contains(identity) {
                let w = choose|k: int| 0 <= k < self@.len() && self@[k] == identity;
                assert(self@[w] == identity);
                assert(false);
            }
        }
        self.entries.push(identity);
    }

    /// Track a migratable type by asking it for its current identity: the
    /// registration step run for each type the reflection registry announces.
    pub fn register_type<T: HotPatchMigrate>(&mut self)
        ensures
            exists|id: u64| final(self)@ == register_model(old(self)@, id),
    {
        let id = T::current_type_id();
        self.register(id);
        proof {
            assert(self@ == register_model(old(self)@, id));
        }
    }
}

/// What registering a whole run of announced identities leaves tracked, in
/// announcement order.
pub open spec fn register_all_model(entries: Seq<u64>, announced: Seq<u64>) -> Seq<u64>
    decreases announced.len(),
{
    if announced.len() == 0 {
        entries
    } else {
        register_model(register_all_model(entries, announced.drop_last()), announced.last())
    }
}

/// Track every type the reflection registry announces as carrying the
/// migration capability: each identity is inserted on first sight and left
/// alone afterwards.  Run before each sweep, so types registered since the
/// last patch take part too.
pub fn register_migratable_components(registry: &mut MigrationRegistry, announced: &Vec<u64>)
    ensures
        final(registry)@ == register_all_model(old(registry)@, announced@),
{
    let mut i: usize = 0;
    assert(announced@.take(0) =~= Seq::<u64>::empty());
    while i < announced.len()
        invariant
            0 <= i <= announced@.len(),
            registry@ == register_all_model(old(registry)@, announced@.take(i as int)),
        decreases announced@.len() - i,
    {
        proof {
            assert(announced@.take(i + 1).drop_last() =~= announced@.take(i as int));
            assert(announced@.take(i + 1).last() == announced@[i as int]);
        }
        registry.register(announced[i]);
        i = i + 1;
    }
    assert(announced@.take(i as int) =~= announced@);
}

/// One step of the sweep: entry `prev` resolved to `cur`; nothing happens
/// unless the identity moved, and a missing capability skips the type.
pub open spec fn sweep_step(
    w: WorldModel,
    prev: u64,
    cur: u64,
    infos: Seq<TypeInfoModel>,
) -> WorldModel {
    if prev == cur {
        w
    } else {
        migrate_outcome_world(w, prev, cur, infos)
    }
}

/// The world after the sweep has processed the first `n` entries, in order.
pub open spec fn sweep_upto(
    w: WorldModel,
    entries: Seq<u64>,
    resolved: Seq<u64>,
    infos: Seq<TypeInfoModel>,
    n: int,
) -> WorldModel
    decreases n,
{
    if n <= 0 {
        w
    } else {
        sweep_step(
            sweep_upto(w, entries, resolved, infos, n - 1),
            entries[n - 1],
            resolved[n - 1],
            infos,
        )
    }
}

/// The reports the sweep's first `n` entries produce: one per entry whose
/// identity moved, in entry order.
pub open spec fn sweep_reports_upto(
    w: WorldModel,
    entries: Seq<u64>,
    resolved: Seq<u64>,
    infos: Seq<TypeInfoModel>,
    n: int,
) -> Seq<ReportModel>
    decreases n,
{
    if n <= 0 {
        Seq::empty()
    } else {
        sweep_reports_upto(w, entries, resolved, infos, n - 1) + (if entries[n - 1] == resolved[n
            - 1] {
            Seq::empty()
        } else {
            seq![
                migrate_report_model(
                    sweep_upto(w, entries, resolved, infos, n - 1),
                    entries[n - 1],
                    resolved[n - 1],
                    infos,
                ),
            ]
        })
    }
}

/// One sweep of the migration engine, run once per hot-patch notification
/// after the dispatch registry's refresh: each tracked entry is compared with
/// its freshly resolved current identity, every entry whose identity moved
/// has its type migrated (in registry order), and every entry is left
/// tracking the resolved identity.  `resolved` holds, for each tracked entry
/// in order, what the type's identity resolver returned this tick.
pub fn sweep_migrations(
    world: &mut World,
    registry: &mut MigrationRegistry,
    types: &TypeRegistry,
    resolved: &Vec<u64>,
) -> (reports: Vec<MigrationReport>)
    requires
        resolved@.len() == old(registry)@.len(),
    ensures
        final(registry)@ == resolved@,
        final(world)@ == sweep_upto(
            old(world)@,
            old(registry)@,
            resolved@,
            types@,
            old(registry)@.len() as int,
        ),
        reports@.map_values(|r: MigrationReport| r@) == sweep_reports_upto(
            old(world)@,
            old(registry)@,
            resolved@,
            types@,
            old(registry)@.len() as int,
        ),
{
    let ghost entries0 = registry@;
    let ghost w0 = world@;
    let mut reports: Vec<MigrationReport> = Vec::new();
    let mut i: usize = 0;
    while i < registry.entries.len()
        invariant
            0 <= i <= entries0.len(),
            resolved@.len() == entries0.len(),
            registry.entries@.len() == entries0.len(),
            forall|j: int| i <= j < entries0.len() ==> registry.entries@[j] == entries0[j],
            forall|j: int| 0 <= j < i ==> registry.entries@[j] == resolved@[j],
            world@ == sweep_upto(w0, entries0, resolved@, types@, i as int),
            reports@.map_values(|r: MigrationReport| r@) == sweep_reports_upto(
                w0,
                entries0,
                resolved@,
                types@,
                i as int,
            ),
        decreases entries0.len() - i,
    {
        let prev = registry.entries[i];
        let cur = resolved[i];
        assert(prev == entries0[i as int]);
        if prev != cur {
            let ghost before_w = world@;
            let ghost before_r = reports@;
            let report = migrate_component(world, types, prev, cur);
            let ghost rv = report@;
            reports.push(report);
            proof {
                assert(world@ == sweep_upto(w0, entries0, resolved@, types@, i + 1));
                assert(reports@ == before_r.push(reports@.last()));
                assert(reports@.last()@ == rv);
                assert(before_r.map_values(|r: MigrationReport| r@).len() == before_r.len());
                assert(reports@.map_values(|r: MigrationReport| r@) =~= sweep_reports_upto(
                    w0,
                    entries0,
                    resolved@,
                    types@,
                    i + 1,
                ));
            }
        } else {
            proof {
                assert(world@ == sweep_upto(w0, entries0, resolved@, types@, i + 1));
                assert(reports@.map_values(|r: MigrationReport| r@) =~= sweep_reports_upto(
                    w0,
                    entries0,
                    resolved@,
                    types@,
                    i + 1,
                ));
            }
        }
        registry.entries.set(i, cur);
        i = i + 1;
    }
    proof {
        assert(registry@ =~= resolved@);
    }
    reports
}

/// If no live entity carries a type identity, migrating away from it changes
/// no component of any entity: the world is left exactly as it was.
pub proof fn lemma_migration_without_holders_is_noop(
    w: WorldModel,
    prev: u64,
    to: u64,
    schema: Seq<FieldDecl>,
)
    requires
        count_with_component(w.entities, prev) == 0,
    ensures
        migrate_world_model(w, prev, to, schema) == w,
{
    lemma_count_zero_means_no_holder(w.entities, prev);
    lemma_migrate_entities_noop(w.entities, prev, to, schema);
}

/// A count of zero means no entity at any position carries the identity.
pub proof fn lemma_count_zero_means_no_holder(entities: Seq<EntityModel>, identity: u64)
    requires
        count_with_component(entities, identity) == 0,
    ensures
        forall|i: int|
            0 <= i < entities.len() ==> !entity_has_component(#[trigger] entities[i], identity),
    decreases entities.len(),
{
    if entities.len() > 0 {
        lemma_count_zero_means_no_holder(entities.drop_last(), identity);
        assert forall|i: int|
            0 <= i < entities.len() implies !entity_has_component(
            #[trigger] entities[i],
            identity,
        ) by {
            if i < entities.len() - 1 {
                assert(entities.drop_last()[i] == entities[i]);
                assert(!entity_has_component(entities.drop_last()[i], identity));
            } else {
                assert(entities[i] == entities.last());
            }
        }
    }
}

/// Migrating components none of which carries the old identity is the
/// identity transformation.
proof fn lemma_migrate_components_noop(
    cs: Seq<ComponentModel>,
    prev: u64,
    to: u64,
    schema: Seq<FieldDecl>,
)
    requires
        forall|k: int| 0 <= k < cs.len() ==> (#[trigger] cs[k]).identity != prev,
    ensures
        migrate_components_of(cs, prev, to, schema) == cs,
    decreases cs.len(),
{
    if cs.len() > 0 {
        assert forall|k: int| 0 <= k < cs.drop_last().len() implies (#[trigger] cs.drop_last()[k]).identity
            != prev by {
            assert(cs.drop_last()[k] == cs[k]);
        }
        lemma_migrate_components_noop(cs.drop_last(), prev, to, schema);
        assert(cs[cs.len() - 1].identity != prev);
        assert(migrate_one(cs.last(), prev, to, schema) == cs.last());
        assert(migrate_components_of(cs, prev, to, schema) =~= cs);
    }
}

/// Migrating entities none of which holds the old identity is the identity
/// transformation.
proof fn lemma_migrate_entities_noop(
    entities: Seq<EntityModel>,
    prev: u64,
    to: u64,
    schema: Seq<FieldDecl>,
)
    requires
        forall|i: int|
            0 <= i < entities.len() ==> !entity_has_component(#[trigger] entities[i], prev),
    ensures
        migrate_entities(entities, prev, to, schema) == entities,
    decreases entities.len(),
{
    if entities.len() > 0 {
        assert forall|i: int| 0 <= i < entities.drop_last().len() implies !entity_has_component(
            #[trigger] entities.drop_last()[i],
            prev,
        ) by {
            assert(entities.drop_last()[i] == entities[i]);
        }
        lemma_migrate_entities_noop(entities.drop_last(), prev, to, schema);
        let e = entities.last();
        assert(!entity_has_component(e, prev));
        assert forall|k: int| 0 <= k < e.components.len() implies (#[trigger] e.components[k]).identity
            != prev by {
            if e.components[k].identity == prev {
                assert(entity_has_component(e, prev));
            }
        }
        lemma_migrate_components_noop(e.components, prev, to, schema);
        assert(migrate_entities(entities, prev, to, schema) =~= entities);
    }
}

/// Tag a run of mismatched field names with the entity they were found on.
fn tag_entity_mismatches(entity: u64, names: &Vec<u64>) -> (r: Vec<FieldMismatch>)
    ensures
        r@ == tag_mismatches(entity, names@),
{
    let mut out: Vec<FieldMismatch> = Vec::new();
    let mut i: usize = 0;
    assert(names@.take(0) =~= Seq::<u64>::empty());
    while i < names.len()
        invariant
            0 <= i <= names@.len(),
            out@ == tag_mismatches(entity, names@.take(i as int)),
        decreases names@.len() - i,
    {
        proof {
            assert(names@.take(i + 1).drop_last() =~= names@.take(i as int));
            assert(names@.take(i + 1).last() == names@[i as int]);
        }
        out.push(FieldMismatch { entity, field_name: names[i] });
        i = i + 1;
    }
    assert(names@.take(i as int) =~= names@);
    out
}

} // verus!
