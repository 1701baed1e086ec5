//! A plain-value model of the shared world: entities carrying components,
//! global resources, and the deferred command buffer whose queued operations
//! are committed only after a wrapped function returns.
//!
//! Components and resources are identified by opaque `u64` type-identity
//! tokens; an entity optionally remembers the source position it was spawned
//! at, which the reload-position heuristic reads.

use vstd::prelude::*;
use vstd::pervasive::VecAdditionalExecFns;
use crate::schema::{DynStruct, FieldModel};

verus! {

/// Source position at which an entity was spawned: a file token and a line.
#[derive(Clone, Copy, Debug, PartialEq, Eq, Structural)]
pub struct SpawnLocation {
    pub file: u64,
    pub line: u64,
}

/// A typed data record attached to an entity, or a global resource: a type
/// identity together with the record's current value.
pub struct Component {
    pub identity: u64,
    pub value: DynStruct,
}

/// The mathematical value of a component.
pub struct ComponentModel {
    pub identity: u64,
    pub fields: Seq<FieldModel>,
}

impl View for Component {
    type V = ComponentModel;

    open spec fn view(&self) -> ComponentModel {
        ComponentModel { identity: self.identity, fields: self.value@ }
    }
}

/// One live entity: its id, where it was spawned (when known), and its
/// components.
pub struct Entity {
    pub id: u64,
    pub spawned_at: Option<SpawnLocation>,
    pub components: Vec<Component>,
}

/// The mathematical value of an entity.
pub struct EntityModel {
    pub id: u64,
    pub spawned_at: Option<SpawnLocation>,
    pub components: Seq<ComponentModel>,
}

impl View for Entity {
    type V = EntityModel;

    open spec fn view(&self) -> EntityModel {
        EntityModel {
            id: self.id,
            spawned_at: self.spawned_at,
            components: self.components@.map_values(|c: Component| c@),
        }
    }
}

/// The shared world: every entity, every resource, and the id the next spawn
/// will use.
pub struct World {
    pub entities: Vec<Entity>,
    pub resources: Vec<Component>,
    pub next_id: u64,
}

/// The mathematical value of a world.
pub struct WorldModel {
    pub entities: Seq<EntityModel>,
    pub resources: Seq<ComponentModel>,
    pub next_id: u64,
}

impl View for World {
    type V = WorldModel;

    open spec fn view(&self) -> WorldModel {
        WorldModel {
            entities: self.entities@.map_values(|e: Entity| e@),
            resources: self.resources@.map_values(|c: Component| c@),
            next_id: self.next_id,
        }
    }
}

/// Whether an entity carries a component of the given type identity.
pub open spec fn entity_has_component(e: EntityModel, identity: u64) -> bool {
    exists|i: int| 0 <= i < e.components.len() && e.components[i].identity == identity
}

/// How many entities carry a component of the given type identity.
pub open spec fn count_with_component(entities: Seq<EntityModel>, identity: u64) -> nat
    decreases entities.len(),
{
    if entities.len() == 0 {
        0
    } else {
        count_with_component(entities.drop_last(), identity) + (if entity_has_component(
            entities.last(),
            identity,
        ) {
            1nat
        } else {
            0nat
        })
    }
}

/// The ids of the entities carrying the given type identity, in world order.
pub open spec fn ids_with_component(entities: Seq<EntityModel>, identity: u64) -> Seq<u64>
    decreases entities.len(),
{
    if entities.len() == 0 {
        Seq::empty()
    } else {
        ids_with_component(entities.drop_last(), identity) + (if entity_has_component(
            entities.last(),
            identity,
        ) {
            seq![entities.last().id]
        } else {
            Seq::empty()
        })
    }
}

/// Whether any live entity carries the given type identity.
pub open spec fn world_has_component(w: WorldModel, identity: u64) -> bool {
    exists|i: int|
        0 <= i < w.entities.len() && entity_has_component(#[trigger] w.entities[i], identity)
}

/// Whether a resource of the given type identity is present.
pub open spec fn resource_present(w: WorldModel, identity: u64) -> bool {
    exists|i: int| 0 <= i < w.resources.len() && w.resources[i].identity == identity
}

/// Index of the first component with this identity (meaningful only when one
/// exists).
pub open spec fn index_of_component(cs: Seq<ComponentModel>, identity: u64) -> int
    decreases cs.len(),
{
    if cs.len() == 0 {
        0
    } else if cs[0].identity == identity {
        0
    } else {
        1 + index_of_component(cs.skip(1), identity)
    }
}

/// Index of the first entity with this id (meaningful only when one exists).
pub open spec fn index_of_entity(entities: Seq<EntityModel>, id: u64) -> int
    decreases entities.len(),
{
    if entities.len() == 0 {
        0
    } else if entities[0].id == id {
        0
    } else {
        1 + index_of_entity(entities.skip(1), id)
    }
}

/// A scan that finds its first match at position `i` agrees with
/// `index_of_component`.
pub proof fn lemma_index_of_component(cs: Seq<ComponentModel>, identity: u64, i: int)
    requires
        0 <= i < cs.len(),
        forall|j: int| 0 <= j < i ==> (#[trigger] cs[j]).identity != identity,
        cs[i].identity == identity,
    ensures
        index_of_component(cs, identity) == i,
    decreases i,
{
    if i > 0 {
        assert(cs[0].identity != identity);
        assert forall|j: int| 0 <= j < i - 1 implies (#[trigger] cs.skip(1)[j]).identity
            != identity by {
            assert(cs.skip(1)[j] == cs[j + 1]);
        }
        assert(cs.skip(1)[i - 1] == cs[i]);
        lemma_index_of_component(cs.skip(1), identity, i - 1);
    }
}

/// A scan that finds its first match at position `i` agrees with
/// `index_of_entity`.
pub proof fn lemma_index_of_entity(entities: Seq<EntityModel>, id: u64, i: int)
    requires
        0 <= i < entities.len(),
        forall|j: int| 0 <= j < i ==> (#[trigger] entities[j]).id != id,
        entities[i].id == id,
    ensures
        index_of_entity(entities, id) == i,
    decreases i,
{
    if i > 0 {
        assert(entities[0].id != id);
        assert forall|j: int| 0 <= j < i - 1 implies (#[trigger] entities.skip(1)[j]).id != id by {
            assert(entities.skip(1)[j] == entities[j + 1]);
        }
        assert(entities.skip(1)[i - 1] == entities[i]);
        lemma_index_of_entity(entities.skip(1), id, i - 1);
    }
}

/// Components after inserting `c`: the first component of the same identity
/// is replaced; with none present, `c` is appended.
pub open spec fn insert_into_components(
    cs: Seq<ComponentModel>,
    c: ComponentModel,
) -> Seq<ComponentModel> {
    if exists|i: int| 0 <= i < cs.len() && (#[trigger] cs[i]).identity == c.identity {
        cs.update(index_of_component(cs, c.identity), c)
    } else {
        cs.push(c)
    }
}

/// Entities kept by a predicate, in their original order.
pub open spec fn keep_entities(
    entities: Seq<EntityModel>,
    keep: spec_fn(EntityModel) -> bool,
) -> Seq<EntityModel>
    decreases entities.len(),
{
    if entities.len() == 0 {
        Seq::empty()
    } else {
        keep_entities(entities.drop_last(), keep) + (if keep(entities.last()) {
            seq![entities.last()]
        } else {
            Seq::empty()
        })
    }
}

/// A queued, deferred operation on the world.  Commands are buffered while a
/// wrapped function runs and committed in order afterwards.
pub enum Command {
    /// Spawn a fresh entity with these components, remembering where.
    Spawn { spawned_at: Option<SpawnLocation>, components: Vec<Component> },
    /// Remove every entity with this id.
    Despawn { entity: u64 },
    /// Give the first entity with this id a component, replacing one of the
    /// same identity; entities unknown by that id are left alone.
    Insert { entity: u64, component: Component },
    /// Install or replace a global resource.
    InsertResource { resource: Component },
}

/// The mathematical value of a command.
pub enum CommandModel {
    Spawn { spawned_at: Option<SpawnLocation>, components: Seq<ComponentModel> },
    Despawn { entity: u64 },
    Insert { entity: u64, component: ComponentModel },
    InsertResource { resource: ComponentModel },
}

impl View for Command {
    type V = CommandModel;

    open spec fn view(&self) -> CommandModel {
        match self {
            Command::Spawn { spawned_at, components } => CommandModel::Spawn {
                spawned_at: *spawned_at,
                components: components@.map_values(|c: Component| c@),
            },
            Command::Despawn { entity } => CommandModel::Despawn { entity: *entity },
            Command::Insert { entity, component } => CommandModel::Insert {
                entity: *entity,
                component: component@,
            },
            Command::InsertResource { resource } => CommandModel::InsertResource {
                resource: resource@,
            },
        }
    }
}

/// The world after one command.
pub open spec fn apply_command_model(w: WorldModel, c: CommandModel) -> WorldModel {
    match c {
        CommandModel::Spawn { spawned_at, components } => WorldModel {
            entities: w.entities.push(
                EntityModel { id: w.next_id, spawned_at, components },
            ),
            resources: w.resources,
            next_id: ((w.next_id + 1) as u64),
        },
        CommandModel::Despawn { entity } => WorldModel {
            entities: keep_entities(w.entities, |e: EntityModel| e.id != entity),
            resources: w.resources,
            next_id: w.next_id,
        },
        CommandModel::Insert { entity, component } => if exists|i: int|
            0 <= i < w.entities.len() && (#[trigger] w.entities[i]).id == entity {
            let idx = index_of_entity(w.entities, entity);
            WorldModel {
                entities: w.entities.update(
                    idx,
                    EntityModel {
                        id: w.entities[idx].id,
                        spawned_at: w.entities[idx].spawned_at,
                        components: insert_into_components(w.entities[idx].components, component),
                    },
                ),
                resources: w.resources,
                next_id: w.next_id,
            }
        } else {
            w
        },
        CommandModel::InsertResource { resource } => WorldModel {
            entities: w.entities,
            resources: insert_into_components(w.resources, resource),
            next_id: w.next_id,
        },
    }
}

/// The world after a whole buffer of commands, committed in order.
pub open spec fn apply_commands_model(w: WorldModel, cmds: Seq<CommandModel>) -> WorldModel
    decreases cmds.len(),
{
    if cmds.len() == 0 {
        w
    } else {
        apply_command_model(apply_commands_model(w, cmds.drop_last()), cmds.last())
    }
}

/// Whether an entity carries a component of this type identity.
pub fn entity_has(e: &Entity, identity: u64) -> (r: bool)
    ensures
        r == entity_has_component(e@, identity),
{
    let mut i: usize = 0;
    while i < e.components.len()
        invariant
            0 <= i <= e.components@.len(),
            forall|j: int| 0 <= j < i ==> (#[trigger] e@.components[j]).identity != identity,
        decreases e.components@.len() - i,
    {
        if e.components[i].identity == identity {
            assert(e@.components[i as int].identity == identity);
            return true;
        }
        i = i + 1;
    }
    false
}

impl World {
    /// A fresh world: no entities, no resources, ids starting at zero.
    pub fn new() -> (w: Self)
        ensures
            w@.entities =~= Seq::<EntityModel>::empty(),
            w@.resources =~= Seq::<ComponentModel>::empty(),
            w@.next_id == 0,
    {
        World { entities: Vec::new(), resources: Vec::new(), next_id: 0 }
    }

    /// How many live entities the world holds.
    pub fn entity_count(&self) -> (r: usize)
        ensures
            r == self@.entities.len(),
    {
        self.entities.len()
    }

    /// How many entities carry a component of this type identity.
    pub fn count_matching(&self, identity: u64) -> (r: usize)
        ensures
            r == count_with_component(self@.entities, identity),
    {
        let mut count: usize = 0;
        let mut i: usize = 0;
        assert(self@.entities.take(0) =~= Seq::<EntityModel>::empty());
        while i < self.entities.len()
            invariant
                0 <= i <= self@.entities.len(),
                count <= i,
                count == count_with_component(self@.entities.take(i as int), identity),
            decreases self@.entities.len() - i,
        {
            proof {
                assert(self@.entities.take(i + 1).drop_last() =~= self@.entities.take(i as int));
                assert(self@.entities.take(i + 1).last() == self@.entities[i as int]);
            }
            if entity_has(&self.entities[i], identity) {
                count = count + 1;
            }
            i = i + 1;
        }
        assert(self@.entities.take(i as int) =~= self@.entities);
        count
    }

    /// Whether a resource of this type identity is present.
    pub fn has_resource(&self, identity: u64) -> (r: bool)
        ensures
            r == resource_present(self@, identity),
    {
        let mut i: usize = 0;
        while i < self.resources.len()
            invariant
                0 <= i <= self.resources@.len(),
                forall|j: int| 0 <= j < i ==> (#[trigger] self@.resources[j]).identity != identity,
            decreases self.resources@.len() - i,
        {
            if self.resources[i].identity == identity {
                assert(self@.resources[i as int].identity == identity);
                return true;
            }
            i = i + 1;
        }
        false
    }

    /// The resource of this type identity, when one is present: how a
    /// declared resource parameter — required or optional — is resolved.
    pub fn resource<'a>(&'a self, identity: u64) -> (r: Option<&'a Component>)
        ensures
            r is Some <==> resource_present(self@, identity),
            r matches Some(c) ==> 0 <= index_of_component(self@.resources, identity)
                < self@.resources.len() && c@ == self@.resources[index_of_component(
                self@.resources,
                identity,
            )],
    {
        let ghost all = self@.resources;
        let mut i: usize = 0;
        while i < self.resources.len()
            invariant
                0 <= i <= self.resources@.len(),
                all == self@.resources,
                forall|j: int| 0 <= j < i ==> (#[trigger] all[j]).identity != identity,
            decreases self.resources@.len() - i,
        {
            if self.resources[i].identity == identity {
                proof {
                    assert(all[i as int].identity == identity);
                    lemma_index_of_component(all, identity, i as int);
                }
                return Some(&self.resources[i]);
            }
            i = i + 1;
        }
        None
    }

    /// Spawn an entity.  Returns its id.
    pub fn spawn(&mut self, spawned_at: Option<SpawnLocation>, components: Vec<Component>) -> (id:
        u64)
        requires
            old(self)@.next_id < u64::MAX,
        ensures
            final(self)@ == apply_command_model(
                old(self)@,
                CommandModel::Spawn {
                    spawned_at,
                    components: components@.map_values(|c: Component| c@),
                },
            ),
            id == old(self)@.next_id,
    {
        let id = self.next_id;
        let ghost cm = components@.map_values(|c: Component| c@);
        let e = Entity { id, spawned_at, components };
        let ghost em = e@;
        let ghost prev = self.entities@;
        self.entities.push(e);
        self.next_id = self.next_id + 1;
        proof {
            assert(em == (EntityModel { id, spawned_at, components: cm }));
            assert(self@.entities =~= old(self)@.entities.push(em));
            assert(self@ == apply_command_model(
                old(self)@,
                CommandModel::Spawn { spawned_at, components: cm },
            ));
        }
        id
    }

    /// Remove every entity with this id; unknown ids are a no-op.
    pub fn despawn(&mut self, entity: u64)
        ensures
            final(self)@ == apply_command_model(old(self)@, CommandModel::Despawn { entity }),
    {
        let ghost orig = self@.entities;
        let mut kept: Vec<Entity> = Vec::new();
        let mut i: usize = 0;
        assert(orig.take(0) =~= Seq::<EntityModel>::empty());
        while i < self.entities.len()
            invariant
                0 <= i <= self.entities@.len(),
                self.entities@ == old(self).entities@,
                self.resources@ == old(self).resources@,
                self.next_id == old(self).next_id,
                orig == self@.entities,
                kept@.map_values(|e: Entity| e@) == keep_entities(
                    orig.take(i as int),
                    |e: EntityModel| e.id != entity,
                ),
            decreases self.entities@.len() - i,
        {
            proof {
                assert(orig.take(i + 1).drop_last() =~= orig.take(i as int));
                assert(orig.take(i + 1).last() == orig[i as int]);
            }
            let ghost prev_kept = kept@;
            if self.entities[i].id != entity {
                let e = duplicate_entity(&self.entities[i]);
                proof {
                    assert(orig[i as int] == self.entities@[i as int]@);
                }
                kept.push(e);
                proof {
                    assert(kept@.map_values(|x: Entity| x@) =~= keep_entities(
                        orig.take(i + 1),
                        |x: EntityModel| x.id != entity,
                    ));
                }
            } else {
                proof {
                    assert(orig[i as int] == self.entities@[i as int]@);
                    assert(kept@.map_values(|x: Entity| x@) =~= keep_entities(
                        orig.take(i + 1),
                        |x: EntityModel| x.id != entity,
                    ));
                }
            }
            i = i + 1;
        }
        assert(orig.take(i as int) =~= orig);
        self.entities = kept;
        assert(self@ == apply_command_model(old(self)@, CommandModel::Despawn { entity }));
    }

    /// Give the first entity with this id a component, replacing one of the
    /// same identity if present.  Unknown ids are a no-op.
    pub fn insert_component(&mut self, entity: u64, component: Component)
        ensures
            final(self)@ == apply_command_model(
                old(self)@,
                CommandModel::Insert { entity, component: component@ },
            ),
    {
        let ghost orig = self@.entities;
        let mut i: usize = 0;
        while i < self.entities.len()
            invariant
                0 <= i <= self.entities@.len(),
                self@ == old(self)@,
                forall|j: int| 0 <= j < i ==> (#[trigger] orig[j]).id != entity,
                orig == self@.entities,
            decreases self.entities@.len() - i,
        {
            if self.entities[i].id == entity {
                proof {
                    assert(orig[i as int].id == entity);
                    lemma_index_of_entity(orig, entity, i as int);
                }
                let ent = &mut self.entities[i];
                let ghost prev_ent = ent@;
                insert_component_into(ent, component);
                proof {
                    assert(self@.entities =~= apply_command_model(
                        old(self)@,
                        CommandModel::Insert { entity, component: component@ },
                    ).entities);
                }
                return ;
            }
            i = i + 1;
        }
    }

    /// Install or replace a global resource.
    pub fn insert_resource(&mut self, resource: Component)
        ensures
            final(self)@ == apply_command_model(
                old(self)@,
                CommandModel::InsertResource { resource: resource@ },
            ),
    {
        let ghost orig = self@.resources;
        let mut i: usize = 0;
        while i < self.resources.len()
            invariant
                0 <= i <= self.resources@.len(),
                self@ == old(self)@,
                forall|j: int| 0 <= j < i ==> (#[trigger] orig[j]).identity != resource@.identity,
                orig == self@.resources,
            decreases self.resources@.len() - i,
        {
            if self.resources[i].identity == resource.identity {
                proof {
                    assert(orig[i as int].identity == resource@.identity);
                    lemma_index_of_component(orig, resource@.identity, i as int);
                }
                self.resources.set(i, resource);
                proof {
                    assert(self@.resources =~= orig.update(i as int, resource@));
                    assert(self@.resources =~= insert_into_components(orig, resource@));
                }
                return ;
            }
            i = i + 1;
        }
        let ghost prev = self.resources@;
        self.resources.push(resource);
        proof {
            assert(self@.resources =~= orig.push(resource@));
            assert(!(exists|k: int|
                0 <= k < orig.len() && (#[trigger] orig[k]).identity == resource@.identity));
            assert(self@.resources =~= insert_into_components(orig, resource@));
        }
    }

    /// Commit a whole buffer of queued commands, in order.
    pub fn apply_commands(&mut self, cmds: Vec<Command>)
        requires
            old(self)@.next_id + cmds@.len() <= u64::MAX,
        ensures
            final(self)@ == apply_commands_model(
                old(self)@,
                cmds@.map_values(|c: Command| c@),
            ),
    {
        let ghost all = cmds@.map_values(|c: Command| c@);
        let mut rest = cmds;
        let total = rest.len();
        let mut i: usize = 0;
        assert(all.take(0) =~= Seq::<CommandModel>::empty());
        while rest.len() > 0
            invariant
                0 <= i <= all.len(),
                all.len() == total,
                i + rest@.len() == all.len(),
                rest@.map_values(|c: Command| c@) == all.skip(i as int),
                self@ == apply_commands_model(old(self)@, all.take(i as int)),
                self@.next_id + rest@.len() <= u64::MAX,
            decreases rest@.len(),
        {
            let ghost before = rest@;
            let c = rest.remove(0);
            let ghost cv = c@;
            proof {
                assert(before.map_values(|x: Command| x@)[0] == before[0]@);
                assert(cv == all[i as int]);
                assert(rest@ == before.remove(0));
                assert(before.remove(0) =~= before.skip(1));
                assert forall|j: int| 0 <= j < rest@.len() implies rest@.map_values(
                    |x: Command| x@,
                )[j] == #[trigger] all.skip(i + 1)[j] by {
                    assert(rest@[j] == before[j + 1]);
                    assert(before.map_values(|x: Command| x@)[j + 1] == before[j + 1]@);
                    assert(all.skip(i as int)[j + 1] == all[i + 1 + j]);
                    assert(all.skip(i + 1)[j] == all[i + 1 + j]);
                }
                assert(rest@.map_values(|x: Command| x@) =~= all.skip(i + 1));
                assert(all.take(i + 1).drop_last() =~= all.take(i as int));
                assert(all.take(i + 1).last() == all[i as int]);
            }
            let ghost mid = self@;
            match c {
                Command::Spawn { spawned_at, components } => {
                    let ghost cm = components@.map_values(|x: Component| x@);
                    proof {
                        assert(cv == (CommandModel::Spawn { spawned_at, components: cm }));
                    }
                    self.spawn(spawned_at, components);
                },
                Command::Despawn { entity } => {
                    proof {
                        assert(cv == (CommandModel::Despawn { entity }));
                    }
                    self.despawn(entity);
                },
                Command::Insert { entity, component } => {
                    proof {
                        assert(cv == (CommandModel::Insert { entity, component: component@ }));
                    }
                    self.insert_component(entity, component);
                },
                Command::InsertResource { resource } => {
                    proof {
                        assert(cv == (CommandModel::InsertResource { resource: resource@ }));
                    }
                    self.insert_resource(resource);
                },
            }
            proof {
                assert(self@ == apply_command_model(mid, cv));
                assert(self@ == apply_commands_model(old(self)@, all.take(i + 1)));
            }
            i = i + 1;
        }
        assert(all.take(i as int) =~= all);
    }
}

/// An exact copy of a component.
pub fn duplicate_component(c: &Component) -> (r: Component)
    ensures
        r@ == c@,
{
    let ghost mapped = c.value.fields@.map_values(|f: crate::schema::Field| f@);
    let mut fields: Vec<crate::schema::Field> = Vec::new();
    let mut i: usize = 0;
    assert(fields@.map_values(|f: crate::schema::Field| f@) =~= mapped.take(0));
    while i < c.value.fields.len()
        invariant
            0 <= i <= c.value.fields@.len(),
            mapped == c.value.fields@.map_values(|f: crate::schema::Field| f@),
            fields@.map_values(|f: crate::schema::Field| f@) == mapped.take(i as int),
        decreases c.value.fields@.len() - i,
    {
        let f = &c.value.fields[i];
        let dup = crate::schema::duplicate_value(&f.value);
        let fnew = crate::schema::Field { name: f.name, value: dup };
        proof {
            assert(mapped[i as int] == c.value.fields@[i as int]@);
            assert(fnew@ == mapped[i as int]);
        }
        let ghost prev = fields@;
        fields.push(fnew);
        proof {
            assert(fields@ == prev.push(fnew));
            assert(prev.map_values(|f: crate::schema::Field| f@).len() == prev.len());
            assert(prev.len() == i);
            assert(fields@.len() == i + 1);
            assert forall|j: int| 0 <= j < i + 1 implies fields@.map_values(
                |f: crate::schema::Field| f@,
            )[j] == #[trigger] mapped.take(i + 1)[j] by {
                if j < i {
                    assert(fields@[j] == prev[j]);
                    assert(prev.map_values(|f: crate::schema::Field| f@)[j] == mapped.take(
                        i as int,
                    )[j]);
                } else {
                    assert(fields@[j] == fnew);
                }
            }
            assert(fields@.map_values(|f: crate::schema::Field| f@) =~= mapped.take(i + 1));
        }
        i = i + 1;
    }
    proof {
        assert(mapped.take(i as int) =~= mapped);
        assert(mapped == c.value@);
    }
    Component { identity: c.identity, value: DynStruct { fields } }
}

/// An exact copy of an entity.
pub fn duplicate_entity(e: &Entity) -> (r: Entity)
    ensures
        r@ == e@,
{
    let ghost mapped = e.components@.map_values(|c: Component| c@);
    let mut components: Vec<Component> = Vec::new();
    let mut i: usize = 0;
    assert(components@.map_values(|c: Component| c@) =~= mapped.take(0));
    while i < e.components.len()
        invariant
            0 <= i <= e.components@.len(),
            mapped == e.components@.map_values(|c: Component| c@),
            components@.map_values(|c: Component| c@) == mapped.take(i as int),
        decreases e.components@.len() - i,
    {
        let cnew = duplicate_component(&e.components[i]);
        proof {
            assert(mapped[i as int] == e.components@[i as int]@);
            assert(cnew@ == mapped[i as int]);
        }
        let ghost prev = components@;
        components.push(cnew);
        proof {
            assert(components@ == prev.push(cnew));
            assert(prev.map_values(|c: Component| c@).len() == prev.len());
            assert(prev.len() == i);
            assert(components@.len() == i + 1);
            assert forall|j: int| 0 <= j < i + 1 implies components@.map_values(
                |c: Component| c@,
            )[j] == #[trigger] mapped.take(i + 1)[j] by {
                if j < i {
                    assert(components@[j] == prev[j]);
                    assert(prev.map_values(|c: Component| c@)[j] == mapped.take(i as int)[j]);
                } else {
                    assert(components@[j] == cnew);
                }
            }
            assert(components@.map_values(|c: Component| c@) =~= mapped.take(i + 1));
        }
        i = i + 1;
    }
    proof {
        assert(mapped.take(i as int) =~= mapped);
        assert(mapped == e@.components);
    }
    Entity { id: e.id, spawned_at: e.spawned_at, components }
}

/// Insert a component into one entity, replacing the first of the same
/// identity if present.
fn insert_component_into(e: &mut Entity, component: Component)
    ensures
        final(e)@.id == old(e)@.id,
        final(e)@.spawned_at == old(e)@.spawned_at,
        final(e)@.components == insert_into_components(old(e)@.components, component@),
{
    let ghost orig = e@.components;
    let mut i: usize = 0;
    while i < e.components.len()
        invariant
            0 <= i <= e.components@.len(),
            e@ == old(e)@,
            forall|j: int| 0 <= j < i ==> (#[trigger] orig[j]).identity != component@.identity,
            orig == e@.components,
        decreases e.components@.len() - i,
    {
        if e.components[i].identity == component.identity {
            proof {
                assert(orig[i as int].identity == component@.identity);
                lemma_index_of_component(orig, component@.identity, i as int);
            }
            e.components.set(i, component);
            proof {
                assert(e@.components =~= orig.update(i as int, component@));
                assert(e@.components =~= insert_into_components(orig, component@));
            }
            return ;
        }
        i = i + 1;
    }
    e.components.push(component);
    proof {
        assert(e@.components =~= orig.push(component@));
        assert(!(exists|k: int|
            0 <= k < orig.len() && (#[trigger] orig[k]).identity == component@.identity));
        assert(e@.components =~= insert_into_components(orig, component@));
    }
}

} // verus!
