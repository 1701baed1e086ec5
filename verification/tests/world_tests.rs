use hot_patch_core::schema::{DynStruct, Field, FieldValue};
use hot_patch_core::world::{Command, Component, World};

fn component(identity: u64, n: i64) -> Component {
    Component {
        identity,
        value: DynStruct { fields: vec![Field { name: 1, value: FieldValue::IntVal(n) }] },
    }
}

fn int_field(c: &Component) -> i64 {
    match &c.value.fields[0].value {
        FieldValue::IntVal(i) => *i,
        _ => panic!("field should hold an integer"),
    }
}

#[test]
fn spawn_hands_out_sequential_ids() {
    let mut world = World::new();
    let a = world.spawn(None, vec![]);
    let b = world.spawn(None, vec![]);
    assert_eq!(a, 0);
    assert_eq!(b, 1);
    assert_eq!(world.entity_count(), 2);
}

#[test]
fn despawn_removes_only_that_entity() {
    let mut world = World::new();
    let a = world.spawn(None, vec![]);
    let b = world.spawn(None, vec![]);
    world.despawn(a);
    assert_eq!(world.entity_count(), 1);
    assert_eq!(world.entities[0].id, b);
    // Despawning an unknown id is a no-op.
    world.despawn(77);
    assert_eq!(world.entity_count(), 1);
}

#[test]
fn insert_replaces_a_component_of_the_same_identity() {
    let mut world = World::new();
    let e = world.spawn(None, vec![component(3, 1)]);
    world.insert_component(e, component(3, 2));
    assert_eq!(world.entities[0].components.len(), 1);
    assert_eq!(int_field(&world.entities[0].components[0]), 2);

    world.insert_component(e, component(4, 9));
    assert_eq!(world.entities[0].components.len(), 2);
}

#[test]
fn insert_resource_replaces_by_identity() {
    let mut world = World::new();
    world.insert_resource(component(5, 1));
    world.insert_resource(component(5, 2));
    assert_eq!(world.resources.len(), 1);
    assert_eq!(int_field(&world.resources[0]), 2);
}

#[test]
fn command_buffers_commit_in_order() {
    let mut world = World::new();
    let e = world.spawn(None, vec![]);
    world.apply_commands(vec![
        Command::Insert { entity: e, component: component(3, 1) },
        Command::Insert { entity: e, component: component(3, 2) },
        Command::Spawn { spawned_at: None, components: vec![component(8, 0)] },
        Command::Despawn { entity: e },
    ]);
    assert_eq!(world.entity_count(), 1);
    assert_eq!(world.entities[0].components[0].identity, 8);
}
