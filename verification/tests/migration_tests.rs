use hot_patch_core::migration::{
    migrate_component, register_migratable_components, sweep_migrations, FieldMismatch,
    HotPatchMigrate, MigrationOutcome, MigrationRegistry, MissingCapability, TypeInfo,
    TypeRegistry,
};
use hot_patch_core::schema::{
    migrate_struct, DynStruct, Field, FieldDecl, FieldValue, Schema, TypeTag,
};
use hot_patch_core::world::{Component, World};

const FIELD_A: u64 = 1;
const FIELD_B: u64 = 2;
const FIELD_C: u64 = 3;
const OLD_ID: u64 = 10;
const NEW_ID: u64 = 20;

fn old_value() -> DynStruct {
    DynStruct {
        fields: vec![
            Field { name: FIELD_A, value: FieldValue::IntVal(5) },
            Field { name: FIELD_B, value: FieldValue::TextVal(b"x".to_vec()) },
        ],
    }
}

fn new_schema() -> Schema {
    Schema {
        fields: vec![
            FieldDecl { name: FIELD_B, tag: TypeTag::Text },
            FieldDecl { name: FIELD_C, tag: TypeTag::Integer },
        ],
    }
}

fn registry_with_both() -> TypeRegistry {
    let mut types = TypeRegistry::new();
    types.add(TypeInfo {
        identity: OLD_ID,
        schema: Schema {
            fields: vec![
                FieldDecl { name: FIELD_A, tag: TypeTag::Integer },
                FieldDecl { name: FIELD_B, tag: TypeTag::Text },
            ],
        },
        reflect_component: true,
        reflect_default: true,
    });
    types.add(TypeInfo {
        identity: NEW_ID,
        schema: new_schema(),
        reflect_component: true,
        reflect_default: true,
    });
    types
}

fn assert_int(f: &Field, name: u64, expected: i64) {
    assert_eq!(f.name, name);
    match &f.value {
        FieldValue::IntVal(i) => assert_eq!(*i, expected),
        _ => panic!("field should hold an integer"),
    }
}

fn assert_text(f: &Field, name: u64, expected: &[u8]) {
    assert_eq!(f.name, name);
    match &f.value {
        FieldValue::TextVal(t) => assert_eq!(t.as_slice(), expected),
        _ => panic!("field should hold text"),
    }
}

#[test]
fn migrate_layout_keeps_matching_fields_and_defaults_new_ones() {
    // Old layout {a: int, b: text} with a = 5, b = "x";
    // new layout {b: text, c: int}: b keeps "x", c defaults to 0, a is gone.
    let (migrated, mismatches) = migrate_struct(&old_value(), &new_schema());
    assert_eq!(migrated.fields.len(), 2);
    assert_text(&migrated.fields[0], FIELD_B, b"x");
    assert_int(&migrated.fields[1], FIELD_C, 0);
    assert!(mismatches.is_empty());
}

#[test]
fn migrate_type_mismatch_falls_back_to_default_and_reports() {
    // The old b has the right name but holds an integer; the new layout wants
    // text: the field stays at its default and the mismatch is reported.
    let old = DynStruct {
        fields: vec![Field { name: FIELD_B, value: FieldValue::IntVal(9) }],
    };
    let (migrated, mismatches) = migrate_struct(&old, &new_schema());
    assert_text(&migrated.fields[0], FIELD_B, b"");
    assert_int(&migrated.fields[1], FIELD_C, 0);
    assert_eq!(mismatches, vec![FIELD_B]);
}

#[test]
fn migrate_component_rewrites_the_entity() {
    let mut world = World::new();
    let entity = world.spawn(None, vec![Component { identity: OLD_ID, value: old_value() }]);
    let types = registry_with_both();

    let report = migrate_component(&mut world, &types, OLD_ID, NEW_ID);
    assert_eq!(report.outcome, MigrationOutcome::Migrated { migrated_entities: 1 });
    assert!(report.mismatches.is_empty());

    assert_eq!(world.entity_count(), 1);
    let e = &world.entities[0];
    assert_eq!(e.id, entity);
    assert_eq!(e.components.len(), 1);
    let c = &e.components[0];
    assert_eq!(c.identity, NEW_ID);
    assert_text(&c.value.fields[0], FIELD_B, b"x");
    assert_int(&c.value.fields[1], FIELD_C, 0);
}

#[test]
fn migrate_component_reports_field_mismatches_with_entity() {
    let mut world = World::new();
    let entity = world.spawn(
        None,
        vec![Component {
            identity: OLD_ID,
            value: DynStruct {
                fields: vec![Field { name: FIELD_B, value: FieldValue::BoolVal(true) }],
            },
        }],
    );
    let types = registry_with_both();

    let report = migrate_component(&mut world, &types, OLD_ID, NEW_ID);
    assert_eq!(report.outcome, MigrationOutcome::Migrated { migrated_entities: 1 });
    assert_eq!(report.mismatches, vec![FieldMismatch { entity, field_name: FIELD_B }]);
}

#[test]
fn missing_capability_skips_and_touches_nothing() {
    let mut world = World::new();
    world.spawn(None, vec![Component { identity: OLD_ID, value: old_value() }]);

    let mut types = TypeRegistry::new();
    types.add(TypeInfo {
        identity: OLD_ID,
        schema: Schema { fields: vec![] },
        reflect_component: true,
        reflect_default: true,
    });
    types.add(TypeInfo {
        identity: NEW_ID,
        schema: new_schema(),
        reflect_component: true,
        reflect_default: false,
    });

    let report = migrate_component(&mut world, &types, OLD_ID, NEW_ID);
    assert_eq!(
        report.outcome,
        MigrationOutcome::Skipped { missing: MissingCapability::TargetDefaultConstruction },
    );
    assert!(report.mismatches.is_empty());
    assert_eq!(world.entities[0].components[0].identity, OLD_ID);
}

#[test]
fn unregistered_source_skips_with_component_reflection_missing() {
    let mut world = World::new();
    let types = TypeRegistry::new();
    let report = migrate_component(&mut world, &types, OLD_ID, NEW_ID);
    assert_eq!(
        report.outcome,
        MigrationOutcome::Skipped { missing: MissingCapability::SourceComponentReflection },
    );
}

#[test]
fn no_holder_sweep_only_updates_tracked_identity() {
    let mut world = World::new();
    // One entity, but it carries an unrelated component.
    world.spawn(None, vec![Component { identity: 99, value: DynStruct { fields: vec![] } }]);
    let types = registry_with_both();

    let mut registry = MigrationRegistry::new();
    registry.register(OLD_ID);
    assert_eq!(registry.len(), 1);

    // The resolver now reports the new identity: a migration fires, finds no
    // holder, and only the tracked identity moves.
    let reports = sweep_migrations(&mut world, &mut registry, &types, &vec![NEW_ID]);
    assert_eq!(reports.len(), 1);
    assert_eq!(reports[0].outcome, MigrationOutcome::Migrated { migrated_entities: 0 });

    assert_eq!(world.entity_count(), 1);
    assert_eq!(world.entities[0].components[0].identity, 99);
    assert_eq!(registry.len(), 1);
    assert_eq!(registry.tracked_at(0), NEW_ID);
}

#[test]
fn unchanged_identity_sweeps_to_a_noop() {
    let mut world = World::new();
    world.spawn(None, vec![Component { identity: OLD_ID, value: old_value() }]);
    let types = registry_with_both();

    let mut registry = MigrationRegistry::new();
    registry.register(OLD_ID);

    let reports = sweep_migrations(&mut world, &mut registry, &types, &vec![OLD_ID]);
    assert!(reports.is_empty());
    assert_eq!(world.entities[0].components[0].identity, OLD_ID);
    assert_eq!(registry.tracked_at(0), OLD_ID);
}

#[test]
fn sweep_handles_changed_and_unchanged_entries_in_order() {
    let mut world = World::new();
    world.spawn(None, vec![Component { identity: OLD_ID, value: old_value() }]);
    let types = registry_with_both();

    let mut registry = MigrationRegistry::new();
    registry.register(77);
    registry.register(OLD_ID);

    // Entry 77 is unchanged; the greeter entry moved to the new identity.
    let reports = sweep_migrations(&mut world, &mut registry, &types, &vec![77, NEW_ID]);
    assert_eq!(reports.len(), 1);
    assert_eq!(reports[0].outcome, MigrationOutcome::Migrated { migrated_entities: 1 });
    assert_eq!(registry.tracked_at(0), 77);
    assert_eq!(registry.tracked_at(1), NEW_ID);
    assert_eq!(world.entities[0].components[0].identity, NEW_ID);
}

#[test]
fn register_is_idempotent() {
    let mut registry = MigrationRegistry::new();
    registry.register(OLD_ID);
    registry.register(OLD_ID);
    assert_eq!(registry.len(), 1);
}

#[test]
fn announced_types_register_once_each() {
    let mut registry = MigrationRegistry::new();
    registry.register(OLD_ID);
    register_migratable_components(&mut registry, &vec![OLD_ID, NEW_ID, NEW_ID]);
    assert_eq!(registry.len(), 2);
    assert_eq!(registry.tracked_at(0), OLD_ID);
    assert_eq!(registry.tracked_at(1), NEW_ID);
}

struct Marker;

impl HotPatchMigrate for Marker {
    fn current_type_id() -> u64 {
        42
    }
}

#[test]
fn register_type_tracks_the_resolved_identity() {
    let mut registry = MigrationRegistry::new();
    registry.register_type::<Marker>();
    assert_eq!(registry.len(), 1);
    assert_eq!(registry.tracked_at(0), 42);
}
