use hot_patch_core::extract::{check_exclusive, extract_single, validate_params, Access, ParamDesc};
use hot_patch_core::harness::{
    patch_check, recheck_and_rerun, run_hot_system, HotSystem, SourceSpan, TickAction,
};
use hot_patch_core::dispatch::DispatchRegistry;
use hot_patch_core::macro_shape::{HotArgs, WorldParam};
use hot_patch_core::patch_channel::{AddressPair, JumpTable};
use hot_patch_core::reload::ReloadPositions;
use hot_patch_core::schema::DynStruct;
use hot_patch_core::trampoline::Trampoline;
use hot_patch_core::world::{Command, Component, World};

const GREET: u64 = 11;

fn greet_component() -> Component {
    Component { identity: GREET, value: DynStruct { fields: Vec::new() } }
}

fn single_system() -> HotSystem {
    HotSystem {
        params: vec![
            ParamDesc::Single { component: GREET, access: Access::Shared },
            ParamDesc::CommandBuffer,
        ],
        args: HotArgs { rerun_on_hot_patch: false, hot_patch_signature: false },
        world_param: WorldParam::NotWorld,
        span: SourceSpan { file: 1, line_start: 1, newlines: 0 },
    }
}

fn spawn_command() -> Command {
    Command::Spawn { spawned_at: None, components: vec![] }
}

#[test]
fn zero_matches_skips_without_side_effects() {
    let mut world = World::new();
    let mut positions = ReloadPositions::new();
    let action = run_hot_system(&mut world, &mut positions, &single_system(), vec![
        spawn_command(),
    ]);
    assert_eq!(action, TickAction::Skipped);
    assert_eq!(world.entity_count(), 0);
}

#[test]
fn two_matches_skip_without_side_effects() {
    let mut world = World::new();
    world.spawn(None, vec![greet_component()]);
    world.spawn(None, vec![greet_component()]);
    let mut positions = ReloadPositions::new();
    let action = run_hot_system(&mut world, &mut positions, &single_system(), vec![
        spawn_command(),
    ]);
    assert_eq!(action, TickAction::Skipped);
    assert_eq!(world.entity_count(), 2);
}

#[test]
fn one_match_executes_once() {
    let mut world = World::new();
    world.spawn(None, vec![greet_component()]);
    let mut positions = ReloadPositions::new();
    let action = run_hot_system(&mut world, &mut positions, &single_system(), vec![
        spawn_command(),
    ]);
    assert_eq!(action, TickAction::Executed);
    // The body's one buffered spawn was committed exactly once.
    assert_eq!(world.entity_count(), 2);
}

#[test]
fn whole_world_system_always_runs() {
    let mut world = World::new();
    let mut positions = ReloadPositions::new();
    let sys = HotSystem {
        params: vec![],
        args: HotArgs { rerun_on_hot_patch: false, hot_patch_signature: false },
        world_param: WorldParam::Mut,
        span: SourceSpan { file: 1, line_start: 1, newlines: 0 },
    };
    let action = run_hot_system(&mut world, &mut positions, &sys, vec![spawn_command()]);
    assert_eq!(action, TickAction::Executed);
    assert_eq!(world.entity_count(), 1);
}

#[test]
fn extract_single_resolves_the_one_match() {
    let mut world = World::new();
    world.spawn(None, vec![]);
    let id = world.spawn(None, vec![greet_component()]);
    assert_eq!(extract_single(&world, GREET), Some(id));

    world.spawn(None, vec![greet_component()]);
    assert_eq!(extract_single(&world, GREET), None);
}

#[test]
fn missing_required_resource_fails_validation() {
    let mut world = World::new();
    let params = vec![ParamDesc::Resource { resource: 5, access: Access::Shared }];
    assert!(!validate_params(&world, &params));

    world.insert_resource(Component { identity: 5, value: DynStruct { fields: Vec::new() } });
    assert!(validate_params(&world, &params));
}

#[test]
fn optional_resource_resolves_to_its_value_or_nothing() {
    let mut world = World::new();
    assert!(world.resource(5).is_none());
    world.insert_resource(Component { identity: 5, value: DynStruct { fields: Vec::new() } });
    let r = world.resource(5).expect("the resource was installed");
    assert_eq!(r.identity, 5);
}

#[test]
fn exclusive_borrows_must_not_overlap() {
    let both_write = vec![
        ParamDesc::Query { component: 3, access: Access::Exclusive },
        ParamDesc::Single { component: 3, access: Access::Shared },
    ];
    assert!(!check_exclusive(&both_write));

    let disjoint = vec![
        ParamDesc::Query { component: 3, access: Access::Exclusive },
        ParamDesc::Query { component: 4, access: Access::Exclusive },
        ParamDesc::CommandBuffer,
    ];
    assert!(check_exclusive(&disjoint));

    let shared = vec![
        ParamDesc::Query { component: 3, access: Access::Shared },
        ParamDesc::Query { component: 3, access: Access::Shared },
    ];
    assert!(check_exclusive(&shared));

    let resources = vec![
        ParamDesc::Resource { resource: 9, access: Access::Exclusive },
        ParamDesc::OptionalResource { resource: 9, access: Access::Shared },
    ];
    assert!(!check_exclusive(&resources));
}

#[test]
fn rerun_on_hot_patch_reexecutes_exactly_when_the_address_moved() {
    let mut world = World::new();
    let mut positions = ReloadPositions::new();
    let mut registry = DispatchRegistry::new();
    let mut t = Trampoline::install(100, 200);
    registry.ensure_registered(7, t.resolve_current());

    let sys = HotSystem {
        params: vec![],
        args: HotArgs { rerun_on_hot_patch: true, hot_patch_signature: false },
        world_param: WorldParam::NotWorld,
        span: SourceSpan { file: 1, line_start: 1, newlines: 0 },
    };

    // No patch yet: nothing reruns, nothing changes.
    let r = recheck_and_rerun(&mut world, &mut positions, &mut registry, &t, 7, &sys, vec![
        spawn_command(),
    ]);
    assert_eq!(r, None);
    assert_eq!(world.entity_count(), 0);

    // A patch moves the implementation: the very next check reruns the body.
    t.apply_patch(&JumpTable { pairs: vec![AddressPair { from: 200, to: 300 }] });
    let r = recheck_and_rerun(&mut world, &mut positions, &mut registry, &t, 7, &sys, vec![
        spawn_command(),
    ]);
    assert_eq!(r, Some(TickAction::Executed));
    assert_eq!(world.entity_count(), 1);

    // The change was consumed: the next check is quiet again.
    let r = recheck_and_rerun(&mut world, &mut positions, &mut registry, &t, 7, &sys, vec![
        spawn_command(),
    ]);
    assert_eq!(r, None);
    assert_eq!(world.entity_count(), 1);
}

#[test]
fn changed_address_without_the_flag_does_not_rerun() {
    let mut world = World::new();
    let mut positions = ReloadPositions::new();
    let mut registry = DispatchRegistry::new();
    let mut t = Trampoline::install(100, 200);
    registry.ensure_registered(7, t.resolve_current());

    let sys = HotSystem {
        params: vec![],
        args: HotArgs { rerun_on_hot_patch: false, hot_patch_signature: false },
        world_param: WorldParam::NotWorld,
        span: SourceSpan { file: 1, line_start: 1, newlines: 0 },
    };

    t.apply_patch(&JumpTable { pairs: vec![AddressPair { from: 200, to: 300 }] });
    let r = recheck_and_rerun(&mut world, &mut positions, &mut registry, &t, 7, &sys, vec![
        spawn_command(),
    ]);
    assert_eq!(r, None);
    assert_eq!(world.entity_count(), 0);
}

#[test]
fn patch_check_tracks_trampoline_resolution() {
    let mut registry = DispatchRegistry::new();
    let mut t = Trampoline::install(100, 200);
    registry.ensure_registered(7, t.resolve_current());

    assert!(!patch_check(&mut registry, &t, 7));
    t.apply_patch(&JumpTable { pairs: vec![AddressPair { from: 200, to: 300 }] });
    assert!(patch_check(&mut registry, &t, 7));
    assert!(!patch_check(&mut registry, &t, 7));
}
