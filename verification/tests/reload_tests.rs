use hot_patch_core::harness::{run_hot_system, HotSystem, SourceSpan, TickAction};
use hot_patch_core::macro_shape::{HotArgs, WorldParam};
use hot_patch_core::reload::{despawn_in_spans, startup_rerun_prepare, ReloadPositions, ReloadSpan};
use hot_patch_core::world::{Command, SpawnLocation, World};

const FILE: u64 = 7;

fn setup_system() -> HotSystem {
    HotSystem {
        params: vec![],
        args: HotArgs { rerun_on_hot_patch: true, hot_patch_signature: true },
        world_param: WorldParam::NotWorld,
        // The routine's body starts at line 10 and covers 5 newlines, so its
        // recorded span is lines 10 through 15.
        span: SourceSpan { file: FILE, line_start: 10, newlines: 5 },
    }
}

fn spawn_at(line: u64) -> Command {
    Command::Spawn { spawned_at: Some(SpawnLocation { file: FILE, line }), components: vec![] }
}

fn setup_body() -> Vec<Command> {
    vec![spawn_at(11), spawn_at(12), spawn_at(13)]
}

#[test]
fn rerun_despawns_its_own_spawns_first() {
    let mut world = World::new();
    let mut positions = ReloadPositions::new();
    let sys = setup_system();

    // First run: the span is recorded and three entities appear.
    let action = run_hot_system(&mut world, &mut positions, &sys, setup_body());
    assert_eq!(action, TickAction::Executed);
    assert_eq!(world.entity_count(), 3);
    assert_eq!(positions.len(), 1);

    // A patch arrives; the startup-rerun phase prepares by despawning the
    // three recorded entities and clearing the records, then reruns.
    startup_rerun_prepare(&mut world, &mut positions);
    assert_eq!(world.entity_count(), 0);
    assert_eq!(positions.len(), 0);

    let action = run_hot_system(&mut world, &mut positions, &sys, setup_body());
    assert_eq!(action, TickAction::Executed);
    // Three entities again — not six.
    assert_eq!(world.entity_count(), 3);
    assert_eq!(positions.len(), 1);
}

#[test]
fn despawn_matches_spans_strictly_inside() {
    let mut world = World::new();
    world.spawn(Some(SpawnLocation { file: FILE, line: 10 }), vec![]);
    world.spawn(Some(SpawnLocation { file: FILE, line: 11 }), vec![]);
    world.spawn(Some(SpawnLocation { file: FILE, line: 15 }), vec![]);
    let mut positions = ReloadPositions::new();
    positions.record(ReloadSpan { file: FILE, line_start: 10, line_end: 15 });

    despawn_in_spans(&mut world, &positions);
    // Only the entity strictly inside the span is gone.
    assert_eq!(world.entity_count(), 2);
    assert_eq!(world.entities[0].spawned_at, Some(SpawnLocation { file: FILE, line: 10 }));
    assert_eq!(world.entities[1].spawned_at, Some(SpawnLocation { file: FILE, line: 15 }));
}

#[test]
fn despawn_ignores_other_files_and_unknown_provenance() {
    let mut world = World::new();
    world.spawn(Some(SpawnLocation { file: 8, line: 12 }), vec![]);
    world.spawn(None, vec![]);
    world.spawn(Some(SpawnLocation { file: FILE, line: 12 }), vec![]);
    let mut positions = ReloadPositions::new();
    positions.record(ReloadSpan { file: FILE, line_start: 10, line_end: 15 });

    despawn_in_spans(&mut world, &positions);
    assert_eq!(world.entity_count(), 2);
}

#[test]
fn recording_a_span_twice_keeps_one_record() {
    let mut positions = ReloadPositions::new();
    let span = ReloadSpan { file: FILE, line_start: 10, line_end: 15 };
    positions.record(span);
    positions.record(span);
    assert_eq!(positions.len(), 1);
    positions.record(ReloadSpan { file: FILE, line_start: 20, line_end: 25 });
    assert_eq!(positions.len(), 2);
}

#[test]
fn untracked_system_records_no_span() {
    let mut world = World::new();
    let mut positions = ReloadPositions::new();
    let sys = HotSystem {
        params: vec![],
        args: HotArgs { rerun_on_hot_patch: false, hot_patch_signature: false },
        world_param: WorldParam::NotWorld,
        span: SourceSpan { file: FILE, line_start: 10, newlines: 5 },
    };
    run_hot_system(&mut world, &mut positions, &sys, setup_body());
    assert_eq!(positions.len(), 0);
}
