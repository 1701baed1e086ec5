use hot_patch_core::overlay::{rebuild_gate, OverlaySchedules, Phase};

#[test]
fn rebuild_mounts_the_extracted_graph() {
    let mut overlay = OverlaySchedules::new();
    overlay.apply_phase_rebuild(Phase::Update, Some(vec![1, 2, 3]), true);
    assert_eq!(overlay.mounted(Phase::Update), &vec![1, 2, 3]);
    // The other phases stay as they were.
    assert!(overlay.mounted(Phase::PreUpdate).is_empty());
    assert!(overlay.mounted(Phase::PostUpdate).is_empty());
    assert!(overlay.mounted(Phase::StartupRerun).is_empty());
}

#[test]
fn failed_initialization_keeps_the_last_good_graph() {
    let mut overlay = OverlaySchedules::new();
    overlay.apply_phase_rebuild(Phase::PostUpdate, Some(vec![1, 2]), true);
    overlay.apply_phase_rebuild(Phase::PostUpdate, Some(vec![9, 9, 9]), false);
    assert_eq!(overlay.mounted(Phase::PostUpdate), &vec![1, 2]);
}

#[test]
fn unpopulated_phase_keeps_its_graph() {
    let mut overlay = OverlaySchedules::new();
    overlay.apply_phase_rebuild(Phase::StartupRerun, Some(vec![4]), true);
    overlay.apply_phase_rebuild(Phase::StartupRerun, None, true);
    assert_eq!(overlay.mounted(Phase::StartupRerun), &vec![4]);
}

#[test]
fn gate_runs_once_at_startup_then_only_on_notifications() {
    let mut ran_once = false;

    // First tick, no notification: the startup rebuild.
    assert!(rebuild_gate(&mut ran_once, false));
    // Quiet ticks do nothing.
    assert!(!rebuild_gate(&mut ran_once, false));
    assert!(!rebuild_gate(&mut ran_once, false));
    // A hot-patch notification triggers a rebuild.
    assert!(rebuild_gate(&mut ran_once, true));
    // And quiet again.
    assert!(!rebuild_gate(&mut ran_once, false));
}
