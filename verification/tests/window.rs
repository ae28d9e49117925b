use wubilex::window::lifecycle::{delayed_tray_due, delayed_tray_wanted, hide_needed};
use wubilex::config::model::{CloseAction, WindowBounds};
use wubilex::window::bounds::{
    center_axis, clamp_axis, fit_dimension, intersection_area, place_on_work_area, saturating_i32, select_monitor,
    valid_saved_bounds, MonitorWorkArea, PhysicalRect, MIN_LOGICAL_HEIGHT, MIN_LOGICAL_WIDTH,
};
use wubilex::window::lifecycle::{close_decision, CloseDecision, LifecycleState, WindowVisibility};
use wubilex::window::persistence::{Coalescer, WindowPlacement, WorkerStep};

#[test]
fn lifecycle_transitions_are_idempotent_and_revisioned() {
    let mut state = LifecycleState::new(WindowVisibility::Visible, false);
    assert!(!state.set_visibility(WindowVisibility::Visible));
    assert_eq!(state.snapshot.revision, 0);
    assert!(state.set_visibility(WindowVisibility::Hidden));
    assert_eq!(state.snapshot.revision, 1);
    assert!(!state.set_visibility(WindowVisibility::Hidden));
    assert!(state.set_maximized(true));
    assert_eq!(state.snapshot.revision, 2);
    assert!(!state.set_maximized(true));
    assert!(state.set_visibility(WindowVisibility::Exiting));
    assert_eq!(state.snapshot.revision, 3);
    assert!(!state.set_visibility(WindowVisibility::Visible));
    assert!(!state.set_visibility(WindowVisibility::Hidden));
    assert_eq!(state.snapshot.visibility, WindowVisibility::Exiting);
    assert_eq!(state.snapshot.revision, 3);
}

#[test]
fn delayed_tray_generation_invalidates_stale_timeouts() {
    let mut state = LifecycleState::new(WindowVisibility::Hidden, false);
    let first = state.invalidate_delay();
    let second = state.invalidate_delay();
    assert_ne!(first, second);
    assert_eq!(state.delay_generation, second);
}

#[test]
fn exit_is_prepared_once_and_close_follows_the_configured_action() {
    let mut state = LifecycleState::new(WindowVisibility::Visible, false);
    assert!(state.begin_exit());
    assert!(!state.begin_exit());
    assert_eq!(state.snapshot.visibility, WindowVisibility::Exiting);
    assert_eq!(close_decision(Some(CloseAction::Exit)), CloseDecision::Exit);
    assert_eq!(close_decision(Some(CloseAction::MinimizeToTray)), CloseDecision::HideToTray);
    assert_eq!(close_decision(None), CloseDecision::ReportThenHide);
}

fn rect(x: i32, y: i32, width: u32, height: u32) -> PhysicalRect {
    PhysicalRect { x, y, width, height }
}

fn monitor(x: i32, y: i32, width: u32, height: u32, scale: f64, primary: bool) -> MonitorWorkArea {
    MonitorWorkArea { rect: rect(x, y, width, height), scale_factor_bits: scale.to_bits(), primary }
}

#[test]
fn largest_intersection_wins_and_negative_coordinates_are_supported() {
    let saved = rect(-1_500, 100, 1_200, 700);
    let monitors = vec![monitor(0, 0, 1_920, 1_040, 1.0, true), monitor(-1_920, 0, 1_920, 1_040, 1.0, false)];
    assert_eq!(select_monitor(saved, &monitors), Some((1, true)));
    let placed = place_on_work_area(saved, monitors[1].rect, true, 1_200, 700);
    assert_eq!(placed.x, -1_500);
}

#[test]
fn offscreen_bounds_fall_back_to_the_primary_monitor_centred() {
    let saved = rect(50_000, 50_000, 1_024, 640);
    let monitors = vec![monitor(-1_280, 0, 1_280, 720, 1.0, false), monitor(0, 0, 1_920, 1_040, 1.0, true)];
    assert_eq!(select_monitor(saved, &monitors), Some((1, false)));
    let placed = place_on_work_area(saved, monitors[1].rect, false, 1_024, 640);
    assert_eq!((placed.x, placed.y), (448, 200));
}

#[test]
fn invalid_or_missing_work_areas_give_no_monitor() {
    let saved = rect(0, 0, 1_024, 640);
    assert_eq!(select_monitor(saved, &Vec::new()), None);
    assert_eq!(select_monitor(saved, &vec![monitor(0, 0, 1_920, 1_080, f64::INFINITY, true)]), None);
    assert_eq!(select_monitor(saved, &vec![monitor(0, 0, 0, 1_080, 1.0, true)]), None);
}

#[test]
fn sizes_are_fitted_and_kept_visible() {
    assert_eq!(fit_dimension(4_000, MIN_LOGICAL_WIDTH, 1_600), 1_600);
    assert_eq!(fit_dimension(100, MIN_LOGICAL_WIDTH, 1_600), MIN_LOGICAL_WIDTH);
    assert_eq!(fit_dimension(100, MIN_LOGICAL_HEIGHT, 500), MIN_LOGICAL_HEIGHT);
    assert_eq!(clamp_axis(100, -800, 800, 1_024), -800);
    assert_eq!(clamp_axis(1_900, 0, 1_920, 1_100), 820);
    assert_eq!(clamp_axis(-50, 0, 1_920, 1_100), 0);
    assert_eq!(center_axis(0, 1_920, 1_024), 448);
    assert_eq!(saturating_i32(i64::MAX), i32::MAX);
    assert_eq!(saturating_i32(i64::MIN), i32::MIN);
    assert_eq!(intersection_area(rect(0, 0, 10, 10), rect(5, 5, 10, 10)), 25);
    assert_eq!(intersection_area(rect(0, 0, 10, 10), rect(20, 20, 10, 10)), 0);
}

#[test]
fn saved_bounds_outside_the_schema_are_not_restored() {
    let mut bounds = WindowBounds { x: 0, y: 0, width: 1_024, height: 640, scale_factor_bits: 1.0f64.to_bits() };
    assert!(valid_saved_bounds(&bounds));
    bounds.scale_factor_bits = f64::NAN.to_bits();
    assert!(!valid_saved_bounds(&bounds));
    bounds.scale_factor_bits = 1.0f64.to_bits();
    bounds.width = 0;
    assert!(!valid_saved_bounds(&bounds));
}

fn placement(x: i32) -> WindowPlacement {
    WindowPlacement {
        bounds: Some(WindowBounds { x, y: 20, width: 1_024, height: 640, scale_factor_bits: 1.0f64.to_bits() }),
        maximized: false,
    }
}

#[test]
fn quiet_period_persists_only_the_latest_placement_policy() {
    let mut worker = Coalescer::new(15, 100);
    assert_eq!(worker.next_step(0), WorkerStep::WaitForever);
    worker.receive(placement(10), 0);
    worker.receive(placement(20), 5);
    assert_eq!(worker.next_step(10), WorkerStep::WaitFor(10));
    assert_eq!(worker.next_step(20), WorkerStep::Persist);
    assert_eq!(worker.take(), Some(placement(20)));
    assert_eq!(worker.take(), None);
}

#[test]
fn maximum_period_bounds_continuous_updates() {
    let mut worker = Coalescer::new(80, 35);
    for x in 0..4 {
        worker.receive(placement(x), (x as u64) * 10);
    }
    assert_eq!(worker.next_step(34), WorkerStep::WaitFor(1));
    assert_eq!(worker.next_step(35), WorkerStep::Persist);
    assert_eq!(worker.take(), Some(placement(3)));
}

#[test]
fn tray_timers_and_restores_follow_the_lifecycle() {
    let mut state = LifecycleState::new(WindowVisibility::Visible, false);
    assert!(hide_needed(&state));
    assert!(!delayed_tray_wanted(&state, false));
    assert!(state.set_visibility(WindowVisibility::Hidden));
    assert!(!hide_needed(&state));
    assert!(delayed_tray_wanted(&state, false));
    assert!(!delayed_tray_wanted(&state, true));
    let generation = state.invalidate_delay();
    assert!(delayed_tray_due(&state, generation, false));
    state.invalidate_delay();
    assert!(!delayed_tray_due(&state, generation, false));

    let revision = state.snapshot.revision;
    state.after_restore(false, true);
    assert_eq!(state.snapshot.visibility, WindowVisibility::Hidden);
    assert!(state.snapshot.maximized);
    assert_eq!(state.snapshot.revision, revision + 1);
    state.after_restore(true, true);
    assert_eq!(state.snapshot.visibility, WindowVisibility::Visible);
    assert_eq!(state.snapshot.revision, revision + 2);
    assert!(state.begin_exit());
    state.after_restore(true, false);
    assert_eq!(state.snapshot.visibility, WindowVisibility::Exiting);
    assert!(!state.snapshot.maximized);
}
