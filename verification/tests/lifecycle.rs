use frontend_core::lifecycle::{CanvasLifecycle, LifecycleState, TickAction};

#[test]
fn starts_idle_and_rendering() {
    let c = CanvasLifecycle::new();
    assert_eq!(c.state(), LifecycleState::Idle);
    assert!(c.should_render_frame());
    assert!(c.surface_attached());
    assert!(c.renderer_active());
}

#[test]
fn state_cycle_sequence() {
    let mut c = CanvasLifecycle::new();
    let mut observed = Vec::new();
    observed.push(c.state());
    for round in 0..3 {
        c.request_rebuild();
        observed.push(c.state());
        c.on_tick();
        observed.push(c.state());
        c.on_tick();
        observed.push(c.state());
        let _ = round;
    }
    // Distinct states, Idle removed, alternate TearingDown, ReadyToRebuild.
    let mut distinct = vec![observed[0]];
    for s in &observed[1..] {
        if *s != *distinct.last().unwrap() {
            distinct.push(*s);
        }
    }
    let non_idle: Vec<_> = distinct
        .into_iter()
        .filter(|s| *s != LifecycleState::Idle)
        .collect();
    for (i, s) in non_idle.iter().enumerate() {
        if i % 2 == 0 {
            assert_eq!(*s, LifecycleState::TearingDown);
        } else {
            assert_eq!(*s, LifecycleState::ReadyToRebuild);
        }
    }
    assert_eq!(non_idle.len(), 6);
}

#[test]
fn render_suppression() {
    let mut c = CanvasLifecycle::new();
    assert!(c.should_render_frame());
    c.request_rebuild();
    assert!(!c.should_render_frame());
    assert_eq!(c.on_tick(), TickAction::SuppressFrame);
    assert!(!c.should_render_frame());
    assert_eq!(c.on_tick(), TickAction::RebuildRenderer);
    assert!(c.should_render_frame());
    assert_eq!(c.state(), LifecycleState::Idle);
}

#[test]
fn idle_tick_is_idempotent() {
    let mut c = CanvasLifecycle::new();
    for _ in 0..5 {
        assert_eq!(c.on_tick(), TickAction::RenderFrame);
        assert_eq!(c.state(), LifecycleState::Idle);
        assert!(c.should_render_frame());
    }
}

#[test]
fn rebuild_failure_reports_once() {
    let mut c = CanvasLifecycle::new();
    let mut reports = 0;
    c.request_rebuild();
    assert_eq!(c.on_tick(), TickAction::SuppressFrame);
    let action = c.on_tick();
    assert_eq!(action, TickAction::RebuildRenderer);
    if c.complete_rebuild(false) {
        reports += 1;
    }
    assert_eq!(c.state(), LifecycleState::Idle);
    assert_eq!(reports, 1);
    assert!(!c.renderer_active());
    // Later idle ticks demand no rebuild and so no further report.
    for _ in 0..3 {
        assert_eq!(c.on_tick(), TickAction::RenderFrame);
    }
    assert_eq!(reports, 1);
    // A new request may retry, and a success reports nothing.
    c.request_rebuild();
    c.on_tick();
    assert_eq!(c.on_tick(), TickAction::RebuildRenderer);
    if c.complete_rebuild(true) {
        reports += 1;
    }
    assert_eq!(reports, 1);
    assert!(c.renderer_active());
}

#[test]
fn request_mid_transition_is_ignored() {
    let mut c = CanvasLifecycle::new();
    c.request_rebuild();
    assert_eq!(c.state(), LifecycleState::TearingDown);
    c.request_rebuild();
    assert_eq!(c.state(), LifecycleState::TearingDown);
    c.on_tick();
    assert_eq!(c.state(), LifecycleState::ReadyToRebuild);
    c.request_rebuild();
    assert_eq!(c.state(), LifecycleState::ReadyToRebuild);
    c.on_tick();
    assert_eq!(c.state(), LifecycleState::Idle);
}

#[test]
fn surface_detached_only_while_tearing_down() {
    let mut c = CanvasLifecycle::new();
    assert!(c.surface_attached());
    c.request_rebuild();
    assert!(!c.surface_attached());
    c.on_tick();
    assert!(c.surface_attached());
    c.on_tick();
    assert!(c.surface_attached());
}
