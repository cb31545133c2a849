use storm::transform::{Recompute, Transform};
use storm::vsync::Vsync;

#[derive(Clone, Copy, Debug, PartialEq)]
struct Parameters {
    translation: (f32, f32),
    scale: f32,
    rotation: f32,
}

fn start() -> Transform<Parameters, (f32, f32)> {
    Transform::new(
        Parameters { translation: (0.0, 0.0), scale: 1.0, rotation: 0.0 },
        (500.0, 500.0),
    )
}

const NOTHING: Recompute = Recompute { local: false, projection: false, combined: false };

#[test]
fn first_generate_computes_everything() {
    let mut t = start();
    let plan = t.generate();
    assert_eq!(plan, Recompute { local: true, projection: true, combined: true });
    assert!(plan.changed());
}

#[test]
fn second_generate_reports_unchanged() {
    let mut t = start();
    t.generate();
    let plan = t.generate();
    assert_eq!(plan, NOTHING);
    assert!(!plan.changed());
    assert_eq!(t.generate(), NOTHING);
}

#[test]
fn set_marks_local_and_combined() {
    let mut t = start();
    t.generate();
    t.set().scale = 2.0;
    assert_eq!(t.get().scale, 2.0);
    assert_eq!(t.generate(), Recompute { local: true, projection: false, combined: true });
    assert_eq!(t.generate(), NOTHING);
}

#[test]
fn set_size_marks_projection_and_combined() {
    let mut t = start();
    t.generate();
    t.set_size((640.0, 480.0));
    assert_eq!(*t.logical_size(), (640.0, 480.0));
    assert_eq!(t.generate(), Recompute { local: false, projection: true, combined: true });
    assert_eq!(t.generate(), NOTHING);
}

#[test]
fn set_and_set_size_together_mark_everything_once() {
    let mut t = start();
    t.generate();
    t.set().rotation = 0.25;
    t.set().translation = (3.5, -1.0);
    t.set_size((10.0, 10.0));
    assert_eq!(t.get().rotation, 0.25);
    assert_eq!(t.get().translation, (3.5, -1.0));
    assert_eq!(t.generate(), Recompute { local: true, projection: true, combined: true });
    assert_eq!(t.generate(), NOTHING);
}

#[test]
fn vsync_intervals() {
    assert_eq!(Vsync::Disabled.swap_interval(), 0);
    assert_eq!(Vsync::Enabled.swap_interval(), 1);
    assert_eq!(Vsync::Adaptive.swap_interval(), -1);
}

#[test]
fn vsync_falls_back_from_adaptive_to_enabled_to_disabled() {
    assert_eq!(Vsync::Adaptive.fallback(), Some(Vsync::Enabled));
    assert_eq!(Vsync::Enabled.fallback(), Some(Vsync::Disabled));
    assert_eq!(Vsync::Disabled.fallback(), None);
}
