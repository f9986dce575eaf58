use post_process::settings::{CameraId, PostProcessSettings};
use post_process::world::{CameraRecord, SettingsWorld};

fn sample(n: u32) -> PostProcessSettings {
    PostProcessSettings::new(n, n + 1, n + 2, n + 3)
}

#[test]
fn new_world_is_empty() {
    let w = SettingsWorld::new();
    assert_eq!(w.len(), 0);
    assert_eq!(w.get(CameraId(1)), None);
    assert!(w.records().is_empty());
}

#[test]
fn attach_then_get() {
    let mut w = SettingsWorld::new();
    assert_eq!(w.attach(CameraId(7), sample(10)), None);
    assert_eq!(w.len(), 1);
    assert_eq!(w.get(CameraId(7)), Some(sample(10)));
    assert_eq!(w.get(CameraId(8)), None);
}

#[test]
fn attach_again_replaces_in_place() {
    let mut w = SettingsWorld::new();
    w.attach(CameraId(1), sample(10));
    w.attach(CameraId(2), sample(20));
    assert_eq!(w.attach(CameraId(1), sample(30)), Some(sample(10)));
    assert_eq!(w.len(), 2);
    assert_eq!(
        w.records(),
        &vec![
            CameraRecord { camera: CameraId(1), settings: sample(30) },
            CameraRecord { camera: CameraId(2), settings: sample(20) },
        ]
    );
}

#[test]
fn detach_removes_and_keeps_order() {
    let mut w = SettingsWorld::new();
    w.attach(CameraId(1), sample(10));
    w.attach(CameraId(2), sample(20));
    w.attach(CameraId(3), sample(30));
    assert_eq!(w.detach(CameraId(2)), Some(sample(20)));
    assert_eq!(w.detach(CameraId(2)), None);
    assert_eq!(w.len(), 2);
    assert_eq!(
        w.records(),
        &vec![
            CameraRecord { camera: CameraId(1), settings: sample(10) },
            CameraRecord { camera: CameraId(3), settings: sample(30) },
        ]
    );
    assert_eq!(w.get(CameraId(2)), None);
}

#[test]
fn detach_of_unknown_camera_changes_nothing() {
    let mut w = SettingsWorld::new();
    w.attach(CameraId(1), sample(10));
    assert_eq!(w.detach(CameraId(9)), None);
    assert_eq!(w.len(), 1);
    assert_eq!(w.get(CameraId(1)), Some(sample(10)));
}
