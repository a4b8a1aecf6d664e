use build_monitor::codec::{decode, MessageType};
use build_monitor::monitor::Monitor;
use build_monitor::project::{Project, ProjectStatus};

#[test]
fn new_project_has_defaults() {
    let p = Project::new("folder", "https://ci/job/x");
    assert_eq!(p.name(), "");
    assert_eq!(p.folder(), "folder");
    assert_eq!(p.url(), "https://ci/job/x");
    assert!(p.status() == ProjectStatus::Unknown);
    assert!(!p.is_building());
    assert_eq!(p.last_successful_build_time(), 0);
    assert_eq!(p.duration(), 0);
    assert_eq!(p.estimated_duration(), 0);
    assert_eq!(p.timestamp(), 0);
    assert!(p.culprits().is_empty());
    assert_eq!(p.volunteer(), "");
}

#[test]
fn identity_equality_ignores_descriptive_fields() {
    let mut a = Project::new("f", "https://ci/job/x");
    let mut b = Project::new("other folder", "https://ci/job/x");
    b.set_name("some name");
    b.set_duration(123);
    b.set_timestamp(5);
    assert!(a == b);
    a.set_status(ProjectStatus::Failed);
    assert!(a != b);
    b.set_status(ProjectStatus::Failed);
    assert!(a == b);
    b.set_volunteer("alice");
    assert!(a != b);
}

#[test]
fn clone_copies_every_field() {
    let mut p = Project::new("f", "https://ci/job/x");
    p.set_name("n");
    p.set_status(ProjectStatus::Aborted);
    p.add_culprit("bob");
    p.set_volunteer("alice");
    let q = p.clone();
    assert_eq!(q.id(), p.id());
    assert_eq!(q.name(), "n");
    assert!(q.status() == ProjectStatus::Aborted);
    assert_eq!(q.culprits(), &vec!["bob".to_string()]);
    assert_eq!(q.volunteer(), "alice");
}

#[test]
fn beacon_frame_is_an_empty_message() {
    let monitor = Monitor::new(1, "https://ci");
    let frame = monitor.server_beacon_frame();
    assert_eq!(frame.len(), 12);
    let (h, payload, rest) = decode(&frame).unwrap();
    assert_eq!(h.version, 1);
    assert_eq!(h.msg_size, 0);
    assert!(h.msg_type == MessageType::Beacon);
    assert!(payload.is_empty());
    assert!(rest.is_empty());
}
