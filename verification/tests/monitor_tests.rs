use build_monitor::error::BuildMonitorError;
use build_monitor::monitor::Monitor;
use build_monitor::monitors::Monitors;
use build_monitor::project::{Project, ProjectStatus};

fn project_with_status(folder: &str, name: &str, url: &str, status: ProjectStatus) -> Project {
    let mut p = Project::new(folder, url);
    p.set_name(name);
    p.set_status(status);
    p
}

fn crawl_two_unsorted() -> Vec<Project> {
    vec![
        project_with_status("b", "y", "https://ci/job/b/job/y", ProjectStatus::Failed),
        project_with_status("a", "x", "https://ci/job/a/job/x", ProjectStatus::Success),
        project_with_status("a", "w", "https://ci/job/a/job/w", ProjectStatus::Unstable),
    ]
}

#[test]
fn refresh_without_client_or_snapshot_fails_and_keeps_cache() {
    let mut monitor = Monitor::new(1, "https://ci");
    assert!(matches!(
        monitor.refresh_projects(None),
        Err(BuildMonitorError::CrawlerUnavailable)
    ));
    assert_eq!(monitor.get_projects().len(), 0);
}

#[test]
fn refresh_sorts_by_folder_then_name() {
    let mut monitor = Monitor::new(1, "https://ci");
    let changed = monitor.refresh_projects(Some(crawl_two_unsorted())).unwrap();
    assert!(changed);
    let snapshot = monitor.get_projects().read_snapshot();
    let keys: Vec<(String, String)> = snapshot
        .iter()
        .map(|p| (p.folder().to_string(), p.name().to_string()))
        .collect();
    assert_eq!(
        keys,
        vec![
            ("a".to_string(), "w".to_string()),
            ("a".to_string(), "x".to_string()),
            ("b".to_string(), "y".to_string()),
        ]
    );
}

#[test]
fn refresh_reports_change_only_on_new_hash() {
    let mut monitor = Monitor::new(1, "https://ci");
    assert!(monitor.refresh_projects(Some(crawl_two_unsorted())).unwrap());
    // the same snapshot again: same content hash, no change
    assert!(!monitor.refresh_projects(Some(crawl_two_unsorted())).unwrap());
    // a content change: one project starts building
    let mut third = crawl_two_unsorted();
    third[0].set_is_building(true);
    assert!(monitor.refresh_projects(Some(third)).unwrap());
}

#[test]
fn refresh_keeps_volunteer_unless_project_succeeded() {
    let mut monitor = Monitor::new(1, "https://ci");
    monitor.refresh_projects(Some(crawl_two_unsorted())).unwrap();
    let broken_id = project_with_status("b", "y", "https://ci/job/b/job/y", ProjectStatus::Failed)
        .id();
    monitor.start_server(false);
    monitor.set_volunteering(broken_id, "alice").unwrap();
    assert_eq!(volunteer_of(&monitor, broken_id), "alice");

    // next crawl: still failed, volunteer survives the wholesale replace
    assert!(monitor.refresh_projects(Some(crawl_two_unsorted())).is_ok());
    assert_eq!(volunteer_of(&monitor, broken_id), "alice");

    // next crawl: the build succeeded, the volunteer is cleared
    let mut fixed = crawl_two_unsorted();
    fixed[0].set_status(ProjectStatus::Success);
    assert!(monitor.refresh_projects(Some(fixed)).unwrap());
    assert_eq!(volunteer_of(&monitor, broken_id), "");
}

fn volunteer_of(monitor: &Monitor, id: u64) -> String {
    monitor
        .get_projects()
        .read_snapshot()
        .iter()
        .find(|p| p.id() == id)
        .unwrap()
        .volunteer()
        .to_string()
}

#[test]
fn set_volunteering_offline_is_refused() {
    let mut monitor = Monitor::new(1, "https://ci");
    assert!(matches!(
        monitor.set_volunteering(42, "alice"),
        Err(BuildMonitorError::NotConfigured)
    ));
}

#[test]
fn set_volunteering_on_server_applies_and_schedules_broadcast() {
    let mut monitor = Monitor::new(1, "https://ci");
    monitor.refresh_projects(Some(crawl_two_unsorted())).unwrap();
    monitor.start_server(true);
    // drain the initial broadcast a fresh server owes
    assert!(monitor.server_take_broadcast().is_some());
    assert!(monitor.server_take_broadcast().is_none());

    let broken_id = project_with_status("b", "y", "https://ci/job/b/job/y", ProjectStatus::Failed)
        .id();
    monitor.set_volunteering(broken_id, "alice").unwrap();
    assert_eq!(volunteer_of(&monitor, broken_id), "alice");
    assert!(monitor.server_take_broadcast().is_some());
}

#[test]
fn set_volunteering_for_successful_project_changes_nothing() {
    let mut monitor = Monitor::new(1, "https://ci");
    monitor.refresh_projects(Some(crawl_two_unsorted())).unwrap();
    monitor.start_server(true);
    assert!(monitor.server_take_broadcast().is_some());

    let ok_id = project_with_status("a", "x", "https://ci/job/a/job/x", ProjectStatus::Success)
        .id();
    monitor.set_volunteering(ok_id, "alice").unwrap();
    assert_eq!(volunteer_of(&monitor, ok_id), "");
    // no re-broadcast was triggered by this claim alone
    assert!(monitor.server_take_broadcast().is_none());
}

#[test]
fn set_volunteering_on_client_queues_and_updates_locally() {
    let mut monitor = Monitor::new(1, "https://ci");
    monitor.refresh_projects(Some(crawl_two_unsorted())).unwrap();
    monitor.start_client(true);
    let broken_id = project_with_status("b", "y", "https://ci/job/b/job/y", ProjectStatus::Failed)
        .id();
    monitor.set_volunteering(broken_id, "alice").unwrap();
    assert_eq!(volunteer_of(&monitor, broken_id), "alice");
    let frames = monitor.client_take_volunteer_frames();
    assert_eq!(frames.len(), 1);
    assert!(monitor.client_take_volunteer_frames().is_empty());
}

#[test]
fn client_refresh_drains_received_projects() {
    let mut monitor = Monitor::new(1, "https://ci");
    monitor.start_client(false);
    // the first refresh moves the hash off its initial marker
    assert!(monitor.refresh_projects(None).unwrap());
    // nothing received yet: no change, cache stays empty, no error
    assert!(!monitor.refresh_projects(None).unwrap());
    match &mut monitor.client {
        Some(client) => {
            client.pending = crawl_two_unsorted();
        },
        None => unreachable!(),
    }
    assert!(monitor.refresh_projects(None).unwrap());
    assert_eq!(monitor.get_projects().len(), 3);
    // received lists replace wholesale and are taken as they came
    assert_eq!(monitor.get_projects().read_snapshot()[0].folder(), "b");
}

#[test]
fn registry_allocates_lowest_unused_handle() {
    let mut registry = Monitors::new();
    assert_eq!(registry.create("https://ci"), 1);
    assert_eq!(registry.create("https://ci"), 2);
    assert_eq!(registry.create("https://ci"), 3);
    registry.destroy(2);
    assert_eq!(registry.create("https://ci"), 2);
    assert_eq!(registry.create("https://ci"), 4);
}

#[test]
fn registry_get_finds_by_handle() {
    let mut registry = Monitors::new();
    let h1 = registry.create("https://one");
    let h2 = registry.create("https://two");
    let i = registry.get(h2).unwrap();
    assert_eq!(registry.monitors[i].get_handle(), h2);
    assert_eq!(registry.monitors[i].jenkins_server, "https://two");
    registry.destroy(h1);
    assert!(matches!(registry.get(h1), Err(BuildMonitorError::HandleNotFound)));
}
