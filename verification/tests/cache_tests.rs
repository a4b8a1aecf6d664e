use build_monitor::cache::ProjectCache;
use build_monitor::project::{Project, ProjectStatus};

fn project_with_status(folder: &str, name: &str, url: &str, status: ProjectStatus) -> Project {
    let mut p = Project::new(folder, url);
    p.set_name(name);
    p.set_status(status);
    p
}

#[test]
fn new_cache_is_empty() {
    let cache = ProjectCache::new();
    assert_eq!(cache.len(), 0);
    assert!(cache.read_snapshot().is_empty());
}

#[test]
fn replace_swaps_whole_contents() {
    let mut cache = ProjectCache::new();
    cache.replace(vec![project_with_status("f", "n", "u", ProjectStatus::Unknown)]);
    assert_eq!(cache.len(), 1);
    let snapshot = cache.read_snapshot();
    assert_eq!(snapshot[0].name(), "n");
    cache.replace(Vec::new());
    assert_eq!(cache.len(), 0);
}

#[test]
fn take_drains_the_cache() {
    let mut cache = ProjectCache::new();
    cache.replace(vec![project_with_status("f", "n", "u", ProjectStatus::Failed)]);
    let taken = cache.take();
    assert_eq!(taken.len(), 1);
    assert_eq!(cache.len(), 0);
}

#[test]
fn apply_volunteer_sets_name_on_broken_project() {
    let mut cache = ProjectCache::new();
    let p = project_with_status("f", "n", "https://ci/job/n", ProjectStatus::Failed);
    let id = p.id();
    cache.replace(vec![p]);
    assert!(cache.volunteer_applies(id));
    assert!(cache.apply_volunteer(id, "alice"));
    assert_eq!(cache.read_snapshot()[0].volunteer(), "alice");
}

#[test]
fn apply_volunteer_leaves_successful_project_alone() {
    let mut cache = ProjectCache::new();
    let p = project_with_status("f", "n", "https://ci/job/n", ProjectStatus::Success);
    let id = p.id();
    cache.replace(vec![p]);
    assert!(!cache.volunteer_applies(id));
    // found, but silently a no-op
    assert!(cache.apply_volunteer(id, "alice"));
    assert_eq!(cache.read_snapshot()[0].volunteer(), "");
}

#[test]
fn apply_volunteer_fails_without_a_match() {
    let mut cache = ProjectCache::new();
    let p = project_with_status("f", "n", "https://ci/job/n", ProjectStatus::Failed);
    let id = p.id();
    cache.replace(vec![p]);
    assert!(!cache.apply_volunteer(id.wrapping_add(1), "alice"));
    assert_eq!(cache.read_snapshot()[0].volunteer(), "");
}

#[test]
fn apply_volunteer_touches_only_the_first_match() {
    let mut cache = ProjectCache::new();
    let first = project_with_status("a", "x", "https://ci/job/same", ProjectStatus::Failed);
    let second = project_with_status("b", "y", "https://ci/job/same", ProjectStatus::Failed);
    let id = first.id();
    assert_eq!(id, second.id());
    cache.replace(vec![first, second]);
    assert!(cache.apply_volunteer(id, "alice"));
    let snapshot = cache.read_snapshot();
    assert_eq!(snapshot[0].volunteer(), "alice");
    assert_eq!(snapshot[1].volunteer(), "");
}

#[test]
fn content_hash_follows_applied_volunteer_only() {
    let mut cache = ProjectCache::new();
    let broken = project_with_status("f", "n", "https://ci/job/n", ProjectStatus::Failed);
    let ok = project_with_status("g", "m", "https://ci/job/m", ProjectStatus::Success);
    let broken_id = broken.id();
    let ok_id = ok.id();
    cache.replace(vec![broken, ok]);
    let before = cache.content_hash();
    cache.apply_volunteer(ok_id, "alice");
    assert_eq!(cache.content_hash(), before);
    cache.apply_volunteer(broken_id, "alice");
    assert_ne!(cache.content_hash(), before);
}
