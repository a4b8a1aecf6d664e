use build_monitor::digest::{fnv64, generate_projects_hash, url_id};
use build_monitor::project::{Project, ProjectStatus};

fn failed_project(folder: &str, name: &str, url: &str) -> Project {
    let mut p = Project::new(folder, url);
    p.set_name(name);
    p.set_status(ProjectStatus::Failed);
    p
}

#[test]
fn fnv64_of_empty_is_offset_basis() {
    assert_eq!(fnv64(&[]), 0xcbf29ce484222325);
}

#[test]
fn fnv64_matches_known_value() {
    // the published FNV-1a test vector for the one-byte input "a"
    assert_eq!(fnv64(b"a"), 0xaf63dc4c8601ec8c);
}

#[test]
fn same_url_gives_same_id() {
    let a = Project::new("one", "https://ci/job/x");
    let b = Project::new("another", "https://ci/job/x");
    assert_eq!(a.id(), b.id());
    assert_eq!(a.id(), url_id("https://ci/job/x"));
}

#[test]
fn different_url_gives_different_id() {
    let a = Project::new("f", "https://ci/job/x");
    let b = Project::new("f", "https://ci/job/y");
    assert_ne!(a.id(), b.id());
}

#[test]
fn hash_ignores_unhashed_fields() {
    let mut a = failed_project("f", "n", "https://ci/job/n");
    let mut b = failed_project("f", "n", "https://ci/job/n");
    // name, folder, url, estimated duration and timestamp stay out of the
    // content hash
    a.set_name("renamed");
    a.set_estimated_duration(1234);
    a.set_timestamp(5678);
    b.set_name("other name");
    b.set_estimated_duration(1);
    b.set_timestamp(2);
    let ha = generate_projects_hash(&vec![a]);
    let hb = generate_projects_hash(&vec![b]);
    assert_eq!(ha, hb);
}

#[test]
fn hash_reads_volunteer() {
    let a = failed_project("f", "n", "https://ci/job/n");
    let mut b = failed_project("f", "n", "https://ci/job/n");
    b.set_volunteer("alice");
    assert_ne!(generate_projects_hash(&vec![a]), generate_projects_hash(&vec![b]));
}

#[test]
fn hash_reads_status_building_times_and_culprits() {
    let base = failed_project("f", "n", "https://ci/job/n");
    let mut by_status = failed_project("f", "n", "https://ci/job/n");
    by_status.set_status(ProjectStatus::Aborted);
    let mut by_building = failed_project("f", "n", "https://ci/job/n");
    by_building.set_is_building(true);
    let mut by_time = failed_project("f", "n", "https://ci/job/n");
    by_time.set_last_successful_build_time(9);
    let mut by_duration = failed_project("f", "n", "https://ci/job/n");
    by_duration.set_duration(9);
    let mut by_culprit = failed_project("f", "n", "https://ci/job/n");
    by_culprit.add_culprit("bob");
    let h = generate_projects_hash(&vec![base]);
    assert_ne!(h, generate_projects_hash(&vec![by_status]));
    assert_ne!(h, generate_projects_hash(&vec![by_building]));
    assert_ne!(h, generate_projects_hash(&vec![by_time]));
    assert_ne!(h, generate_projects_hash(&vec![by_duration]));
    assert_ne!(h, generate_projects_hash(&vec![by_culprit]));
}

#[test]
fn hash_reads_element_order() {
    let a = failed_project("a", "x", "https://ci/job/a/job/x");
    let b = failed_project("b", "y", "https://ci/job/b/job/y");
    let fwd = generate_projects_hash(&vec![a.clone(), b.clone()]);
    let rev = generate_projects_hash(&vec![b, a]);
    assert_ne!(fwd, rev);
}

#[test]
fn empty_cache_hash_differs_from_initial_marker() {
    // a fresh monitor starts from the all-ones marker, so even an empty
    // crawl counts as a change once
    assert_ne!(generate_projects_hash(&Vec::new()), u64::MAX);
}
