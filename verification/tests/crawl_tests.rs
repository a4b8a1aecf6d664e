use build_monitor::crawl::{classify_job, folder_name_of, status_from_result, JobKind};
use build_monitor::error::BuildMonitorError;
use build_monitor::project::ProjectStatus;

#[test]
fn result_strings_map_to_statuses() {
    assert!(status_from_result("SUCCESS") == ProjectStatus::Success);
    assert!(status_from_result("UNSTABLE") == ProjectStatus::Unstable);
    assert!(status_from_result("FAILURE") == ProjectStatus::Failed);
    assert!(status_from_result("ABORTED") == ProjectStatus::Aborted);
    assert!(status_from_result("") == ProjectStatus::Unknown);
    assert!(status_from_result("success") == ProjectStatus::Unknown);
    assert!(status_from_result("SUCCESS ") == ProjectStatus::Unknown);
}

#[test]
fn job_classes_map_to_kinds() {
    assert!(classify_job("com.cloudbees.hudson.plugins.folder.Folder") == JobKind::Folder);
    assert!(classify_job("hudson.model.FreeStyleProject") == JobKind::FreeStyleProject);
    assert!(classify_job("hudson.model.SomethingElse") == JobKind::Other);
    assert!(classify_job("") == JobKind::Other);
}

#[test]
fn folder_name_strips_root_and_job_segments() {
    assert_eq!(
        folder_name_of("https://ci", "https://ci/job/alpha/job/beta/"),
        "alpha/beta/"
    );
    assert_eq!(
        folder_name_of("https://ci/", "https://ci/job/alpha/job/beta/"),
        "alpha/beta/"
    );
    assert_eq!(folder_name_of("https://ci", "https://ci"), "");
    assert_eq!(folder_name_of("https://ci", "elsewhere"), "");
    assert_eq!(folder_name_of("https://ci", "https://ci/jobless"), "jobless");
}

#[test]
fn error_kinds_have_names() {
    assert_eq!(BuildMonitorError::CrawlerUnavailable.kind_name(), "CrawlerUnavailable");
    assert_eq!(BuildMonitorError::NotConfigured.kind_name(), "NotConfigured");
    assert_eq!(BuildMonitorError::HandleNotFound.kind_name(), "HandleNotFound");
}
