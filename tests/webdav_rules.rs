use phone_sync::webdav::{
    download_outcome_of, mkcol_status_accepted, status_is_success, DownloadOutcome, Endpoint,
};

#[test]
fn head_probe_success_means_present() {
    assert!(status_is_success(200));
    assert!(status_is_success(204));
    assert!(status_is_success(299));
    assert!(!status_is_success(404));
    assert!(!status_is_success(301));
    assert!(!status_is_success(199));
}

#[test]
fn existing_collection_does_not_abort() {
    assert!(mkcol_status_accepted(201));
    assert!(mkcol_status_accepted(405));
    assert!(mkcol_status_accepted(409));
    assert!(!mkcol_status_accepted(403));
    assert!(!mkcol_status_accepted(500));
}

#[test]
fn download_statuses() {
    assert_eq!(download_outcome_of(200), DownloadOutcome::Write);
    assert_eq!(download_outcome_of(404), DownloadOutcome::Absent);
    assert_eq!(download_outcome_of(500), DownloadOutcome::Failed);
    assert_eq!(download_outcome_of(401), DownloadOutcome::Failed);
}

#[test]
fn endpoint_urls() {
    let e = Endpoint::new("http://localhost:8080/", Some("dummy"), Some("dummy"));
    assert_eq!(e.url_for("a.txt"), "http://localhost:8080/a.txt");
    assert_eq!(
        e.collection_urls("remote/dir/test_file1.txt"),
        vec!["http://localhost:8080/remote/", "http://localhost:8080/remote/dir/"]
    );
}

#[test]
fn credentials_need_both_parts() {
    let both = Endpoint::new("http://h", Some("u"), Some("p"));
    assert_eq!(both.credentials(), Some((&"u".to_string(), &"p".to_string())));
    let user_only = Endpoint::new("http://h", Some("u"), None);
    assert_eq!(user_only.credentials(), None);
    let none = Endpoint::new("http://h", None, None);
    assert_eq!(none.credentials(), None);
}
