use actions_runner::artifact_plugins::{
    check_artifact_name, choose_artifact_name, download_target, resolve_connection,
    ConnectionError, DownloadArtifactPlugin, EndpointAuthorization, PluginError,
    PublishArtifactPlugin, ServiceEndpoint,
};
use actions_runner::artifact_plugins;
use actions_runner::file_container_server::{
    backoff_after, content_range, download_concurrency, random_backoff_secs, round_step,
    sort_items, upload_concurrency, upload_status, Attempt, ContainerItemType, DownloadInfo,
    DownloadResult, FileContainerItem, FileContainerServer, LocalOp, PlanError, RoundAction,
    UploadResult, UploadStatus,
};
use actions_runner::pipelines_server::{Lookup, PipelinesServer};
use actions_runner::string_map::StringMap;

fn endpoint(name: &str, token: Option<&str>) -> ServiceEndpoint {
    let mut parameters = StringMap::new();
    if let Some(token) = token {
        parameters.insert("AccessToken".to_string(), token.to_string());
    }
    ServiceEndpoint {
        name: name.to_string(),
        url: "https://pipelines.actions.githubusercontent.com".to_string(),
        authorization: Some(EndpointAuthorization { scheme: "OAuth".to_string(), parameters }),
    }
}

fn make_endpoints() -> Vec<ServiceEndpoint> {
    vec![endpoint("SystemVssConnection", Some("test-token"))]
}

fn item(path: &str, item_type: ContainerItemType, file_length: i64) -> FileContainerItem {
    FileContainerItem { path: path.to_string(), item_type, file_length }
}

#[test]
fn upload_result_merge() {
    let mut a = UploadResult { retry_files: vec!["a.txt".into()], total_size_uploaded: 100 };
    let b = UploadResult { retry_files: vec!["b.txt".into()], total_size_uploaded: 200 };
    a.merge(b);
    assert_eq!(a.retry_files.len(), 2);
    assert_eq!(a.total_size_uploaded, 300);
}

#[test]
fn download_result_merge() {
    let mut a = DownloadResult {
        failed_files: vec![DownloadInfo { item_path: "a".into(), local_path: "/tmp/a".into() }],
    };
    let b = DownloadResult {
        failed_files: vec![DownloadInfo { item_path: "b".into(), local_path: "/tmp/b".into() }],
    };
    a.merge(b);
    assert_eq!(a.failed_files.len(), 2);
}

#[test]
fn query_container_url_format() {
    let server = FileContainerServer::new("https://example.com", "tok", 0, 42, "my/path");
    let url = server.query_container_url();
    assert!(url.contains("/Containers/42"));
    assert!(url.contains("itemPath="));
    assert!(url.contains("api-version=4.1-preview.4"));
}

#[test]
fn random_backoff_in_range() {
    for _ in 0..100 {
        let v = random_backoff_secs(5, 15);
        assert!(v >= 5 && v <= 15);
    }
}

#[test]
fn artifacts_url_format() {
    let server = PipelinesServer::new("https://pipelines.actions.githubusercontent.com", "tok");
    let url = server.artifacts_url(1, 42);
    assert!(url.contains("/workflows/42/artifacts"));
    assert!(url.contains("api-version=6.0-preview"));
}

#[test]
fn artifact_by_name_url_encodes_name() {
    let server = PipelinesServer::new("https://example.com", "tok");
    let url = server.artifact_by_name_url(1, 10, "my artifact");
    // space should be percent-encoded
    assert!(url.contains("artifactName=my%20artifact"));
}

#[test]
fn download_artifact_resolve_connection_works() {
    let (url, token) = resolve_connection(&make_endpoints()).unwrap();
    assert_eq!(url, "https://pipelines.actions.githubusercontent.com");
    assert_eq!(token, "test-token");
}

#[test]
fn publish_artifact_resolve_connection_works() {
    let (url, token) = resolve_connection(&make_endpoints()).unwrap();
    assert_eq!(url, "https://pipelines.actions.githubusercontent.com");
    assert_eq!(token, "test-token");
}

#[test]
fn resolve_connection_missing_endpoint() {
    assert!(resolve_connection(&vec![]).is_err());
}

#[test]
fn invalid_artifact_name_chars() {
    for ch in artifact_plugins::invalid_artifact_name_chars() {
        let name = format!("test{ch}artifact");
        assert!(
            name.contains(artifact_plugins::invalid_artifact_name_chars().as_slice()),
            "Expected '{name}' to contain invalid char '{ch}'"
        );
        assert!(matches!(check_artifact_name(&name), Err(PluginError::InvalidName(n)) if n == name));
    }
}

#[test]
fn empty_artifact_name_is_invalid() {
    let name = "   ";
    assert!(name.trim().is_empty());
    assert!(matches!(check_artifact_name(name), Err(PluginError::EmptyName)));
}

#[test]
fn fallback_target_path_to_artifact_name() {
    // When no path is supplied the artifact name should be used.
    let target = download_target("", "my-art");
    assert_eq!(target, "my-art");
    assert_eq!(download_target("out", "my-art"), "out");
}

#[test]
fn urls_encode_every_byte_that_is_no_letter_or_digit() {
    let server = FileContainerServer::new("https://e.com//", "tok", 0, -7, "a/é");
    assert_eq!(
        server.query_container_url(),
        "https://e.com/_apis/resources/Containers/-7?itemPath=a%2F%C3%A9&isShallow=false&api-version=4.1-preview.4"
    );
    assert_eq!(
        server.upload_file_url("x_y.z"),
        "https://e.com/_apis/resources/Containers/-7?itemPath=x%5Fy%2Ez&api-version=4.1-preview.4"
    );
    assert!(server.download_file_url("x").ends_with("&$format=octetStream"));
    assert_eq!(server.upload_item_path("d\\f"), "a/é/d/f");
}

#[test]
fn items_are_taken_in_the_order_of_their_paths() {
    let sorted = sort_items(vec![
        item("b", ContainerItemType::File, 1),
        item("a/b", ContainerItemType::File, 2),
        item("b", ContainerItemType::File, 3),
        item("a", ContainerItemType::Folder, 0),
    ]);
    let seen: Vec<(&str, i64)> =
        sorted.iter().map(|i| (i.path.as_str(), i.file_length)).collect();
    assert_eq!(seen, [("a", 0), ("a/b", 2), ("b", 1), ("b", 3)]);
}

#[test]
fn a_download_plan_covers_the_items() {
    let server = FileContainerServer::new("https://e.com", "tok", 0, 7, "Art");
    let plan = server.plan_download(vec![
        item("art/z.txt", ContainerItemType::File, 5),
        item("art/dir", ContainerItemType::Folder, 0),
        item("ART/empty", ContainerItemType::File, 0),
    ]);
    assert!(plan.error.is_none());
    assert!(matches!(&plan.local[0], LocalOp::CreateEmptyFile(p) if p == "empty"));
    assert!(matches!(&plan.local[1], LocalOp::EnsureFolder(p) if p == "dir"));
    assert_eq!(plan.local.len(), 2);
    assert_eq!(plan.downloads.len(), 1);
    assert_eq!(plan.downloads[0].item_path, "art/z.txt");
    assert_eq!(plan.downloads[0].local_path, "z.txt");
}

#[test]
fn an_item_elsewhere_ends_the_plan() {
    let server = FileContainerServer::new("https://e.com", "tok", 0, 7, "art");
    let plan = server.plan_download(vec![item("other/x", ContainerItemType::File, 5)]);
    let error = plan.error.unwrap();
    assert!(matches!(&error, PlanError::NotUnder(p) if p == "other/x"));
    assert_eq!(server.plan_error_text(&error), "Item other/x is not under #/7/art");
    // The lower-case form of the Kelvin sign is shorter than the sign itself.
    let server = FileContainerServer::new("https://e.com", "tok", 0, 7, "k\u{212a}");
    let plan = server.plan_download(vec![item("kké/x", ContainerItemType::File, 5)]);
    assert!(plan.error.is_none());
    assert_eq!(plan.downloads[0].local_path, "x");
    let plan = server.plan_download(vec![item("kkaé/x", ContainerItemType::File, 5)]);
    assert!(matches!(plan.error, Some(PlanError::SplitsCharacter(p)) if p == "kkaé/x"));
}

#[test]
fn uploads_and_their_statuses() {
    assert_eq!(upload_status(201), UploadStatus::Done);
    assert_eq!(upload_status(409), UploadStatus::AlreadyUploaded);
    assert_eq!(upload_status(500), UploadStatus::Failed(500));
    assert_eq!(content_range(0), "bytes 0-0/0");
    assert_eq!(content_range(10), "bytes 0-9/10");
    assert_eq!(upload_concurrency(1), 1);
    assert_eq!(upload_concurrency(16), 2);
    assert_eq!(download_concurrency(3, 8), 3);
    assert_eq!(download_concurrency(9, 8), 8);
}

#[test]
fn attempts_are_limited() {
    for failures in 1..3 {
        let secs = backoff_after(Attempt::Download, failures).unwrap();
        assert!((10..=30).contains(&secs));
        let secs = backoff_after(Attempt::Upload, failures).unwrap();
        assert!((5..=15).contains(&secs));
    }
    assert_eq!(backoff_after(Attempt::Query, 3), None);
}

#[test]
fn failed_files_are_tried_again_after_a_minute() {
    let mut action = round_step(RoundAction::Transfer, 2);
    let mut waited = 0;
    while let RoundAction::Wait(_) = action {
        waited += 5;
        action = round_step(action, 2);
    }
    assert_eq!(waited, 60);
    assert_eq!(action, RoundAction::TransferFailed);
    assert_eq!(round_step(action, 1), RoundAction::Failed(1));
    assert_eq!(round_step(action, 0), RoundAction::Done);
    assert_eq!(round_step(RoundAction::Transfer, 0), RoundAction::Done);
}

#[test]
fn connections_need_an_endpoint_an_authorization_and_a_token() {
    let other = endpoint("Other", Some("x"));
    assert!(matches!(resolve_connection(&vec![other]), Err(ConnectionError::NoEndpoint)));
    let mut bare = endpoint("systemvssconnection", None);
    assert!(matches!(
        resolve_connection(&vec![endpoint("systemvssconnection", None)]),
        Err(ConnectionError::NoAccessToken)
    ));
    bare.authorization = None;
    let error = resolve_connection(&vec![bare]).unwrap_err();
    assert!(matches!(error, ConnectionError::NoAuthorization));
    assert_eq!(error.message(), "SystemVssConnection has no authorization");
}

#[test]
fn publishing_is_prepared() {
    let prepare = |name: &str, exists: bool, run: &str, container: &str| {
        PublishArtifactPlugin::prepare(name.to_string(), exists, run, container, &make_endpoints())
    };
    let plan = prepare("art", true, "42", "123").unwrap();
    assert_eq!(plan.artifact_name, "art");
    assert_eq!((plan.run_id, plan.container_id), (42, 123));
    assert_eq!(plan.auth_token, "test-token");
    assert!(matches!(prepare(" ", false, "x", "y"), Err(PluginError::EmptyName)));
    assert!(matches!(prepare("a", false, "x", "y"), Err(PluginError::MissingPath)));
    assert!(matches!(prepare("a", true, "x", "y"), Err(PluginError::BadRunId(_))));
    assert!(matches!(prepare("a", true, "1", "y"), Err(PluginError::BadContainerId(_))));
    assert!(matches!(
        PublishArtifactPlugin::prepare("a".to_string(), true, "1", "2", &vec![]),
        Err(PluginError::Connection(ConnectionError::NoEndpoint))
    ));
    assert_eq!(PluginError::MissingPath.message("/p"), "Path does not exist /p");
}

#[test]
fn downloading_is_prepared() {
    let request =
        DownloadArtifactPlugin::prepare("art".to_string(), "", "99", &make_endpoints()).unwrap();
    assert_eq!(request.target, "art");
    assert_eq!(request.run_id, 99);
    let some = |s: &str| Some(s.to_string());
    assert_eq!(choose_artifact_name(&some("old"), &some("new")), "old");
    assert_eq!(choose_artifact_name(&some(""), &some("new")), "new");
    assert_eq!(choose_artifact_name(&None, &None), "");
}

#[test]
fn artifacts_are_looked_up() {
    assert_eq!(PipelinesServer::lookup(200, "{}"), Lookup::Found);
    assert_eq!(PipelinesServer::lookup(200, " \n"), Lookup::Missing);
    assert_eq!(PipelinesServer::lookup(404, "{}"), Lookup::Missing);
    assert_eq!(PipelinesServer::lookup(500, ""), Lookup::Failed(500));
    let parameters = PipelinesServer::create_parameters(123, "test", 456);
    assert_eq!(parameters.name, "test");
    assert_eq!(parameters.container_id, 123);
    assert_eq!(parameters.size, 456);
    assert_eq!(parameters.artifact_type, "actions_storage");
}
