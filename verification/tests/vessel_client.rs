use pheno_plugins::{
    ContainerClient, ContainerRuntime, ContainerError, ContainerStatus, DockerRuntime, LaunchAction, LaunchEvent,
    LaunchStep, PodmanRuntime, VesselError,
};

#[test]
fn test_container_client_new() {
    let client = ContainerClient::new(DockerRuntime::new());
    assert_eq!(client.runtime_name(), "docker");
}

#[test]
fn test_container_client_runtime_name() {
    let client = ContainerClient::new(DockerRuntime::new());
    assert_eq!(client.runtime_name(), "docker");
    assert!(!client.runtime_name().is_empty());
}

#[test]
fn test_container_error_display() {
    let not_found = ContainerError::NotFound("my-container".to_string());
    let not_found_str = not_found.to_string();
    assert!(not_found_str.contains("not found"));
    assert!(not_found_str.contains("my-container"));

    let already_exists = ContainerError::AlreadyExists("my-container".to_string());
    let already_exists_str = already_exists.to_string();
    assert!(already_exists_str.contains("already exists"));
    assert!(already_exists_str.contains("my-container"));

    let operation_failed = ContainerError::OperationFailed("something broke".to_string());
    let operation_failed_str = operation_failed.to_string();
    assert!(operation_failed_str.contains("failed"));
    assert!(operation_failed_str.contains("something broke"));
}

#[test]
fn test_container_error_from() {
    let container_err = ContainerError::NotFound("abc".to_string());
    let v: VesselError = container_err.into();
    match v {
        VesselError::Container(ContainerError::NotFound(s)) => {
            assert_eq!(s, "abc");
        }
        other => panic!("Expected VesselError::Container(NotFound), got {:?}", other),
    }
}

#[test]
fn test_container_client_default_runtime() {
    let client = ContainerClient::new(DockerRuntime);
    assert_eq!(client.runtime_name(), "docker");
}

#[test]
fn client_podman_runtime_name() {
    let client = ContainerClient::new(PodmanRuntime::new());
    assert_eq!(client.runtime_name(), "podman");
    assert_eq!(client.runtime_ref().name(), "podman");
}

#[test]
fn client_pulled_image() {
    let img = ContainerClient::<DockerRuntime>::pulled_image("nginx:1.25", Ok(())).unwrap();
    assert_eq!(img.id, "nginx:1.25");
    assert_eq!(img.name, "nginx:1.25");
    assert_eq!(img.tag, "latest");
    assert_eq!(img.size, 0);
    match ContainerClient::<DockerRuntime>::pulled_image("x", Err("denied".to_string())) {
        Err(VesselError::Runtime(m)) => assert_eq!(m, "denied"),
        other => panic!("unexpected {:?}", other),
    }
}

#[test]
fn client_run_launch_succeeds_through_create_and_start() {
    let (launch, action) = ContainerClient::<DockerRuntime>::begin_launch("nginx", "web", true);
    match action {
        LaunchAction::Create(config) => {
            assert_eq!(config.image, "nginx");
            assert_eq!(config.name.as_deref(), Some("web"));
            assert!(config.env.is_empty());
            assert!(config.ports.is_empty());
            assert!(config.volumes.is_empty());
        }
        _ => panic!("expected a create action"),
    }
    let (launch, action) = ContainerClient::<DockerRuntime>::advance_launch(
        launch,
        LaunchEvent::Created(Ok("abc".to_string())),
    );
    assert!(matches!(&launch.step, LaunchStep::Starting { id } if id == "abc"));
    assert!(matches!(&action, LaunchAction::Start(id) if id == "abc"));
    let (_, action) =
        ContainerClient::<DockerRuntime>::advance_launch(launch, LaunchEvent::Started(Ok(())));
    match action {
        LaunchAction::Done(Ok(c)) => {
            assert_eq!(c.id, "abc");
            assert_eq!(c.name, "web");
            assert_eq!(c.image, "nginx");
            assert_eq!(c.status, ContainerStatus::Running);
            assert!(c.is_running());
        }
        _ => panic!("expected a running container"),
    }
}

#[test]
fn client_create_launch_stops_after_create() {
    let (launch, _) = ContainerClient::<DockerRuntime>::begin_launch("redis", "cache", false);
    let (_, action) = ContainerClient::<DockerRuntime>::advance_launch(
        launch,
        LaunchEvent::Created(Ok("id9".to_string())),
    );
    match action {
        LaunchAction::Done(Ok(c)) => {
            assert_eq!(c.id, "id9");
            assert_eq!(c.status, ContainerStatus::Created);
        }
        _ => panic!("expected a created container"),
    }
}

#[test]
fn client_launch_failures_become_runtime_errors() {
    let (launch, _) = ContainerClient::<DockerRuntime>::begin_launch("redis", "cache", true);
    let (launch, action) = ContainerClient::<DockerRuntime>::advance_launch(
        launch,
        LaunchEvent::Created(Err("no such image".to_string())),
    );
    assert!(matches!(action, LaunchAction::Done(Err(VesselError::Runtime(m))) if m == "no such image"));
    assert!(matches!(launch.step, LaunchStep::Creating));

    let (launch, _) = ContainerClient::<DockerRuntime>::begin_launch("redis", "cache", true);
    let (launch, _) = ContainerClient::<DockerRuntime>::advance_launch(
        launch,
        LaunchEvent::Created(Ok("x".to_string())),
    );
    let (launch, action) = ContainerClient::<DockerRuntime>::advance_launch(
        launch,
        LaunchEvent::Started(Err("port taken".to_string())),
    );
    assert!(matches!(action, LaunchAction::Done(Err(VesselError::Runtime(m))) if m == "port taken"));
    assert!(matches!(launch.step, LaunchStep::Starting { id } if id == "x"));
}
