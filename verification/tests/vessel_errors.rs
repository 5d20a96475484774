use pheno_plugins::{
    ComposeFile, ComposeService, Container, ContainerClient, ContainerConfig, ContainerError,
    ContainerRuntime, ContainerStatus, DockerRuntime, Image, PodmanRuntime, VesselError,
};

#[test]
fn test_docker_runtime_creation() {
    let runtime = DockerRuntime;
    assert_eq!(runtime.name(), "docker");
}

#[test]
fn test_vessel_error_display() {
    let runtime_err = VesselError::Runtime("docker daemon not responding".to_string());
    let runtime_display = runtime_err.to_string();
    assert!(runtime_display.contains("Runtime"), "Runtime display should mention 'Runtime', got: {:?}", runtime_display);
    assert!(
        runtime_display.contains("docker daemon not responding"),
        "Runtime display should include inner text, got: {:?}",
        runtime_display
    );

    let network_err = VesselError::Network("connection refused".to_string());
    let network_display = network_err.to_string();
    assert!(network_display.contains("Network"), "Network display should mention 'Network', got: {:?}", network_display);
    assert!(
        network_display.contains("connection refused"),
        "Network display should include inner text, got: {:?}",
        network_display
    );

    let image_err = VesselError::ImagePullFailed("nginx:latest".to_string());
    let image_display = image_err.to_string();
    assert!(!image_display.is_empty(), "ImagePullFailed display should be non-empty, got: {:?}", image_display);
    assert!(image_display.contains("Image"), "ImagePullFailed display should mention 'Image', got: {:?}", image_display);

    let container_err: VesselError = ContainerError::NotFound("web".to_string()).into();
    let container_display = container_err.to_string();
    assert!(!container_display.is_empty(), "Container display should be non-empty");
    assert!(
        container_display.contains("Container"),
        "Container display should mention 'Container', got: {:?}",
        container_display
    );
    assert!(
        container_display.contains("web"),
        "Container display should include inner NotFound text, got: {:?}",
        container_display
    );

    let io_err: VesselError =
        std::io::Error::new(std::io::ErrorKind::PermissionDenied, "access denied").into();
    let io_display = io_err.to_string();
    assert!(!io_display.is_empty(), "Io display should be non-empty");
    assert!(
        io_display.contains("IO") || io_display.contains("I/O"),
        "Io display should mention 'IO' or 'I/O', got: {:?}",
        io_display
    );
    assert!(
        io_display.contains("access denied"),
        "Io display should include inner io error text, got: {:?}",
        io_display
    );
}

#[test]
fn test_vessel_error_from() {
    let inner = ContainerError::OperationFailed("start timed out".to_string());
    let vessel: VesselError = inner.into();
    match &vessel {
        VesselError::Container(ce) => {
            assert!(
                matches!(ce, ContainerError::OperationFailed(ref s) if s == "start timed out"),
                "Inner ContainerError should round-trip"
            );
        }
        _ => panic!("Expected VesselError::Container variant, got: {:?}", vessel),
    }
    let source = vessel.source();
    assert!(source.is_some(), "VesselError::Container should have a source");
    let source_str = source.unwrap().to_string();
    assert!(source_str.contains("start timed out"), "Source should include inner error text, got: {:?}", source_str);

    let io_inner = std::io::Error::new(std::io::ErrorKind::NotFound, "file missing");
    let vessel_io: VesselError = io_inner.into();
    match &vessel_io {
        VesselError::Io(_) => {}
        _ => panic!("Expected VesselError::Io variant, got: {:?}", vessel_io),
    }
    let io_source = vessel_io.source();
    assert!(io_source.is_some(), "VesselError::Io should have a source");
    let io_source_str = io_source.unwrap().to_string();
    assert!(io_source_str.contains("file missing"), "Io source should include inner error text, got: {:?}", io_source_str);

    assert!(VesselError::Runtime("plain".to_string()).source().is_none(), "VesselError::Runtime should not have a source");
    assert!(
        VesselError::ImagePullFailed("nginx".to_string()).source().is_none(),
        "VesselError::ImagePullFailed should not have a source"
    );
    assert!(VesselError::Network("timeout".to_string()).source().is_none(), "VesselError::Network should not have a source");
}

#[test]
fn test_vessel_error_equality() {
    let a = VesselError::Runtime("boom".to_string());
    let b = VesselError::Runtime("boom".to_string());
    assert_eq!(std::mem::discriminant(&a), std::mem::discriminant(&b), "Identical Runtime variants should share a discriminant");
    assert!(matches!(&a, VesselError::Runtime(s) if s == "boom"), "First variant should match Runtime(\"boom\")");
    assert!(matches!(&b, VesselError::Runtime(s) if s == "boom"), "Second variant should match Runtime(\"boom\")");

    let c = VesselError::Runtime("other".to_string());
    if let (VesselError::Runtime(s_a), VesselError::Runtime(s_c)) = (&a, &c) {
        assert_ne!(s_a, s_c, "Inner payload should differ");
    } else {
        panic!("Expected Runtime variants");
    }

    let network = VesselError::Network("x".to_string());
    let runtime = VesselError::Runtime("x".to_string());
    assert_ne!(
        std::mem::discriminant(&network),
        std::mem::discriminant(&runtime),
        "Network and Runtime should have different discriminants"
    );

    let c1: VesselError = ContainerError::NotFound("abc".to_string()).into();
    let c2: VesselError = ContainerError::NotFound("abc".to_string()).into();
    assert_eq!(
        std::mem::discriminant(&c1),
        std::mem::discriminant(&c2),
        "Container variants from identical ContainerErrors should share a discriminant"
    );

    let c3: VesselError = ContainerError::AlreadyExists("abc".to_string()).into();
    assert_eq!(
        std::mem::discriminant(&c1),
        std::mem::discriminant(&c3),
        "Different ContainerError variants should produce the same outer discriminant"
    );
    if let (VesselError::Container(inner1), VesselError::Container(inner3)) = (&c1, &c3) {
        assert_ne!(std::mem::discriminant(inner1), std::mem::discriminant(inner3), "Inner ContainerError discriminants should differ");
    } else {
        panic!("Expected Container variants");
    }

    let io_vessel: VesselError = std::io::Error::new(std::io::ErrorKind::Other, "boom").into();
    assert_ne!(
        std::mem::discriminant(&c1),
        std::mem::discriminant(&io_vessel),
        "Container and Io outer discriminants should differ"
    );
}

#[test]
fn vessel_error_exact_texts() {
    assert_eq!(VesselError::Runtime("r".to_string()).to_string(), "Runtime error: r");
    assert_eq!(VesselError::Network("n".to_string()).to_string(), "Network error: n");
    assert_eq!(
        VesselError::ImagePullFailed("nginx".to_string()).to_string(),
        "Image error: failed to pull image"
    );
    let c: VesselError = ContainerError::AlreadyExists("w".to_string()).into();
    assert_eq!(c.to_string(), "Container error: Container already exists: w");
    assert_eq!(ContainerError::OperationFailed("x".to_string()).to_string(), "Operation failed: x");
}

#[test]
fn test_re_exports() {
    fn _assert_reexports_compile() {
        let _: Option<ContainerClient<DockerRuntime>> = None;
        fn _takes_container_error(_: ContainerError) {}
        fn _takes_compose_file(_: ComposeFile) {}
        fn _takes_compose_service(_: ComposeService) {}
        fn _takes_container(_: Container) {}
        fn _takes_container_config(_: ContainerConfig) {}
        fn _takes_container_status(_: ContainerStatus) {}
        fn _takes_image(_: Image) {}
        fn _takes_container_runtime<T: ContainerRuntime>(_: &T) {}
        fn _takes_docker_runtime(_: DockerRuntime) {}
        fn _takes_podman_runtime(_: PodmanRuntime) {}
    }
}
