use pheno_plugins::Image;

fn image_creation_case() {
    let image = Image::new("nginx:latest");
    assert_eq!(image.name, "nginx");
    assert_eq!(image.tag, "latest");
}

fn image_reference_case() {
    let image = Image::new("postgres:15");
    assert_eq!(image.reference(), "postgres:15");
}

fn digest_image_case() {
    let image = Image {
        id: "sha256:abc123".to_string(),
        name: "nginx".to_string(),
        tag: "sha256:abc123".to_string(),
        size: 100,
    };
    assert!(image.is_digest());
}

#[test]
fn test_image_creation() {
    image_creation_case();
}

#[test]
fn image_test_image_creation() {
    image_creation_case();
}

#[test]
fn test_image_reference() {
    image_reference_case();
}

#[test]
fn image_test_image_reference() {
    image_reference_case();
}

#[test]
fn test_digest_image() {
    digest_image_case();
}

#[test]
fn image_test_digest_image() {
    digest_image_case();
}

#[test]
fn test_image_is_digest_false() {
    let image = Image::new("alpine");
    assert_eq!(image.name, "alpine");
    assert_eq!(image.tag, "latest");
    assert!(!image.is_digest());

    let image = Image::new("ubuntu:20.04");
    assert_eq!(image.name, "ubuntu");
    assert_eq!(image.tag, "20.04");
    assert!(!image.is_digest());
}

#[test]
fn test_image_display() {
    let image = Image {
        id: "alpine:3.18".to_string(),
        name: "alpine".to_string(),
        tag: "3.18".to_string(),
        size: 0,
    };
    assert_eq!(image.to_string(), "alpine:3.18");

    let digest_image = Image {
        id: "nginx:sha256:abcdef".to_string(),
        name: "nginx".to_string(),
        tag: "sha256:abcdef".to_string(),
        size: 0,
    };
    assert_eq!(digest_image.to_string(), "nginx:sha256:abcdef");
}

#[test]
fn test_image_new_defaults() {
    let alpine = Image::new("alpine");
    assert_eq!(alpine.name, "alpine");
    assert_eq!(alpine.tag, "latest");
    assert_eq!(alpine.id, "alpine");
    assert_eq!(alpine.size, 0);

    let redis = Image::new("redis");
    assert_eq!(redis.name, "redis");
    assert_eq!(redis.tag, "latest");
    assert_eq!(redis.id, "redis");
    assert_eq!(redis.size, 0);

    let postgres = Image::new("postgres:15");
    assert_eq!(postgres.name, "postgres");
    assert_eq!(postgres.tag, "15");
    assert_eq!(postgres.id, "postgres:15");
    assert_eq!(postgres.size, 0);
}

#[test]
fn test_image_equality_via_fields() {
    let a = Image {
        id: "nginx:1.25".to_string(),
        name: "nginx".to_string(),
        tag: "1.25".to_string(),
        size: 100,
    };
    let b = Image {
        id: "nginx:1.25".to_string(),
        name: "nginx".to_string(),
        tag: "1.25".to_string(),
        size: 100,
    };
    assert_eq!(a.id, b.id);
    assert_eq!(a.name, b.name);
    assert_eq!(a.tag, b.tag);
    assert_eq!(a.size, b.size);

    let different_size = Image {
        id: "nginx:1.25".to_string(),
        name: "nginx".to_string(),
        tag: "1.25".to_string(),
        size: 200,
    };
    assert_ne!(a.size, different_size.size);

    let different_tag = Image {
        id: "nginx:1.26".to_string(),
        name: "nginx".to_string(),
        tag: "1.26".to_string(),
        size: 100,
    };
    assert_ne!(a.tag, different_tag.tag);
}

#[test]
fn test_image_new_with_multi_colon_tag() {
    let image = Image::new("registry.example.com:5000/myapp:v1.2.3");
    assert_eq!(image.name, "registry.example.com");
    assert_eq!(image.tag, "5000/myapp");
    assert_eq!(image.id, "registry.example.com:5000/myapp:v1.2.3");
    assert_eq!(image.size, 0);
}

#[test]
fn test_image_new_with_empty_name() {
    let image = Image::new(":latest");
    assert_eq!(image.name, "");
    assert_eq!(image.tag, "latest");
    assert_eq!(image.id, ":latest");
    assert_eq!(image.size, 0);
}

#[test]
fn test_image_reference_with_digest() {
    let image = Image {
        id: "nginx:sha256:abc".to_string(),
        name: "nginx".to_string(),
        tag: "sha256:abc".to_string(),
        size: 0,
    };
    assert_eq!(image.reference(), "nginx:sha256:abc");
}

#[test]
fn test_image_debug_format() {
    let image = Image::new("nginx:1.25");
    let debug = format!("{:?}", image);
    assert!(debug.contains("name"), "Debug output missing `name`: {debug}");
    assert!(debug.contains("tag"), "Debug output missing `tag`: {debug}");
    assert!(debug.contains("nginx"), "Debug output missing value `nginx`: {debug}");
    assert!(debug.contains("1.25"), "Debug output missing value `1.25`: {debug}");
}

#[test]
fn image_edge_cases() {
    let trailing = Image::new("nginx:");
    assert_eq!(trailing.name, "nginx");
    assert_eq!(trailing.tag, "");
    let empty = Image::new("");
    assert_eq!(empty.name, "");
    assert_eq!(empty.tag, "latest");
    assert_eq!(empty.reference(), ":latest");
    let digest = Image::new("nginx:sha256:abc");
    assert_eq!(digest.tag, "sha256");
    assert!(!digest.is_digest());
}

#[test]
fn image_new_then_reference_gives_the_reference_back() {
    for r in ["postgres:15", "nginx:1.25-alpine", "localhost/app:dev", ":", "a:"] {
        assert_eq!(Image::new(r).reference(), r);
    }
    assert_eq!(Image::new("alpine").reference(), "alpine:latest");
    assert_eq!(Image::new("").reference(), ":latest");
}
