use pheno_plugins::{ComposeFile, ComposeService};
use std::collections::HashMap;

fn service_dependencies_case() {
    let mut services = HashMap::new();

    let mut web = ComposeService::default();
    web.image = Some("nginx".to_string());
    web.depends_on = Some(vec!["db".to_string()]);

    let mut db = ComposeService::default();
    db.image = Some("postgres".to_string());

    services.insert("web".to_string(), web);
    services.insert("db".to_string(), db);

    let compose = ComposeFile {
        version: Some("3.8".to_string()),
        services,
        networks: None,
        volumes: None,
    };

    let ordered = compose.ordered_services();
    let db_idx = ordered.iter().position(|s| s.image.as_ref().unwrap() == "postgres");
    let web_idx = ordered.iter().position(|s| s.image.as_ref().unwrap() == "nginx");

    assert!(db_idx.is_some() && web_idx.is_some());
}

#[test]
fn test_service_dependencies() {
    service_dependencies_case();
}

#[test]
fn compose_test_service_dependencies() {
    service_dependencies_case();
}

#[test]
fn test_compose_service_names() {
    let mut services = HashMap::new();
    services.insert("db".to_string(), ComposeService::default());
    services.insert("api".to_string(), ComposeService::default());
    services.insert("web".to_string(), ComposeService::default());

    let compose = ComposeFile { version: None, services, networks: None, volumes: None };

    let names = compose.service_names();
    assert_eq!(names.len(), 3);

    let name_set: std::collections::HashSet<&str> = names.iter().map(|n| n.as_str()).collect();
    assert!(name_set.contains("db"));
    assert!(name_set.contains("api"));
    assert!(name_set.contains("web"));
}

#[test]
fn test_compose_service_default() {
    let svc = ComposeService::default();
    assert!(svc.image.is_none());
    assert!(svc.command.is_none());
    assert!(svc.depends_on.is_none());
    assert!(svc.environment.is_none());
    assert!(svc.ports.is_none());
    assert!(svc.volumes.is_none());
}

#[test]
fn test_ordered_services_empty() {
    let compose =
        ComposeFile { version: None, services: HashMap::new(), networks: None, volumes: None };
    let ordered = compose.ordered_services();
    assert!(ordered.is_empty());
    assert_eq!(ordered.len(), 0);
}

#[test]
fn test_compose_service_field_access() {
    let mut env = HashMap::new();
    env.insert("POSTGRES_DB".to_string(), "test".to_string());

    let svc = ComposeService {
        image: Some("postgres:15".to_string()),
        environment: Some(env),
        ports: Some(vec!["5432:5432".to_string()]),
        ..Default::default()
    };

    assert_eq!(svc.image.as_deref(), Some("postgres:15"));
    assert!(svc.environment.is_some());
    assert_eq!(
        svc.environment.as_ref().and_then(|e| e.get("POSTGRES_DB").map(|s| s.as_str())),
        Some("test")
    );
    assert!(svc.ports.is_some());
    assert_eq!(svc.ports.as_ref().unwrap().len(), 1);
    assert_eq!(svc.ports.as_ref().unwrap()[0], "5432:5432");
}

#[test]
fn test_compose_dependencies_count() {
    let mut services = HashMap::new();

    let mut web = ComposeService::default();
    web.image = Some("nginx".to_string());
    web.depends_on = Some(vec!["db".to_string(), "api".to_string()]);
    services.insert("web".to_string(), web);

    let mut db = ComposeService::default();
    db.image = Some("postgres".to_string());
    services.insert("db".to_string(), db);

    let mut api = ComposeService::default();
    api.image = Some("myapi".to_string());
    services.insert("api".to_string(), api);

    let compose = ComposeFile {
        version: Some("3.8".to_string()),
        services,
        networks: None,
        volumes: None,
    };

    let ordered = compose.ordered_services();
    assert_eq!(ordered.len(), 3);

    let web_svc = ordered
        .iter()
        .find(|s| s.image.as_deref() == Some("nginx"))
        .expect("web service should be present");
    let web_deps = web_svc.depends_on.as_ref().expect("web should have depends_on");
    assert_eq!(web_deps.len(), 2);
    assert!(web_deps.contains(&"db".to_string()));
    assert!(web_deps.contains(&"api".to_string()));

    let db_svc = compose.services.get("db").expect("db service should be present");
    assert!(db_svc.depends_on.is_none());

    let api_svc = compose.services.get("api").expect("api service should be present");
    assert!(api_svc.depends_on.is_none());
}

fn service(image: &str, deps: &[&str]) -> ComposeService {
    ComposeService {
        image: Some(image.to_string()),
        depends_on: if deps.is_empty() {
            None
        } else {
            Some(deps.iter().map(|d| d.to_string()).collect())
        },
        ..Default::default()
    }
}

fn images(v: &[&ComposeService]) -> Vec<String> {
    v.iter().map(|s| s.image.clone().unwrap()).collect()
}

#[test]
fn compose_dependencies_come_first() {
    let mut services = HashMap::new();
    services.insert("web".to_string(), service("web", &["api", "cache"]));
    services.insert("api".to_string(), service("api", &["db", "missing"]));
    services.insert("db".to_string(), service("db", &[]));
    services.insert("cache".to_string(), service("cache", &["db"]));
    let compose = ComposeFile { version: None, services, networks: None, volumes: None };
    let order = images(&compose.ordered_services());
    assert_eq!(order.len(), 4);
    let pos = |n: &str| order.iter().position(|x| x == n).unwrap();
    assert!(pos("db") < pos("api"));
    assert!(pos("db") < pos("cache"));
    assert!(pos("api") < pos("web"));
    assert!(pos("cache") < pos("web"));
}

#[test]
fn compose_ordered_from_given_roots() {
    let mut services = HashMap::new();
    services.insert("web".to_string(), service("web", &["api", "cache"]));
    services.insert("api".to_string(), service("api", &["db"]));
    services.insert("db".to_string(), service("db", &[]));
    services.insert("cache".to_string(), service("cache", &[]));
    let compose = ComposeFile { version: None, services, networks: None, volumes: None };
    let roots: Vec<String> = ["cache", "web", "ghost", "db", "api"].iter().map(|s| s.to_string()).collect();
    let root_refs: Vec<&String> = roots.iter().collect();
    let order = images(&compose.ordered_services_from(&root_refs));
    assert_eq!(order, vec!["cache", "db", "api", "web"]);

    let only_web: Vec<String> = vec!["web".to_string()];
    let refs: Vec<&String> = only_web.iter().collect();
    assert_eq!(images(&compose.ordered_services_from(&refs)), vec!["db", "api", "cache", "web"]);
}

#[test]
fn compose_cycles_still_list_each_service_once() {
    let mut services = HashMap::new();
    services.insert("a".to_string(), service("a", &["b"]));
    services.insert("b".to_string(), service("b", &["a"]));
    services.insert("c".to_string(), service("c", &["c"]));
    let compose = ComposeFile { version: None, services, networks: None, volumes: None };
    let mut order = images(&compose.ordered_services());
    order.sort();
    assert_eq!(order, vec!["a", "b", "c"]);
}
