use armature_discovery::{DiscoveryError, InMemoryDiscovery, ServiceInstance};

fn ids(found: &[ServiceInstance]) -> Vec<String> {
    let mut ids: Vec<String> = found.iter().map(|instance| instance.id.clone()).collect();
    ids.sort();
    ids
}

#[test]
fn test_in_memory_discovery() {
    let mut discovery = InMemoryDiscovery::new();

    let service = ServiceInstance::new("svc-1", "api", "localhost", 8080);

    // Register
    discovery.register(&service).unwrap();
    assert_eq!(discovery.count(), 1);

    // Discover
    let instances = discovery.discover("api").unwrap();
    assert_eq!(instances.len(), 1);
    assert_eq!(instances[0].id, "svc-1");

    // Get service
    let retrieved = discovery.get_service("svc-1").unwrap();
    assert_eq!(retrieved.name, "api");

    // Deregister
    discovery.deregister("svc-1").unwrap();
    assert_eq!(discovery.count(), 0);
}

#[test]
fn memory_discover_returns_ok_empty_for_unregistered_service_name() {
    let discovery = InMemoryDiscovery::new();

    let instances = discovery.discover("nonexistent").unwrap();
    assert!(
        instances.is_empty(),
        "discover() of an unregistered name must return Ok(vec![]), matching the other backends"
    );
}

#[test]
fn get_service_still_errors_for_an_unknown_id() {
    let discovery = InMemoryDiscovery::new();

    let result = discovery.get_service("missing");
    assert!(matches!(result, Err(DiscoveryError::ServiceNotFound(_))));
}

#[test]
fn deregister_of_an_unknown_id_names_it_and_changes_nothing() {
    let mut discovery = InMemoryDiscovery::default();
    discovery.register(&ServiceInstance::new("a-1", "api", "localhost", 8080)).unwrap();
    match discovery.deregister("a-2") {
        Err(DiscoveryError::ServiceNotFound(id)) => assert_eq!(id, "a-2"),
        other => panic!("{:?}", other),
    }
    assert_eq!(discovery.count(), 1);
}

#[test]
fn discover_gives_the_instances_of_one_service() {
    let mut discovery = InMemoryDiscovery::new();
    discovery.register(&ServiceInstance::new("a-2", "api", "localhost", 8081)).unwrap();
    discovery.register(&ServiceInstance::new("w-1", "worker", "localhost", 9090)).unwrap();
    discovery.register(&ServiceInstance::new("a-1", "api", "localhost", 8080)).unwrap();
    assert_eq!(ids(&discovery.discover("api").unwrap()), vec!["a-1", "a-2"]);
    assert_eq!(ids(&discovery.discover("worker").unwrap()), vec!["w-1"]);
}

#[test]
fn a_later_registration_replaces_an_earlier_one() {
    let mut discovery = InMemoryDiscovery::new();
    discovery.register(&ServiceInstance::new("a-1", "api", "localhost", 8080)).unwrap();
    let moved = ServiceInstance::new("a-1", "worker", "elsewhere", 9090)
        .with_tag("v2")
        .with_health_check("http://elsewhere:9090/health");
    discovery.register(&moved).unwrap();
    assert_eq!(discovery.count(), 1);
    assert!(discovery.discover("api").unwrap().is_empty());
    let found = discovery.get_service("a-1").unwrap();
    assert_eq!(found.name, "worker");
    assert_eq!(found.address, "elsewhere");
    assert_eq!(found.port, 9090);
    assert_eq!(found.tags, vec!["v2"]);
    assert_eq!(found.health_check_url.as_deref(), Some("http://elsewhere:9090/health"));
}

#[test]
fn deregistering_leaves_the_other_instances() {
    let mut discovery = InMemoryDiscovery::new();
    for id in ["a-1", "a-2", "a-3"] {
        discovery.register(&ServiceInstance::new(id, "api", "localhost", 8080)).unwrap();
    }
    discovery.deregister("a-1").unwrap();
    assert_eq!(ids(&discovery.discover("api").unwrap()), vec!["a-2", "a-3"]);
    assert!(matches!(discovery.get_service("a-1"), Err(DiscoveryError::ServiceNotFound(_))));
    assert!(discovery.get_service("a-3").is_ok());
}

#[test]
fn clear_takes_away_everything() {
    let mut discovery = InMemoryDiscovery::new();
    discovery.register(&ServiceInstance::new("a-1", "api", "localhost", 8080)).unwrap();
    discovery.register(&ServiceInstance::new("w-1", "worker", "localhost", 9090)).unwrap();
    discovery.clear();
    assert_eq!(discovery.count(), 0);
    assert!(discovery.list_services().unwrap().is_empty());
}

#[test]
fn listed_services_are_sorted_and_distinct() {
    let mut discovery = InMemoryDiscovery::new();
    for (id, name) in [("1", "worker"), ("2", "api"), ("3", "worker"), ("4", "Zeta"), ("5", "äpi")] {
        discovery.register(&ServiceInstance::new(id, name, "localhost", 1)).unwrap();
    }
    let listed = discovery.list_services().unwrap();
    assert_eq!(listed, vec!["Zeta", "api", "worker", "äpi"]);
    for name in &listed {
        assert!(!discovery.discover(name).unwrap().is_empty());
    }
}

#[test]
fn a_copy_of_an_instance_is_equal_in_every_field() {
    let mut service = ServiceInstance::new("a-1", "api", "localhost", 8080).with_tag("v1").with_tag("eu");
    service.metadata.insert("zone", "a".to_string());
    service.metadata.insert("zone", "b".to_string());
    let copy = service.clone();
    assert_eq!(copy.id, "a-1");
    assert_eq!(copy.name, "api");
    assert_eq!(copy.address, "localhost");
    assert_eq!(copy.port, 8080);
    assert_eq!(copy.tags, vec!["v1", "eu"]);
    assert_eq!(copy.metadata.len(), 1);
    assert_eq!(copy.metadata.get("zone").map(String::as_str), Some("b"));
    assert_eq!(copy.health_check_url, None);
}
