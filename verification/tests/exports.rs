use armature_discovery::{
    ConsulDiscovery, DiscoveryError, EtcdDiscovery, InMemoryDiscovery, ServiceInstance,
};

#[test]
fn test_module_exports() {
    // The crate's root gives the backends and what they exchange.
    let _: fn(&str) -> Result<ConsulDiscovery, DiscoveryError> = ConsulDiscovery::new;
    let _: fn(&str, &str) -> Result<EtcdDiscovery, DiscoveryError> = EtcdDiscovery::new;
    let _: fn() -> InMemoryDiscovery = InMemoryDiscovery::new;
    let _: fn(&str, &str, &str, u16) -> ServiceInstance = ServiceInstance::new;
}

#[test]
fn errors_describe_themselves() {
    let text = "x".to_string();
    assert_eq!(DiscoveryError::ServiceNotFound(text.clone()).message(), "Service not found: x");
    assert_eq!(DiscoveryError::RegistrationFailed(text.clone()).message(), "Registration failed: x");
    assert_eq!(
        DiscoveryError::DeregistrationFailed(text.clone()).message(),
        "Deregistration failed: x"
    );
    assert_eq!(
        DiscoveryError::InvalidConfiguration(text.clone()).message(),
        "Invalid configuration: x"
    );
    assert_eq!(DiscoveryError::Http(text).message(), "HTTP error: x");
}
