//! Service discovery: in-memory, Consul and etcd backends.
pub mod address;
pub mod codec;
pub mod consul;
pub mod consul_promises;
pub mod document;
pub mod duration;
pub mod error;
pub mod etcd;
pub mod etcd_promises;
pub mod http;
pub mod json;
pub mod keyed;
pub mod keyspace;
pub mod lease;
pub mod lookup;
pub mod lookup_promises;
pub mod memory;
pub mod memory_promises;
pub mod names;
pub mod order;
pub mod outcome;
pub mod range;
pub mod registration;
pub mod registration_promises;
pub mod service;
pub mod service_promises;
pub mod store;
pub mod values_promises;

pub use consul::ConsulDiscovery;
pub use error::DiscoveryError;
pub use etcd::EtcdDiscovery;
pub use memory::InMemoryDiscovery;
pub use service::ServiceInstance;
