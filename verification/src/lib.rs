//! A federated knowledge hub core: signed entities, a keyed in-memory store
//! with cursored pagination, a trust-path engine over agent-embedded trust
//! edges, a hub registry with heartbeat liveness, and federated search
//! merging. Network and disk transports live outside this crate; the logic
//! here is verified.

pub mod address;
pub mod agent;
pub mod api;
pub mod codec;
pub mod crypto;
pub mod discovery_service;
pub mod entity_service;
pub mod errors;
pub mod federated_search_service;
pub mod federation;
pub mod fragment;
pub mod path_finder;
pub mod registry;
pub mod relation;
pub mod resources;
pub mod settings;
pub mod signable;
pub mod store;
pub mod tag;
pub mod text;
pub mod transform;
pub mod trust;
pub mod trust_service;
pub mod validity;

pub use address::{Address, AddressError, Domain};
pub use errors::{HubError, HubResult};
