//! The hub registry and the discovery service, with explicit clocks.

use wisdom_hub::discovery_service::{
    DiscoveryConfig, DiscoveryService, HeartbeatRequest, RegisterHubRequest,
};
use wisdom_hub::registry::{HubInfo, HubRegistry, HubStats, HubStatus};
use wisdom_hub::settings::HubRole;

fn test_hub(id: &str, last_seen: i64) -> HubInfo {
    HubInfo {
        hub_id: id.to_string(),
        public_url: "https://test.example.com".to_string(),
        role: "secondary".to_string(),
        status: HubStatus::Healthy,
        last_seen,
        capabilities: vec!["entities".to_string()],
        stats: HubStats::default(),
        public_key: None,
    }
}

#[test]
fn test_hub_registry() {
    let mut registry = HubRegistry::new(60);

    registry.register(test_hub("test-hub", 1_000_000));

    let retrieved = registry.get("test-hub").unwrap();
    assert_eq!(retrieved.public_url, "https://test.example.com");

    let list = registry.list(1_000_000);
    assert_eq!(list.hubs.len(), 1);
}

#[test]
fn registry_test_heartbeat() {
    let mut registry = HubRegistry::new(60);

    let mut hub = test_hub("test-hub", 1_000_000 - 5 * 60 * 1000);
    hub.status = HubStatus::Unknown;
    hub.capabilities = Vec::new();
    registry.register(hub);

    let success = registry.heartbeat(
        "test-hub",
        HubStats { entities_count: 100, ..HubStats::default() },
        1_000_000,
    );

    assert!(success);

    let updated = registry.get("test-hub").unwrap();
    assert_eq!(updated.status, HubStatus::Healthy);
    assert_eq!(updated.stats.entities_count, 100);
}

#[test]
fn test_heartbeat_timeout_marks_inactive() {
    let mut registry = HubRegistry::new(60);
    registry.register(test_hub("h2", 1_000_000));

    // just within the timeout: still healthy
    registry.check_inactive(1_000_000 + 60_000);
    assert_eq!(registry.get("h2").unwrap().status, HubStatus::Healthy);

    // past the timeout: inactive
    registry.check_inactive(1_000_000 + 60_001);
    assert_eq!(registry.get("h2").unwrap().status, HubStatus::Inactive);
}

#[test]
fn test_registry_remove() {
    let mut registry = HubRegistry::new(60);
    registry.register(test_hub("h1", 0));
    assert!(registry.remove("h1"));
    assert!(!registry.remove("h1"));
    assert!(registry.get("h1").is_none());
}

#[test]
fn test_registry_version_monotone() {
    let mut registry = HubRegistry::new(60);
    assert_eq!(registry.version, 0);
    registry.register(test_hub("h1", 0));
    assert_eq!(registry.version, 1);
    registry.register(test_hub("h1", 5));
    assert_eq!(registry.version, 2);
}

fn primary_service() -> DiscoveryService {
    let config = DiscoveryConfig {
        role: HubRole::Primary,
        hub_id: "primary-hub".to_string(),
        public_url: "https://primary.example.com".to_string(),
        ..DiscoveryConfig::default()
    };
    DiscoveryService::new(config, 1_000_000)
}

#[test]
fn test_register_hub() {
    let mut service = primary_service();

    let req = RegisterHubRequest {
        hub_id: "secondary-1".to_string(),
        public_url: "https://secondary1.example.com".to_string(),
        capabilities: vec!["entities".to_string()],
        version: Some("0.1.0".to_string()),
        public_key: None,
    };

    let response = service.register_hub(req, 1_000_000).unwrap();
    assert!(response.registered);
    assert!(response.hub_list.is_some());

    let hub_list = response.hub_list.unwrap();
    assert_eq!(hub_list.hubs.len(), 1);
}

#[test]
fn discovery_service_test_heartbeat() {
    let mut service = primary_service();

    let req = RegisterHubRequest {
        hub_id: "secondary-1".to_string(),
        public_url: "https://secondary1.example.com".to_string(),
        capabilities: vec!["entities".to_string()],
        version: None,
        public_key: None,
    };
    service.register_hub(req, 1_000_000).unwrap();

    let heartbeat_req = HeartbeatRequest {
        hub_id: "secondary-1".to_string(),
        status: "healthy".to_string(),
        stats: HubStats {
            entities_count: 100,
            agents_count: 10,
            fragments_count: 50,
            uptime_seconds: 3600,
        },
    };

    let response = service.process_heartbeat(heartbeat_req, 1_001_000).unwrap();
    assert!(response.acknowledged);
}

#[test]
fn test_get_known_hubs() {
    let mut service = primary_service();

    for i in 1..=3 {
        let req = RegisterHubRequest {
            hub_id: format!("secondary-{}", i),
            public_url: format!("https://secondary{}.example.com", i),
            capabilities: vec!["entities".to_string()],
            version: None,
            public_key: None,
        };
        service.register_hub(req, 1_000_000).unwrap();
    }

    let hub_list = service.get_known_hubs(1_000_000).unwrap();
    // 3 secondary + 1 primary (self)
    assert_eq!(hub_list.hubs.len(), 4);
}

#[test]
fn test_heartbeat_from_unknown_hub() {
    let mut service = primary_service();
    let response = service
        .process_heartbeat(
            HeartbeatRequest {
                hub_id: "stranger".to_string(),
                status: "healthy".to_string(),
                stats: HubStats::default(),
            },
            1_000_000,
        )
        .unwrap();
    assert!(!response.acknowledged);
}

#[test]
fn test_secondary_registration_cycle() {
    let config = DiscoveryConfig {
        role: HubRole::Secondary,
        hub_id: "secondary-9".to_string(),
        public_url: "https://secondary9.example.com".to_string(),
        primary_hub_url: Some("https://primary.example.com".to_string()),
        ..DiscoveryConfig::default()
    };
    let mut service = DiscoveryService::new(config, 0);

    // never registered: registration is due
    assert!(service.needs_registration(0));

    // a primary answers with its directory; adopting it stamps the time
    let mut primary = primary_service();
    let req = match &service.client {
        Some(c) => c.make_register_request(None),
        None => unreachable!(),
    };
    let resp = primary.register_hub(req, 5_000).unwrap();
    service.apply_registration(resp.hub_list.unwrap(), 5_000);

    assert!(!service.needs_registration(5_000 + 300_000));
    assert!(service.needs_registration(5_000 + 300_001 + 999));
    assert!(service.get_known_hubs(6_000).is_ok());
}
