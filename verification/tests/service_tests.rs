//! The entity service: creation, listings, stats, uniqueness, referential
//! checks, and the resource gate.

use wisdom_hub::address::Address;
use wisdom_hub::agent::CreateAgentRequest;
use wisdom_hub::entity_service::EntityService;
use wisdom_hub::errors::HubError;
use wisdom_hub::fragment::CreateFragmentRequest;
use wisdom_hub::relation::CreateRelationRequest;
use wisdom_hub::resources::{
    ResourceLevel, ResourceMonitor, ResourceSettings, ResourceStatus,
};
use wisdom_hub::store::EntityStore;
use wisdom_hub::tag::{CreateTagRequest, TagCategory};

fn unverified_service() -> EntityService {
    EntityService::without_verification(EntityStore::new())
}

fn agent_request(uuid: Option<&str>, key: &str) -> CreateAgentRequest {
    CreateAgentRequest {
        uuid: uuid.map(|u| u.to_string()),
        public_key: key.to_string(),
        description: None,
        trust: None,
        primary_hub: None,
        signature: "sig".to_string(),
    }
}

#[test]
fn entity_service_test_create_agent() {
    let mut service = unverified_service();

    let mut req = agent_request(None, "test-key");
    req.description = Some("Test agent".to_string());

    let agent = service.create_agent(req, ResourceLevel::Normal).unwrap();
    assert_eq!(agent.public_key, "test-key");

    let retrieved = service.get_agent(&agent.uuid).unwrap();
    assert_eq!(retrieved.public_key, agent.public_key);
}

#[test]
fn entity_service_test_create_fragment() {
    let mut service = unverified_service();

    let agent = service
        .create_agent(agent_request(Some("agent-1"), "test-key"), ResourceLevel::Normal)
        .unwrap();

    let creator = Address::agent("hub:8080".to_string(), agent.uuid.clone());

    let req = CreateFragmentRequest {
        uuid: None,
        tags: None,
        transform: None,
        content: "Hello, world!".to_string(),
        creator: creator.clone(),
        when: None,
        signature: "sig".to_string(),
        confidence: None,
        evidence_type: None,
    };

    let fragment = service.create_fragment(req, ResourceLevel::Normal).unwrap();
    assert_eq!(fragment.content, "Hello, world!");
    assert_eq!(fragment.creator, creator);
}

#[test]
fn test_list_agents_pagination() {
    let mut service = unverified_service();

    for i in 0..5 {
        service
            .create_agent(agent_request(Some(&format!("agent-{}", i)), "key"), ResourceLevel::Normal)
            .unwrap();
    }

    let result = service.list_agents(None, 3);
    assert_eq!(result.items.len(), 3);
    assert!(result.has_more);

    let result2 = service.list_agents(result.next_cursor.as_deref(), 3);
    assert_eq!(result2.items.len(), 2);
    assert!(!result2.has_more);
}

#[test]
fn test_get_stats() {
    let mut service = unverified_service();

    let stats = service.get_stats().unwrap();
    assert_eq!(stats.agents_count, 0);
    assert_eq!(stats.fragments_count, 0);

    let agent = service
        .create_agent(agent_request(Some("agent-1"), "key"), ResourceLevel::Normal)
        .unwrap();

    let creator = Address::agent("hub:8080".to_string(), agent.uuid.clone());
    service
        .create_fragment(
            CreateFragmentRequest {
                uuid: None,
                tags: None,
                transform: None,
                content: "test".to_string(),
                creator,
                when: None,
                signature: "sig".to_string(),
                confidence: None,
                evidence_type: None,
            },
            ResourceLevel::Normal,
        )
        .unwrap();

    let stats = service.get_stats().unwrap();
    assert_eq!(stats.agents_count, 1);
    assert_eq!(stats.fragments_count, 1);
}

#[test]
fn test_agent_creation_gated_at_critical() {
    let mut service = unverified_service();
    let result = service.create_agent(agent_request(Some("a1"), "key"), ResourceLevel::Critical);
    assert!(matches!(result, Err(HubError::ResourceLimitExceeded(_))));
    assert!(service.get_agent("a1").is_err());
}

#[test]
fn test_unknown_creator_gated_at_critical() {
    let mut service = unverified_service();
    let creator = Address::agent("hub:8080".to_string(), "nobody".to_string());
    let req = CreateFragmentRequest {
        uuid: None,
        tags: None,
        transform: None,
        content: "x".to_string(),
        creator,
        when: None,
        signature: "sig".to_string(),
        confidence: None,
        evidence_type: None,
    };
    let result = service.create_fragment(req, ResourceLevel::Critical);
    assert!(matches!(result, Err(HubError::ResourceLimitExceeded(_))));
}

#[test]
fn test_relation_unresolved_target_not_found() {
    let mut service = unverified_service();
    service
        .create_agent(agent_request(Some("agent-1"), "key"), ResourceLevel::Normal)
        .unwrap();
    let creator = Address::agent("hub:8080".to_string(), "agent-1".to_string());

    let req = CreateRelationRequest {
        uuid: None,
        from: creator.clone(),
        to: Address::fragment("hub:8080".to_string(), "no-such-fragment".to_string()),
        by: creator.clone(),
        relation_type: "SUPPORTS".to_string(),
        content: None,
        creator,
        when: None,
        signature: "sig".to_string(),
        confidence: None,
    };
    let result = service.create_relation(req);
    assert!(matches!(result, Err(HubError::NotFound { .. })));
}

#[test]
fn test_tag_name_uniqueness() {
    let mut service = unverified_service();
    service
        .create_agent(agent_request(Some("agent-1"), "key"), ResourceLevel::Normal)
        .unwrap();
    let creator = Address::agent("hub:8080".to_string(), "agent-1".to_string());

    let req = CreateTagRequest {
        uuid: None,
        name: "rust".to_string(),
        content: "".to_string(),
        category: TagCategory::Language,
        creator: creator.clone(),
        signature: "sig".to_string(),
    };
    assert!(service.create_tag(req).is_ok());

    let again = CreateTagRequest {
        uuid: None,
        name: "rust".to_string(),
        content: "".to_string(),
        category: TagCategory::Language,
        creator,
        signature: "sig".to_string(),
    };
    let second = service.create_tag(again);
    assert!(matches!(second, Err(HubError::AlreadyExists { .. })));
}

#[test]
fn test_error_status_codes() {
    assert_eq!(HubError::not_found("agent", "x").http_status(), 404);
    assert_eq!(HubError::already_exists("tag", "rust").http_status(), 409);
    assert_eq!(HubError::invalid_signature("agent").http_status(), 401);
    assert_eq!(HubError::ValidationError("bad".to_string()).http_status(), 400);
    assert_eq!(HubError::ResourceLimitExceeded("full".to_string()).http_status(), 503);
    assert_eq!(HubError::NetworkError("down".to_string()).http_status(), 502);
    assert_eq!(HubError::RateLimitExceeded.http_status(), 429);
}

#[test]
fn test_resource_level_display() {
    assert_eq!(ResourceLevel::Normal.to_string(), "normal");
    assert_eq!(ResourceLevel::Warning.to_string(), "warning");
    assert_eq!(ResourceLevel::Critical.to_string(), "critical");
}

#[test]
fn test_check_can_accept_agent() {
    let monitor = ResourceMonitor::new(ResourceSettings::default());

    let normal_status = ResourceStatus { level: ResourceLevel::Normal, ..ResourceStatus::default() };
    assert!(monitor.check_can_accept_agent(&normal_status));

    let warning_status =
        ResourceStatus { level: ResourceLevel::Warning, ..ResourceStatus::default() };
    assert!(monitor.check_can_accept_agent(&warning_status));

    let critical_status =
        ResourceStatus { level: ResourceLevel::Critical, ..ResourceStatus::default() };
    assert!(!monitor.check_can_accept_agent(&critical_status));
}

#[test]
fn test_check_can_accept_content() {
    let monitor = ResourceMonitor::new(ResourceSettings::default());

    let normal_status = ResourceStatus { level: ResourceLevel::Normal, ..ResourceStatus::default() };
    assert!(monitor.check_can_accept_content(&normal_status, false));
    assert!(monitor.check_can_accept_content(&normal_status, true));

    let critical_status =
        ResourceStatus { level: ResourceLevel::Critical, ..ResourceStatus::default() };
    assert!(!monitor.check_can_accept_content(&critical_status, false));
    assert!(monitor.check_can_accept_content(&critical_status, true));
}

#[test]
fn test_monitor_levels_follow_thresholds() {
    let mut monitor = ResourceMonitor::new(ResourceSettings::default());
    monitor.update_status(100);
    assert_eq!(monitor.get_status().level, ResourceLevel::Normal);
    monitor.update_status(650);
    assert_eq!(monitor.get_status().level, ResourceLevel::Warning);
    monitor.update_status(810);
    assert_eq!(monitor.get_status().level, ResourceLevel::Critical);
    assert!(monitor.get_hub_status_summary().is_some());
    monitor.update_status(100);
    assert!(monitor.get_hub_status_summary().is_none());
}

#[test]
fn test_default_settings() {
    let settings = wisdom_hub::settings::Settings::default();
    assert_eq!(settings.server.http_port, 8080);
    assert_eq!(settings.server.grpc_port, 50051);
    assert_eq!(settings.trust.max_depth, 5);
}

#[test]
fn test_delete_agent_is_idempotent() {
    let mut service = unverified_service();
    service
        .create_agent(agent_request(Some("a1"), "key"), ResourceLevel::Normal)
        .unwrap();

    assert!(service.delete_agent("a1").is_ok());
    assert!(service.get_agent("a1").is_err());
    // removing an absent record is still no error
    assert!(service.delete_agent("a1").is_ok());
    assert!(service.delete_fragment("never-stored").is_ok());
}

#[test]
fn test_fragment_unresolved_tag_not_found() {
    let mut service = unverified_service();
    service
        .create_agent(agent_request(Some("agent-1"), "key"), ResourceLevel::Normal)
        .unwrap();
    let creator = Address::agent("hub:8080".to_string(), "agent-1".to_string());

    let req = CreateFragmentRequest {
        uuid: None,
        tags: Some(vec![Address::tag("hub:8080".to_string(), "no-such-tag".to_string())]),
        transform: None,
        content: "x".to_string(),
        creator,
        when: None,
        signature: "sig".to_string(),
        confidence: None,
        evidence_type: None,
    };
    let result = service.create_fragment(req, ResourceLevel::Normal);
    assert!(matches!(result, Err(HubError::NotFound { .. })));
}

#[test]
fn test_fragment_resolved_tag_ok() {
    let mut service = unverified_service();
    service
        .create_agent(agent_request(Some("agent-1"), "key"), ResourceLevel::Normal)
        .unwrap();
    let creator = Address::agent("hub:8080".to_string(), "agent-1".to_string());

    let tag = service
        .create_tag(CreateTagRequest {
            uuid: None,
            name: "topic".to_string(),
            content: "".to_string(),
            category: TagCategory::Type,
            creator: creator.clone(),
            signature: "sig".to_string(),
        })
        .unwrap();

    let req = CreateFragmentRequest {
        uuid: None,
        tags: Some(vec![Address::tag("hub:8080".to_string(), tag.uuid.clone())]),
        transform: None,
        content: "x".to_string(),
        creator,
        when: None,
        signature: "sig".to_string(),
        confidence: None,
        evidence_type: None,
    };
    assert!(service.create_fragment(req, ResourceLevel::Normal).is_ok());
}

#[test]
fn test_fragment_unresolved_transform_not_found() {
    let mut service = unverified_service();
    service
        .create_agent(agent_request(Some("agent-1"), "key"), ResourceLevel::Normal)
        .unwrap();
    let creator = Address::agent("hub:8080".to_string(), "agent-1".to_string());

    let req = CreateFragmentRequest {
        uuid: None,
        tags: None,
        transform: Some(Address::transformation(
            "hub:8080".to_string(),
            "no-such-transform".to_string(),
        )),
        content: "x".to_string(),
        creator,
        when: None,
        signature: "sig".to_string(),
        confidence: None,
        evidence_type: None,
    };
    let result = service.create_fragment(req, ResourceLevel::Normal);
    assert!(matches!(result, Err(HubError::NotFound { .. })));
}

#[test]
fn test_creator_domain_must_be_agent() {
    let mut service = unverified_service();
    service
        .create_agent(agent_request(Some("agent-1"), "key"), ResourceLevel::Normal)
        .unwrap();
    // the stored id exists, but the creator address carries the wrong domain
    let creator = Address::tag("hub:8080".to_string(), "agent-1".to_string());

    let req = CreateFragmentRequest {
        uuid: None,
        tags: None,
        transform: None,
        content: "x".to_string(),
        creator,
        when: None,
        signature: "sig".to_string(),
        confidence: None,
        evidence_type: None,
    };
    let result = service.create_fragment(req, ResourceLevel::Normal);
    assert!(matches!(result, Err(HubError::NotFound { .. })));
}

#[test]
fn test_error_message_texts() {
    assert_eq!(
        HubError::not_found("agent", "x").message(),
        "Entity not found: agent with id x"
    );
    assert_eq!(
        HubError::already_exists("tag", "rust").message(),
        "Entity already exists: tag with id rust"
    );
    assert_eq!(
        HubError::ValidationError("bad".to_string()).message(),
        "Validation error: bad"
    );
}
