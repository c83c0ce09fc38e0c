//! The entity models: construction, builders, validation, trust paths.
//! Unit-interval quantities are fixed-point millionths.

use wisdom_hub::address::Address;
use wisdom_hub::agent::{Agent, CreateAgentRequest, Trust, TrustStore};
use wisdom_hub::fragment::{EvidenceType, Fragment};
use wisdom_hub::relation::{Relation, RelationType};
use wisdom_hub::tag::{Tag, TagCategory};
use wisdom_hub::transform::Transform;
use wisdom_hub::trust::{TrustPath, TrustScore};

#[test]
fn agent_test_create_agent() {
    let agent = Agent::new("test-uuid".to_string(), "base64-public-key".to_string())
        .with_signature("test-sig".to_string());
    assert_eq!(agent.uuid, "test-uuid");
    assert_eq!(agent.public_key, "base64-public-key");
    assert_eq!(agent.version, 1);
}

#[test]
fn test_trust_store() {
    let mut agent =
        Agent::new("test-uuid".to_string(), "key".to_string()).with_signature("sig".to_string());

    let other = Address::agent("hub:8080".to_string(), "other-agent".to_string());
    agent.add_trust(other.clone(), 800_000);

    assert_eq!(agent.trust.num_trusts, 1);
    assert_eq!(agent.get_trust_for(&other), 800_000);
}

#[test]
fn test_trust_clamping() {
    let mut agent =
        Agent::new("test".to_string(), "key".to_string()).with_signature("sig".to_string());

    let other = Address::agent("hub:8080".to_string(), "other".to_string());
    agent.add_trust(other.clone(), 1_500_000);

    assert_eq!(agent.get_trust_for(&other), 1_000_000);
}

#[test]
fn fragment_test_create_fragment() {
    let creator = Address::agent("hub:8080".to_string(), "agent-uuid".to_string());
    let fragment = Fragment::new("Test content".to_string(), creator.clone())
        .with_signature("test-sig".to_string());

    assert_eq!(fragment.content, "Test content");
    assert_eq!(fragment.creator, creator);
    assert!(!fragment.uuid.is_empty());
}

#[test]
fn test_fragment_with_tags() {
    let creator = Address::agent("hub:8080".to_string(), "agent-uuid".to_string());
    let tag1 = Address::tag("hub:8080".to_string(), "tag-1".to_string());
    let tag2 = Address::tag("hub:8080".to_string(), "tag-2".to_string());

    let fragment = Fragment::new("Content".to_string(), creator)
        .with_tag(tag1)
        .with_tag(tag2)
        .with_signature("sig".to_string());

    assert_eq!(fragment.tags.len(), 2);
    assert!(fragment.has_tag("tag-1"));
    assert!(fragment.has_tag("tag-2"));
}

#[test]
fn test_fragment_with_transform() {
    let creator = Address::agent("hub:8080".to_string(), "agent-uuid".to_string());
    let transform = Address::transformation("hub:8080".to_string(), "transform-uuid".to_string());

    let fragment = Fragment::new("Content".to_string(), creator)
        .with_transform(transform.clone())
        .with_signature("sig".to_string());

    assert_eq!(fragment.transform, Some(transform));
}

#[test]
fn test_create_relation() {
    let from = Address::fragment("hub:8080".to_string(), "frag-1".to_string());
    let to = Address::fragment("hub:8080".to_string(), "frag-2".to_string());
    let creator = Address::agent("hub:8080".to_string(), "agent-1".to_string());

    let relation = Relation::new(from.clone(), to.clone(), creator.clone(), RelationType::Supports)
        .with_signature("sig".to_string());

    assert_eq!(relation.from, from);
    assert_eq!(relation.to, to);
    assert_eq!(relation.relation_type, RelationType::Supports);
}

#[test]
fn test_self_reference() {
    let from = Address::fragment("hub:8080".to_string(), "frag-1".to_string());
    let creator = Address::agent("hub:8080".to_string(), "agent-1".to_string());

    let relation = Relation::self_reference(from.clone(), creator.clone(), RelationType::RelatedTo)
        .with_signature("sig".to_string());

    assert!(relation.is_self_reference());
    assert_eq!(relation.relation_type, RelationType::RelatedTo);
}

#[test]
fn test_relation_type_parsing() {
    assert_eq!(RelationType::from_str("SUPPORTS").unwrap(), RelationType::Supports);
    assert_eq!(RelationType::from_str("derived_from").unwrap(), RelationType::DerivedFrom);
}

#[test]
fn test_create_tag() {
    let creator = Address::agent("hub:8080".to_string(), "agent-uuid".to_string());
    let tag = Tag::new("rust".to_string(), TagCategory::Language, creator.clone())
        .with_content("Rust programming language".to_string())
        .with_signature("test-sig".to_string());

    assert_eq!(tag.name, "rust");
    assert_eq!(tag.content, "Rust programming language");
    assert_eq!(tag.category, TagCategory::Language);
    assert_eq!(tag.creator, creator);
    assert_eq!(tag.version, 1);
}

#[test]
fn test_tag_category_parsing() {
    assert_eq!(TagCategory::from_str("LANGUAGE").unwrap(), TagCategory::Language);
    assert_eq!(TagCategory::from_str("framework").unwrap(), TagCategory::Framework);
}

#[test]
fn test_tag_validation() {
    let creator = Address::agent("hub:8080".to_string(), "agent-uuid".to_string());
    let tag = Tag::new("rust".to_string(), TagCategory::Language, creator)
        .with_signature("sig".to_string());

    assert!(tag.validate().is_ok());
}

#[test]
fn test_create_transform() {
    let agent = Address::agent("hub:8080".to_string(), "agent-uuid".to_string());
    let transform = Transform::new(
        "Markdown to HTML".to_string(),
        "text/markdown".to_string(),
        "text/html".to_string(),
        agent.clone(),
    )
    .with_description("Converts markdown to HTML".to_string())
    .with_signature("test-sig".to_string());

    assert_eq!(transform.name, "Markdown to HTML");
    assert_eq!(transform.transform_from, "text/markdown");
    assert_eq!(transform.transform_to, "text/html");
    assert_eq!(transform.agent, agent);
    assert_eq!(transform.version, 1);
}

#[test]
fn test_transform_with_tags() {
    let agent = Address::agent("hub:8080".to_string(), "agent-uuid".to_string());
    let tag1 = Address::tag("hub:8080".to_string(), "tag-1".to_string());
    let tag2 = Address::tag("hub:8080".to_string(), "tag-2".to_string());

    let transform = Transform::new(
        "Test".to_string(),
        "text/plain".to_string(),
        "text/markdown".to_string(),
        agent,
    )
    .with_tag(tag1)
    .with_tag(tag2)
    .with_signature("sig".to_string());

    assert_eq!(transform.tags.len(), 2);
    assert!(transform.has_tag("tag-1"));
    assert!(transform.has_tag("tag-2"));
}

#[test]
fn test_transform_validation() {
    let agent = Address::agent("hub:8080".to_string(), "agent-uuid".to_string());
    let transform = Transform::new(
        "Test".to_string(),
        "text/plain".to_string(),
        "text/html".to_string(),
        agent,
    )
    .with_signature("sig".to_string());

    assert!(transform.validate().is_ok());
}

#[test]
fn test_trust_path_direct() {
    let from = Address::agent("hub:8080".to_string(), "agent-1".to_string());
    let to = Address::agent("hub:8080".to_string(), "agent-2".to_string());

    let path = TrustPath::direct(from.clone(), to.clone(), 800_000);

    assert_eq!(path.from, from);
    assert_eq!(path.to, to);
    assert_eq!(path.depth, 1);
    assert_eq!(path.effective_trust, 800_000);
    assert!(path.is_trusted());
}

#[test]
fn test_trust_path_with_damping() {
    let from = Address::agent("hub:8080".to_string(), "agent-1".to_string());
    let to = Address::agent("hub:8080".to_string(), "agent-3".to_string());
    let hop = Address::agent("hub:8080".to_string(), "agent-2".to_string());

    let mut path = TrustPath::empty(from, to);
    path.add_hop(hop, 900_000, 800_000);
    path.add_hop(
        Address::agent("hub:8080".to_string(), "agent-3".to_string()),
        800_000,
        800_000,
    );

    assert_eq!(path.depth, 2);
    // 0.9 * 0.8 * 0.8 = 0.576
    assert!(path.effective_trust < 900_000);
    assert_eq!(path.effective_trust, 576_000);
    assert!(path.is_trusted());
}

#[test]
fn test_distrust_path() {
    let from = Address::agent("hub:8080".to_string(), "agent-1".to_string());
    let to = Address::agent("hub:8080".to_string(), "agent-2".to_string());

    let path = TrustPath::direct(from, to, -500_000);

    assert!(path.is_distrusted());
    assert!(!path.is_trusted());
}

#[test]
fn trust_test_trust_score() {
    let entity = Address::fragment("hub:8080".to_string(), "frag-1".to_string());
    let viewer = Address::agent("hub:8080".to_string(), "agent-1".to_string());

    let score = TrustScore::new(entity.clone(), viewer.clone(), 750_000, 3);

    assert_eq!(score.entity, entity);
    assert_eq!(score.viewer, viewer);
    assert_eq!(score.score, 750_000);
    assert_eq!(score.path_count, 3);
}

#[test]
fn test_evidence_type_parsing() {
    assert_eq!(EvidenceType::from_str("EMPIRICAL").unwrap(), EvidenceType::Empirical);
    assert_eq!(EvidenceType::from_str("logical").unwrap(), EvidenceType::Logical);
    assert!(EvidenceType::from_str("folklore").is_err());
}

#[test]
fn test_request_trust_levels_are_clamped() {
    let edge = Trust {
        agent: Address::agent("hub:8080".to_string(), "other".to_string()),
        trust: 5_000_000,
    };
    let req = CreateAgentRequest {
        uuid: Some("a1".to_string()),
        public_key: "key".to_string(),
        description: None,
        trust: Some(TrustStore { num_trusts: 1, trusts: vec![edge] }),
        primary_hub: None,
        signature: "sig".to_string(),
    };
    let agent = Agent::from_request(req);
    assert_eq!(agent.trust.trusts[0].trust, 1_000_000);
}

#[test]
fn test_empty_inputs_fail_validation() {
    let creator = Address::agent("hub:8080".to_string(), "agent-1".to_string());
    // a fragment without content is rejected
    let f = Fragment::new("".to_string(), creator.clone()).with_signature("sig".to_string());
    assert!(f.validate().is_err());
    // a tag without a signature is rejected
    let t = Tag::new("name".to_string(), TagCategory::Domain, creator);
    assert!(t.validate().is_err());
}
