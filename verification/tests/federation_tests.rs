//! Federated search: the merge, deduplication and ranking rules.

use wisdom_hub::address::Address;
use wisdom_hub::agent::CreateAgentRequest;
use wisdom_hub::entity_service::EntityService;
use wisdom_hub::federated_search_service::{federation_plan, search};
use wisdom_hub::federation::{federated_search_merge, PeerReply};
use wisdom_hub::fragment::Fragment;
use wisdom_hub::resources::ResourceLevel;
use wisdom_hub::store::EntityStore;

fn fragment(uuid: &str, content: &str) -> Fragment {
    let creator = Address::agent("hub:8080".to_string(), "agent-uuid".to_string());
    let mut f = Fragment::new(content.to_string(), creator).with_signature("sig1".to_string());
    f.uuid = uuid.to_string();
    f
}

#[test]
fn federation_test_local_only_search() {
    let local_results = vec![
        fragment("r1", "Result 1"),
        fragment("r2", "Result 2"),
        fragment("r3", "Result 3"),
    ];

    let response = federated_search_merge(local_results, "local-hub", 3, vec![]);

    assert!(!response.federated);
    assert_eq!(response.total, 3);
    assert_eq!(response.sources.len(), 1);
}

#[test]
fn test_federated_search_no_other_hubs() {
    let service = EntityService::without_verification(EntityStore::new());

    let response = search(&service, "test-hub", "test", 10, true, Some(10), vec![]);

    assert!(!response.federated);
    assert_eq!(response.sources.len(), 1);
    assert_eq!(response.sources[0].hub_id, "test-hub");
}

#[test]
fn test_federated_fallback() {
    // Hub H1 with one local match; H2 answers with two more.
    let mut service = EntityService::without_verification(EntityStore::new());
    service
        .create_agent(
            CreateAgentRequest {
                uuid: Some("agent-1".to_string()),
                public_key: "key".to_string(),
                description: None,
                trust: None,
                primary_hub: None,
                signature: "sig".to_string(),
            },
            ResourceLevel::Normal,
        )
        .unwrap();
    let creator = Address::agent("hub:8080".to_string(), "agent-1".to_string());
    let mut local = Fragment::new("x marks the spot".to_string(), creator)
        .with_signature("sig".to_string());
    local.uuid = "local-1".to_string();
    service.store.put_fragment(local);

    let replies = vec![PeerReply {
        hub_id: "h2".to_string(),
        fragments: Some(vec![fragment("remote-1", "x one"), fragment("remote-2", "x two")]),
    }];

    let response = search(&service, "h1", "x", 20, true, Some(3), replies);

    assert!(response.federated);
    assert_eq!(response.total, 3);
    assert_eq!(response.results[0].source_hub_id, "h1");
    assert_eq!(response.results[0].relevance_score, 1_000_000);
    assert_eq!(response.results[1].relevance_score, 900_000);
    assert_eq!(response.results[2].relevance_score, 900_000);
    assert_eq!(response.sources.len(), 2);
    assert_eq!(response.sources[0].hub_id, "h1");
    assert_eq!(response.sources[0].count, 1);
    assert_eq!(response.sources[1].hub_id, "h2");
    assert_eq!(response.sources[1].count, 2);
}

#[test]
fn test_federation_deduplicates_by_uuid() {
    let local_results = vec![fragment("a", "alpha")];
    let replies = vec![
        PeerReply {
            hub_id: "h2".to_string(),
            fragments: Some(vec![fragment("a", "alpha copy"), fragment("b", "beta")]),
        },
        PeerReply {
            hub_id: "h3".to_string(),
            fragments: Some(vec![fragment("b", "beta again"), fragment("c", "gamma")]),
        },
    ];

    let response = federated_search_merge(local_results, "h1", 5, replies);
    assert!(response.federated);
    assert_eq!(response.total, 3);
    for (i, r1) in response.results.iter().enumerate() {
        for r2 in response.results.iter().skip(i + 1) {
            assert_ne!(r1.fragment.uuid, r2.fragment.uuid);
        }
    }
}

#[test]
fn test_failed_peers_are_skipped() {
    let local_results = vec![fragment("a", "alpha")];
    let replies = vec![
        PeerReply { hub_id: "h2".to_string(), fragments: None },
        PeerReply { hub_id: "h3".to_string(), fragments: Some(vec![fragment("b", "beta")]) },
    ];

    let response = federated_search_merge(local_results, "h1", 5, replies);
    assert!(response.federated);
    assert_eq!(response.total, 2);
    // the failed peer contributes no source entry
    assert_eq!(response.sources.len(), 2);
    assert_eq!(response.sources[1].hub_id, "h3");
}

#[test]
fn test_federation_plan() {
    assert_eq!(federation_plan(1, 20, true, Some(3)), (true, 2));
    assert_eq!(federation_plan(5, 20, true, Some(3)), (false, 0));
    assert_eq!(federation_plan(1, 20, false, Some(3)), (false, 2));
    assert_eq!(federation_plan(4, 20, true, None), (true, 16));
}

#[test]
fn test_federated_results_truncate_to_limit() {
    let local_results = vec![fragment("a", "alpha")];
    let replies = vec![PeerReply {
        hub_id: "h2".to_string(),
        fragments: Some(vec![
            fragment("b", "b"),
            fragment("c", "c"),
            fragment("d", "d"),
        ]),
    }];

    let service = EntityService::without_verification(EntityStore::new());
    // the store is empty, so only the peers contribute
    let response = search(&service, "h1", "", 2, true, Some(4), replies);
    assert!(response.federated);
    assert!(response.results.len() <= 2);
    assert_eq!(response.total, response.results.len());
    let _ = local_results;
}

#[test]
fn federated_search_service_test_local_only_search() {
    let service = EntityService::without_verification(EntityStore::new());

    let response = search(&service, "test-hub", "test", 10, false, None, vec![]);

    assert!(!response.federated);
    assert_eq!(response.sources.len(), 1);
    assert_eq!(response.sources[0].hub_id, "test-hub");
}
