//! The trust engine: path search, scoring, and the stand-alone evaluator.

use wisdom_hub::address::Address;
use wisdom_hub::agent::{Agent, CreateAgentRequest};
use wisdom_hub::path_finder::{TrustCalculator, TrustPathConfig, TrustPathFinder};
use wisdom_hub::store::EntityStore;
use wisdom_hub::trust::TrustPathHop;
use wisdom_hub::trust_service::{TrustConfig, TrustService};

fn setup_test_service() -> TrustService {
    TrustService::new(EntityStore::new(), TrustConfig::default())
}

fn create_test_agent(store: &mut EntityStore, uuid: &str) -> Agent {
    let req = CreateAgentRequest {
        uuid: Some(uuid.to_string()),
        public_key: "dGVzdC1rZXk=".to_string(),
        description: Some(format!("Agent {}", uuid)),
        trust: None,
        primary_hub: None,
        signature: "sig".to_string(),
    };
    let agent = Agent::from_request(req);
    store.put_agent(agent.clone());
    agent
}

#[test]
fn trust_service_test_self_trust() {
    let mut service = setup_test_service();
    let _alice = create_test_agent(&mut service.store, "alice");
    let alice_addr = Address::agent("hub:8080".to_string(), "alice".to_string());

    let path = service.find_best_path(&alice_addr, &alice_addr).unwrap();
    assert!(path.is_some());
    let path = path.unwrap();
    assert_eq!(path.effective_trust, 1_000_000);
    assert_eq!(path.depth, 1);
}

#[test]
fn test_direct_trust() {
    let mut service = setup_test_service();

    let mut alice = create_test_agent(&mut service.store, "alice");
    let _bob = create_test_agent(&mut service.store, "bob");

    let bob_addr = Address::agent("hub:8080".to_string(), "bob".to_string());
    alice.add_trust(bob_addr.clone(), 900_000);
    service.store.put_agent(alice);

    let alice_addr = Address::agent("hub:8080".to_string(), "alice".to_string());

    let path = service.find_best_path(&alice_addr, &bob_addr).unwrap();
    assert!(path.is_some());
    let path = path.unwrap();
    assert_eq!(path.depth, 1);
    assert_eq!(path.effective_trust, 900_000);
}

#[test]
fn test_transitive_trust() {
    let mut service = setup_test_service();

    let mut alice = create_test_agent(&mut service.store, "alice");
    let mut bob = create_test_agent(&mut service.store, "bob");
    let _charlie = create_test_agent(&mut service.store, "charlie");

    let bob_addr = Address::agent("hub:8080".to_string(), "bob".to_string());
    let charlie_addr = Address::agent("hub:8080".to_string(), "charlie".to_string());

    alice.add_trust(bob_addr.clone(), 900_000);
    service.store.put_agent(alice);

    bob.add_trust(charlie_addr.clone(), 800_000);
    service.store.put_agent(bob);

    let alice_addr = Address::agent("hub:8080".to_string(), "alice".to_string());

    let path = service.find_best_path(&alice_addr, &charlie_addr).unwrap();
    assert!(path.is_some());
    let path = path.unwrap();
    assert_eq!(path.depth, 2);

    // 0.9 * 0.8 * 0.8 (damping) = 0.576
    assert_eq!(path.effective_trust, 576_000);
}

#[test]
fn test_no_path() {
    let mut service = setup_test_service();

    let _alice = create_test_agent(&mut service.store, "alice");
    let _bob = create_test_agent(&mut service.store, "bob");

    let alice_addr = Address::agent("hub:8080".to_string(), "alice".to_string());
    let bob_addr = Address::agent("hub:8080".to_string(), "bob".to_string());

    let path = service.find_best_path(&alice_addr, &bob_addr).unwrap();
    assert!(path.is_none());
}

#[test]
fn trust_service_test_trust_score() {
    let mut service = setup_test_service();

    let mut alice = create_test_agent(&mut service.store, "alice");
    let _bob = create_test_agent(&mut service.store, "bob");

    let alice_addr = Address::agent("hub:8080".to_string(), "alice".to_string());
    let bob_addr = Address::agent("hub:8080".to_string(), "bob".to_string());

    alice.add_trust(bob_addr.clone(), 900_000);
    service.store.put_agent(alice);

    let score = service.calculate_trust_score(&bob_addr, &alice_addr).unwrap();
    assert_eq!(score.score, 900_000);
    assert_eq!(score.path_count, 1);
}

#[test]
fn test_best_path_prefers_higher_trust() {
    let mut service = setup_test_service();

    let mut alice = create_test_agent(&mut service.store, "alice");
    let mut bob = create_test_agent(&mut service.store, "bob");
    let mut carol = create_test_agent(&mut service.store, "carol");
    let _dave = create_test_agent(&mut service.store, "dave");

    let bob_addr = Address::agent("hub:8080".to_string(), "bob".to_string());
    let carol_addr = Address::agent("hub:8080".to_string(), "carol".to_string());
    let dave_addr = Address::agent("hub:8080".to_string(), "dave".to_string());

    alice.add_trust(bob_addr.clone(), 200_000);
    alice.add_trust(carol_addr.clone(), 900_000);
    service.store.put_agent(alice);
    bob.add_trust(dave_addr.clone(), 900_000);
    service.store.put_agent(bob);
    carol.add_trust(dave_addr.clone(), 900_000);
    service.store.put_agent(carol);

    let alice_addr = Address::agent("hub:8080".to_string(), "alice".to_string());
    let path = service.find_best_path(&alice_addr, &dave_addr).unwrap().unwrap();
    // via carol: 0.9 * 0.9 * 0.8 = 0.648; via bob: 0.2 * 0.9 * 0.8 = 0.144
    assert_eq!(path.effective_trust, 648_000);
    assert_eq!(path.hops[0].agent.entity, "carol");
}

#[test]
fn test_get_direct_trust() {
    let mut service = setup_test_service();
    let mut alice = create_test_agent(&mut service.store, "alice");
    let bob_addr = Address::agent("hub:8080".to_string(), "bob".to_string());
    alice.add_trust(bob_addr.clone(), -300_000);
    service.store.put_agent(alice);

    let alice_addr = Address::agent("hub:8080".to_string(), "alice".to_string());
    assert_eq!(service.get_direct_trust(&alice_addr, &bob_addr).unwrap(), Some(-300_000));
    let carol_addr = Address::agent("hub:8080".to_string(), "carol".to_string());
    assert_eq!(service.get_direct_trust(&alice_addr, &carol_addr).unwrap(), None);
}

#[test]
fn test_build_trust_graph() {
    let mut service = setup_test_service();
    let mut alice = create_test_agent(&mut service.store, "alice");
    let _bob = create_test_agent(&mut service.store, "bob");
    let bob_addr = Address::agent("hub:8080".to_string(), "bob".to_string());
    alice.add_trust(bob_addr, 500_000);
    service.store.put_agent(alice);

    let center = Address::agent("hub:8080".to_string(), "alice".to_string());
    let graph = service.build_trust_graph(&center, 2).unwrap();
    assert_eq!(graph.nodes.len(), 2);
    assert_eq!(graph.edges.len(), 1);
    assert_eq!(graph.edges[0].trust_level, 500_000);
}

#[test]
fn path_finder_test_self_trust() {
    let finder = TrustPathFinder::new(TrustPathConfig::default());
    let agent = Address::agent("hub:8080".to_string(), "agent-1".to_string());

    let path = finder.find_best_path(&agent, &agent).unwrap();
    assert!(path.is_some());

    let path = path.unwrap();
    assert_eq!(path.effective_trust, 1_000_000);
    assert_eq!(path.depth, 1);
    assert!(path.is_trusted());
}

#[test]
fn test_effective_trust_calculation() {
    let finder = TrustPathFinder::new(TrustPathConfig::default());

    let hops = vec![
        TrustPathHop {
            agent: Address::agent("hub:8080".to_string(), "agent-1".to_string()),
            trust_level: 900_000,
        },
        TrustPathHop {
            agent: Address::agent("hub:8080".to_string(), "agent-2".to_string()),
            trust_level: 800_000,
        },
    ];

    let effective = finder.calculate_effective_trust(&hops);
    // 0.9 * 0.8 * 0.8 = 0.576
    assert_eq!(effective, 576_000);
}

#[test]
fn test_negative_trust() {
    let finder = TrustPathFinder::new(TrustPathConfig::default());

    let hops = vec![TrustPathHop {
        agent: Address::agent("hub:8080".to_string(), "agent-1".to_string()),
        trust_level: -500_000,
    }];

    let effective = finder.calculate_effective_trust(&hops);
    assert_eq!(effective, -500_000);
}

#[test]
fn test_self_trust_score() {
    let calculator = TrustCalculator::new(TrustPathFinder::new(TrustPathConfig::default()));
    let agent = Address::agent("hub:8080".to_string(), "agent-1".to_string());

    let score = calculator.calculate_score(&agent, &agent).unwrap();

    assert_eq!(score.score, 1_000_000);
    assert_eq!(score.path_count, 1);
    assert!(score.best_path.is_some());
}

#[test]
fn test_no_path_score() {
    let calculator = TrustCalculator::new(TrustPathFinder::new(TrustPathConfig::default()));
    let agent1 = Address::agent("hub:8080".to_string(), "agent-1".to_string());
    let agent2 = Address::agent("hub:8080".to_string(), "agent-2".to_string());

    let score = calculator.calculate_score(&agent2, &agent1).unwrap();

    assert_eq!(score.score, 0);
    assert_eq!(score.path_count, 0);
    assert!(score.best_path.is_none());
}

#[test]
fn test_path_never_revisits() {
    let mut service = setup_test_service();
    let mut alice = create_test_agent(&mut service.store, "alice");
    let mut bob = create_test_agent(&mut service.store, "bob");
    let _carol = create_test_agent(&mut service.store, "carol");

    let alice_addr = Address::agent("hub:8080".to_string(), "alice".to_string());
    let bob_addr = Address::agent("hub:8080".to_string(), "bob".to_string());
    let carol_addr = Address::agent("hub:8080".to_string(), "carol".to_string());

    // a cycle back to alice plus a route onward
    alice.add_trust(bob_addr.clone(), 900_000);
    service.store.put_agent(alice);
    bob.add_trust(alice_addr.clone(), 900_000);
    bob.add_trust(carol_addr.clone(), 700_000);
    service.store.put_agent(bob);

    let path = service.find_best_path(&alice_addr, &carol_addr).unwrap().unwrap();
    assert_eq!(path.depth, 2);
    // 0.9 * 0.7 * 0.8 = 0.504
    assert_eq!(path.effective_trust, 504_000);
    for (i, h) in path.hops.iter().enumerate() {
        assert_ne!(h.agent.entity, "alice");
        for h2 in path.hops.iter().skip(i + 1) {
            assert_ne!(h.agent, h2.agent);
        }
    }
}

#[test]
fn test_best_path_beats_weak_direct_edge() {
    let mut service = setup_test_service();

    let mut alice = create_test_agent(&mut service.store, "alice");
    let mut bob = create_test_agent(&mut service.store, "bob");
    let _carol = create_test_agent(&mut service.store, "carol");

    let bob_addr = Address::agent("hub:8080".to_string(), "bob".to_string());
    let carol_addr = Address::agent("hub:8080".to_string(), "carol".to_string());

    // a weak direct edge alongside a stronger two-hop route
    alice.add_trust(carol_addr.clone(), 300_000);
    alice.add_trust(bob_addr.clone(), 900_000);
    service.store.put_agent(alice);
    bob.add_trust(carol_addr.clone(), 900_000);
    service.store.put_agent(bob);

    let alice_addr = Address::agent("hub:8080".to_string(), "alice".to_string());
    let path = service.find_best_path(&alice_addr, &carol_addr).unwrap().unwrap();
    // via bob: 0.9 * 0.9 * 0.8 = 0.648 beats the direct 0.3
    assert_eq!(path.effective_trust, 648_000);
    assert_eq!(path.depth, 2);
}
