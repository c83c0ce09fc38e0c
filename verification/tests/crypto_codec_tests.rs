//! The signing surface: canonical JSON bytes, Ed25519 verification, and
//! the end-to-end create-verify-fetch flows with real keys.

use base64::Engine;
use ed25519_dalek::{Signer, SigningKey};
use wisdom_hub::address::Address;
use wisdom_hub::agent::CreateAgentRequest;
use wisdom_hub::codec::{canonical_bytes, sort_object_members, JsonValue};
use wisdom_hub::crypto::verify_with_key;
use wisdom_hub::entity_service::EntityService;
use wisdom_hub::errors::HubError;
use wisdom_hub::fragment::{CreateFragmentRequest, Fragment};
use wisdom_hub::resources::ResourceLevel;
use wisdom_hub::signable::{agent_signable_bytes, fragment_signable_bytes, Signable};
use wisdom_hub::store::EntityStore;

fn b64(bytes: &[u8]) -> String {
    base64::engine::general_purpose::STANDARD.encode(bytes)
}

fn keypair(seed: u8) -> (SigningKey, String) {
    let sk = SigningKey::from_bytes(&[seed; 32]);
    let pk_b64 = b64(sk.verifying_key().as_bytes());
    (sk, pk_b64)
}

fn sign(sk: &SigningKey, data: &[u8]) -> String {
    b64(&sk.sign(data).to_bytes())
}

#[test]
fn test_sign_and_verify() {
    let (sk, pk) = keypair(1);
    let data = b"Hello, Wisdom Network!";

    let signature = sign(&sk, data);
    let is_valid = verify_with_key(&pk, data, &signature).unwrap();

    assert!(is_valid);
}

#[test]
fn test_verify_wrong_data() {
    let (sk, pk) = keypair(1);
    let data = b"Hello, Wisdom Network!";
    let wrong_data = b"Hello, World!";

    let signature = sign(&sk, data);
    let is_valid = verify_with_key(&pk, wrong_data, &signature).unwrap();

    assert!(!is_valid);
}

#[test]
fn test_verify_wrong_key() {
    let (sk1, _) = keypair(1);
    let (_, pk2) = keypair(2);
    let data = b"Hello, Wisdom Network!";

    let signature = sign(&sk1, data);
    let is_valid = verify_with_key(&pk2, data, &signature).unwrap();

    assert!(!is_valid);
}

#[test]
fn test_verify_with_key() {
    let (sk, pk) = keypair(3);
    let data = b"Test data";

    let signature = sign(&sk, data);
    let is_valid = verify_with_key(&pk, data, &signature).unwrap();

    assert!(is_valid);
}

#[test]
fn test_verify_rejects_bad_key_text() {
    let (sk, _) = keypair(1);
    let signature = sign(&sk, b"data");
    let result = verify_with_key("not base64 at all!!!", b"data", &signature);
    assert!(matches!(result, Err(HubError::InvalidPublicKey(_))));
}

#[test]
fn test_verify_wrong_length_signature_is_false() {
    let (_, pk) = keypair(1);
    let short_sig = b64(&[0u8; 16]);
    assert_eq!(verify_with_key(&pk, b"data", &short_sig).unwrap(), false);
}

#[test]
fn test_canonical_scalars() {
    assert_eq!(canonical_bytes(&JsonValue::Null), b"null");
    assert_eq!(canonical_bytes(&JsonValue::Bool(true)), b"true");
    assert_eq!(canonical_bytes(&JsonValue::Bool(false)), b"false");
    assert_eq!(canonical_bytes(&JsonValue::Fixed(500_000)), b"0.5");
    assert_eq!(canonical_bytes(&JsonValue::Fixed(1_000_000)), b"1");
    assert_eq!(canonical_bytes(&JsonValue::Fixed(-250_000)), b"-0.25");
    assert_eq!(canonical_bytes(&JsonValue::Fixed(0)), b"0");
    assert_eq!(canonical_bytes(&JsonValue::Fixed(12_345_678)), b"12.345678");
}

#[test]
fn test_canonical_strings_and_escapes() {
    assert_eq!(canonical_bytes(&JsonValue::Str("abc".to_string())), b"\"abc\"");
    assert_eq!(
        canonical_bytes(&JsonValue::Str("a\"b\\c\n".to_string())),
        b"\"a\\\"b\\\\c\\n\""
    );
    assert_eq!(canonical_bytes(&JsonValue::Str("\u{1}".to_string())), b"\"\\u0001\"");
}

#[test]
fn test_canonical_object_bytes() {
    let v = JsonValue::Object(vec![
        ("a".to_string(), JsonValue::Str("x".to_string())),
        ("b".to_string(), JsonValue::Fixed(1_500_000)),
    ]);
    assert_eq!(canonical_bytes(&v), b"{\"a\":\"x\",\"b\":1.5}");

    let arr = JsonValue::Array(vec![JsonValue::Null, JsonValue::Bool(true)]);
    assert_eq!(canonical_bytes(&arr), b"[null,true]");
}

#[test]
fn test_canonical_deterministic_under_key_permutation() {
    let one = sort_object_members(vec![
        ("beta".to_string(), JsonValue::Fixed(2_000_000)),
        ("alpha".to_string(), JsonValue::Str("x".to_string())),
        ("gamma".to_string(), JsonValue::Null),
    ]);
    let two = sort_object_members(vec![
        ("gamma".to_string(), JsonValue::Null),
        ("alpha".to_string(), JsonValue::Str("x".to_string())),
        ("beta".to_string(), JsonValue::Fixed(2_000_000)),
    ]);
    let b1 = canonical_bytes(&JsonValue::Object(one));
    let b2 = canonical_bytes(&JsonValue::Object(two));
    assert_eq!(b1, b2);
    assert_eq!(b1, b"{\"alpha\":\"x\",\"beta\":2,\"gamma\":null}");
}

#[test]
fn test_content_hash_exact() {
    let hash = Fragment::compute_hash("Hello, world!");
    assert_eq!(hash, "MV9b23bQeMQ7isAGTkoBZGErH853yGk0W/yUx1iU7dM=");
}

#[test]
fn test_create_and_fetch_agent() {
    // generate a key, sign the canonical agent payload, create, fetch back
    let (sk, pk) = keypair(7);
    let mut req = CreateAgentRequest {
        uuid: Some("a1".to_string()),
        public_key: pk.clone(),
        description: Some("".to_string()),
        trust: None,
        primary_hub: Some("".to_string()),
        signature: String::new(),
    };
    let payload = agent_signable_bytes(&req);
    req.signature = sign(&sk, &payload);

    let mut service = EntityService::new(EntityStore::new());
    let created = service.create_agent(req, ResourceLevel::Normal).unwrap();
    assert_eq!(created.uuid, "a1");

    let fetched = service.get_agent("a1").unwrap();
    assert_eq!(fetched.public_key, pk);
    assert_eq!(fetched.version, 1);
    assert_eq!(fetched.description, "");
    assert_eq!(fetched.primary_hub, "");

    // the stored record still carries a verifiable signature
    let stored_payload = fetched.signable_data();
    assert!(verify_with_key(&pk, &stored_payload, &fetched.signature).unwrap());
}

#[test]
fn test_reject_forged_fragment() {
    let (sk, pk) = keypair(7);
    let mut agent_req = CreateAgentRequest {
        uuid: Some("a1".to_string()),
        public_key: pk.clone(),
        description: None,
        trust: None,
        primary_hub: None,
        signature: String::new(),
    };
    agent_req.signature = sign(&sk, &agent_signable_bytes(&agent_req));

    let mut service = EntityService::new(EntityStore::new());
    service.create_agent(agent_req, ResourceLevel::Normal).unwrap();

    let forged = CreateFragmentRequest {
        uuid: Some("f1".to_string()),
        tags: None,
        transform: None,
        content: "forged".to_string(),
        creator: Address::agent("hub:8080".to_string(), "a1".to_string()),
        when: None,
        signature: b64(&[0x55u8; 64]),
        confidence: None,
        evidence_type: None,
    };
    let result = service.create_fragment(forged, ResourceLevel::Normal);
    let err = result.err().unwrap();
    assert!(matches!(err, HubError::InvalidSignature { .. }));
    assert_eq!(err.http_status(), 401);
    assert_eq!(service.get_stats().unwrap().fragments_count, 0);
}

#[test]
fn test_signed_fragment_accepted() {
    let (sk, pk) = keypair(9);
    let mut agent_req = CreateAgentRequest {
        uuid: Some("a1".to_string()),
        public_key: pk.clone(),
        description: None,
        trust: None,
        primary_hub: None,
        signature: String::new(),
    };
    agent_req.signature = sign(&sk, &agent_signable_bytes(&agent_req));

    let mut service = EntityService::new(EntityStore::new());
    service.create_agent(agent_req, ResourceLevel::Normal).unwrap();

    let mut frag_req = CreateFragmentRequest {
        uuid: Some("f1".to_string()),
        tags: None,
        transform: None,
        content: "a fact worth keeping".to_string(),
        creator: Address::agent("hub:8080".to_string(), "a1".to_string()),
        when: Some("2024-01-01T00:00:00.000Z".to_string()),
        signature: String::new(),
        confidence: Some(750_000),
        evidence_type: None,
    };
    frag_req.signature = sign(&sk, &fragment_signable_bytes(&frag_req));

    let fragment = service.create_fragment(frag_req, ResourceLevel::Normal).unwrap();
    assert_eq!(fragment.confidence, 750_000);
    // the stored content hash is the base64 SHA-256 of the content
    assert_eq!(fragment.content_hash, Fragment::compute_hash("a fact worth keeping"));

    let stored = service.get_fragment("f1").unwrap();
    assert!(verify_with_key(&pk, &stored.signable_data(), &stored.signature).unwrap());
}

#[test]
fn test_pagination_completeness() {
    let mut service = EntityService::without_verification(EntityStore::new());
    for i in 0..5 {
        let req = CreateAgentRequest {
            uuid: Some(format!("a{}", i)),
            public_key: "key".to_string(),
            description: None,
            trust: None,
            primary_hub: None,
            signature: "sig".to_string(),
        };
        service.create_agent(req, ResourceLevel::Normal).unwrap();
    }

    let page1 = service.list_agents(None, 3);
    assert_eq!(page1.items.len(), 3);
    assert_eq!(page1.items[0].uuid, "a0");
    assert_eq!(page1.items[2].uuid, "a2");
    assert_eq!(page1.next_cursor.as_deref(), Some("a2"));
    assert!(page1.has_more);

    let page2 = service.list_agents(Some("a2"), 3);
    assert_eq!(page2.items.len(), 2);
    assert_eq!(page2.items[0].uuid, "a3");
    assert_eq!(page2.items[1].uuid, "a4");
    assert!(page2.next_cursor.is_none());
    assert!(!page2.has_more);

    // together the pages visit every identifier exactly once
    let mut seen: Vec<String> = Vec::new();
    for a in page1.items.iter().chain(page2.items.iter()) {
        assert!(!seen.contains(&a.uuid));
        seen.push(a.uuid.clone());
    }
    assert_eq!(seen.len(), 5);
}

#[test]
fn test_trust_triangle() {
    // a1 trusts a2 at 0.9, a2 trusts a3 at 0.8; effective 0.9*0.8*0.8
    let mut store = EntityStore::new();
    let mk = |uuid: &str| {
        wisdom_hub::agent::Agent::new(uuid.to_string(), "key".to_string())
            .with_signature("sig".to_string())
    };
    let mut a1 = mk("a1");
    let mut a2 = mk("a2");
    let a3 = mk("a3");
    a1.add_trust(Address::agent("hub:8080".to_string(), "a2".to_string()), 900_000);
    a2.add_trust(Address::agent("hub:8080".to_string(), "a3".to_string()), 800_000);
    store.put_agent(a1);
    store.put_agent(a2);
    store.put_agent(a3);

    let service = wisdom_hub::trust_service::TrustService::new(
        store,
        wisdom_hub::trust_service::TrustConfig::default(),
    );
    let from = Address::agent("hub:8080".to_string(), "a1".to_string());
    let to = Address::agent("hub:8080".to_string(), "a3".to_string());
    let path = service.find_best_path(&from, &to).unwrap().unwrap();
    assert_eq!(path.depth, 2);
    assert_eq!(path.effective_trust, 576_000);
}
