//! The keyed in-memory store: writes, reads, pagination and search.

use wisdom_hub::address::Address;
use wisdom_hub::agent::Agent;
use wisdom_hub::fragment::Fragment;
use wisdom_hub::store::{Cursor, EntityStore};

#[test]
fn test_agent_crud() {
    let mut store = EntityStore::new();
    let agent = Agent::new("test-uuid".to_string(), "test-public-key".to_string())
        .with_signature("sig".to_string());

    store.put_agent(agent.clone());

    let retrieved = store.get_agent("test-uuid").unwrap();
    assert_eq!(retrieved.uuid, agent.uuid);

    store.delete_agent("test-uuid");
    assert!(store.get_agent("test-uuid").is_none());
}

#[test]
fn test_fragment_crud() {
    let mut store = EntityStore::new();
    let creator = Address::agent("hub:8080".to_string(), "agent-uuid".to_string());
    let fragment = Fragment::new("Hello, world!".to_string(), creator)
        .with_signature("sig".to_string());
    let uuid = fragment.uuid.clone();

    store.put_fragment(fragment.clone());

    let retrieved = store.get_fragment(&uuid).unwrap();
    assert_eq!(retrieved.content, fragment.content);
}

#[test]
fn test_list_agents() {
    let mut store = EntityStore::new();

    for i in 0..5 {
        let agent = Agent::new(format!("uuid-{}", i), "key".to_string())
            .with_signature("sig".to_string());
        store.put_agent(agent);
    }

    let result = store.list_agents(&Cursor::start(), 3);
    assert_eq!(result.items.len(), 3);
    assert!(result.has_more);

    let cursor = Cursor::from_string(&result.next_cursor.unwrap()).unwrap();
    let result2 = store.list_agents(&cursor, 3);
    assert_eq!(result2.items.len(), 2);
    assert!(!result2.has_more);
}

#[test]
fn test_search_fragments() {
    let mut store = EntityStore::new();
    let creator = Address::agent("hub:8080".to_string(), "agent-uuid".to_string());

    store.put_fragment(
        Fragment::new("Rust is awesome".to_string(), creator.clone())
            .with_signature("s".to_string()),
    );
    store.put_fragment(
        Fragment::new("Python is great".to_string(), creator.clone())
            .with_signature("s".to_string()),
    );
    store.put_fragment(
        Fragment::new("Rust performance".to_string(), creator).with_signature("s".to_string()),
    );

    let results = store.search_fragments("rust", 10);
    assert_eq!(results.len(), 2);
}

#[test]
fn test_count_entities() {
    let mut store = EntityStore::new();

    assert_eq!(store.count_agents(), 0);

    for i in 0..3 {
        store.put_agent(
            Agent::new(format!("uuid-{}", i), "key".to_string()).with_signature("s".to_string()),
        );
    }

    assert_eq!(store.count_agents(), 3);
}

#[test]
fn test_put_replaces_under_same_identifier() {
    let mut store = EntityStore::new();
    store.put_agent(
        Agent::new("a1".to_string(), "key-one".to_string()).with_signature("s".to_string()),
    );
    store.put_agent(
        Agent::new("a1".to_string(), "key-two".to_string()).with_signature("s".to_string()),
    );
    assert_eq!(store.count_agents(), 1);
    assert_eq!(store.get_agent("a1").unwrap().public_key, "key-two");
}

#[test]
fn test_cursor_round_trip() {
    assert_eq!(Cursor::start().to_string(), "");
    let c = Cursor::from_string("abc").unwrap();
    assert_eq!(c.to_string(), "abc");
    let s = Cursor::from_string("").unwrap();
    assert_eq!(s.to_string(), "");
}

#[test]
fn test_find_tag_by_name() {
    let mut store = EntityStore::new();
    let creator = Address::agent("hub:8080".to_string(), "agent-1".to_string());
    let tag = wisdom_hub::tag::Tag::new(
        "rust".to_string(),
        wisdom_hub::tag::TagCategory::Language,
        creator,
    )
    .with_signature("s".to_string());
    store.put_tag(tag);

    assert!(store.find_tag_by_name("rust").is_some());
    assert!(store.find_tag_by_name("python").is_none());
}

#[test]
fn test_relations_by_endpoint() {
    let mut store = EntityStore::new();
    let creator = Address::agent("hub:8080".to_string(), "agent-1".to_string());
    let f1 = Address::fragment("hub:8080".to_string(), "f1".to_string());
    let f2 = Address::fragment("hub:8080".to_string(), "f2".to_string());
    let f3 = Address::fragment("hub:8080".to_string(), "f3".to_string());

    store.put_relation(
        wisdom_hub::relation::Relation::new(
            f1.clone(),
            f2.clone(),
            creator.clone(),
            wisdom_hub::relation::RelationType::Supports,
        )
        .with_signature("s".to_string()),
    );
    store.put_relation(
        wisdom_hub::relation::Relation::new(
            f3.clone(),
            f2.clone(),
            creator,
            wisdom_hub::relation::RelationType::Contradicts,
        )
        .with_signature("s".to_string()),
    );

    assert_eq!(store.get_relations_by_from("f1").len(), 1);
    assert_eq!(store.get_relations_by_to("f2").len(), 2);
    assert_eq!(store.get_relations_by_to("f1").len(), 0);
}
