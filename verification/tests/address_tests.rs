//! Address construction, rendering and parsing.

use wisdom_hub::address::{Address, Domain};

#[test]
fn test_create_address() {
    let addr = Address::agent("hub.wisdom.net:8080".to_string(), "abc123".to_string());
    assert_eq!(addr.server_port, "hub.wisdom.net:8080");
    assert_eq!(addr.domain, Domain::Agent);
    assert_eq!(addr.entity, "abc123");
}

#[test]
fn test_address_display() {
    let addr = Address::fragment("hub.wisdom.net:8080".to_string(), "xyz789".to_string());
    assert_eq!(addr.to_string(), "hub.wisdom.net:8080:FRAGMENT:xyz789");
}

#[test]
fn test_hub_address() {
    let addr = Address::hub("hub.wisdom.net:8080".to_string());
    assert!(addr.is_hub());
    assert_eq!(addr.to_string(), "hub.wisdom.net:8080:HUB");
}

#[test]
fn test_domain_parsing() {
    assert_eq!(Domain::from_str("AGENT").unwrap(), Domain::Agent);
    assert_eq!(Domain::from_str("fragment").unwrap(), Domain::Fragment);
}

#[test]
fn test_parse_without_port() {
    let addr = Address::parse("myhost:AGENT:alice").unwrap();
    assert_eq!(addr.server_port, "myhost");
    assert_eq!(addr.domain, Domain::Agent);
    assert_eq!(addr.entity, "alice");
}

#[test]
fn test_parse_unknown_domain_fails() {
    assert!(Address::parse("myhost:NONSENSE:alice").is_none());
}

#[test]
fn test_parse_missing_separator_fails() {
    assert!(Address::parse("justahost").is_none());
}

#[test]
fn test_is_local() {
    let addr = Address::tag("hub:8080".to_string(), "t1".to_string());
    assert!(addr.is_local("hub:8080"));
    assert!(!addr.is_local("elsewhere:8080"));
}

#[test]
fn test_parse_with_port() {
    let addr = Address::parse("hub.wisdom.net:8080:AGENT:alice").unwrap();
    assert_eq!(addr.server_port, "hub.wisdom.net:8080");
    assert_eq!(addr.domain, Domain::Agent);
    assert_eq!(addr.entity, "alice");
}

#[test]
fn test_parse_with_port_round_trip() {
    let addr = Address::fragment("hub.wisdom.net:8080".to_string(), "xyz789".to_string());
    let back = Address::parse(&addr.to_string()).unwrap();
    assert_eq!(back, addr);
}

#[test]
fn test_parse_port_without_domain_fails() {
    assert!(Address::parse("hub.wisdom.net:8080").is_none());
}
