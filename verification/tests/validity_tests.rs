//! Reasoning-chain analysis: evidence balance, derivation, cycles, grading.

use wisdom_hub::address::Address;
use wisdom_hub::relation::{Relation, RelationType};
use wisdom_hub::validity::{
    ChainValidity, IssueType, ValidityIssue, ValidityReport, ValidityService,
};

fn create_test_relation(from: &str, to: &str, rel_type: RelationType) -> Relation {
    Relation::new(
        Address::fragment("hub:8080".to_string(), from.to_string()),
        Address::fragment("hub:8080".to_string(), to.to_string()),
        Address::agent("hub:8080".to_string(), "test-agent".to_string()),
        rel_type,
    )
}

#[test]
fn test_evidence_balance() {
    let service = ValidityService::new();

    let relations = vec![
        create_test_relation("support1", "thesis", RelationType::Supports)
            .with_confidence(800_000),
        create_test_relation("support2", "thesis", RelationType::Supports)
            .with_confidence(900_000),
        create_test_relation("contra1", "thesis", RelationType::Contradicts)
            .with_confidence(500_000),
    ];

    let balance = service.calculate_evidence_balance("thesis", &relations);

    assert_eq!(balance.supporting.len(), 2);
    assert_eq!(balance.contradicting.len(), 1);
    assert_eq!(balance.support_score, 1_700_000);
    assert_eq!(balance.contradict_score, 500_000);
    assert_eq!(balance.net_score, 1_200_000);
}

#[test]
fn test_derivation_sources() {
    let service = ValidityService::new();

    let relations = vec![
        create_test_relation("conclusion", "premise1", RelationType::DerivedFrom),
        create_test_relation("conclusion", "premise2", RelationType::DerivedFrom),
        create_test_relation("other", "premise3", RelationType::DerivedFrom),
    ];

    let sources = service.get_derivation_sources("conclusion", &relations);
    assert_eq!(sources.len(), 2);
    assert!(sources.contains(&"premise1".to_string()));
    assert!(sources.contains(&"premise2".to_string()));
}

#[test]
fn test_circular_dependency_detection() {
    let service = ValidityService::new();

    let relations = vec![
        create_test_relation("A", "B", RelationType::DerivedFrom),
        create_test_relation("B", "C", RelationType::DerivedFrom),
        create_test_relation("C", "A", RelationType::DerivedFrom),
    ];

    let cycle = service.check_circular_dependencies("A", &relations);
    assert!(cycle.is_some());
}

#[test]
fn test_no_circular_dependency() {
    let service = ValidityService::new();

    let relations = vec![
        create_test_relation("A", "B", RelationType::DerivedFrom),
        create_test_relation("B", "C", RelationType::DerivedFrom),
    ];

    let cycle = service.check_circular_dependencies("A", &relations);
    assert!(cycle.is_none());
}

#[test]
fn test_validity_report() {
    let mut report = ValidityReport::new();
    assert_eq!(report.validity, ChainValidity::Valid);

    report.add_issue(ValidityIssue::new(
        "frag1".to_string(),
        IssueType::LowConfidence,
        "Low confidence".to_string(),
        300_000,
    ));
    assert_eq!(report.validity, ChainValidity::Conditional);

    report.add_issue(ValidityIssue::new(
        "frag2".to_string(),
        IssueType::ContestedPremise,
        "Contested".to_string(),
        500_000,
    ));
    assert_eq!(report.validity, ChainValidity::Contested);

    report.add_issue(ValidityIssue::new(
        "frag3".to_string(),
        IssueType::MissingReference,
        "Missing".to_string(),
        1_000_000,
    ));
    assert_eq!(report.validity, ChainValidity::Broken);
}

#[test]
fn test_report_score_shrinks() {
    let mut report = ValidityReport::new();
    assert_eq!(report.confidence_weighted_score, 1_000_000);
    // 1.0 * (1 - 0.2) where severity 1.0 contributes a fifth
    report.add_issue(ValidityIssue::new(
        "frag1".to_string(),
        IssueType::UnverifiedSource,
        "untrusted".to_string(),
        1_000_000,
    ));
    assert_eq!(report.confidence_weighted_score, 800_000);
    // 0.8 * (1 - 0.06) with severity 0.3
    report.add_issue(ValidityIssue::new(
        "frag2".to_string(),
        IssueType::LowConfidence,
        "shaky".to_string(),
        300_000,
    ));
    assert_eq!(report.confidence_weighted_score, 752_000);
}

#[test]
fn test_find_support_and_contradiction() {
    let service = ValidityService::new();
    let relations = vec![
        create_test_relation("s1", "thesis", RelationType::Supports),
        create_test_relation("c1", "thesis", RelationType::Contradicts),
        create_test_relation("s2", "thesis", RelationType::Supports),
        create_test_relation("x", "other", RelationType::Supports),
    ];
    assert_eq!(service.find_supporting_relations("thesis", &relations), vec![0, 2]);
    assert_eq!(service.find_contradicting_relations("thesis", &relations), vec![1]);
}
