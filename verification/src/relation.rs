//! Relations: typed, signed links between entities.

use vstd::prelude::*;

use crate::address::{Address, AddressView, Domain};
use crate::agent::{clamp_fixed, spec_clamp};
use crate::codec::SCALE;
use crate::crypto::{fresh_uuid, now_millis};
use crate::text::{ascii_upper, ascii_upper_matches, to_owned_string};

verus! {

/// The permitted relation types.
#[derive(Debug, Clone, Copy, PartialEq, Eq, Structural)]
pub enum RelationType {
    Trust,
    Supports,
    Contradicts,
    Extends,
    Supersedes,
    DerivedFrom,
    RelatedTo,
    ExampleOf,
    Specializes,
    Clarifies,
    Generalizes,
}

impl Default for RelationType {
    fn default() -> (r: Self)
        ensures
            r == RelationType::RelatedTo,
    {
        RelationType::RelatedTo
    }
}

impl RelationType {
    /// The canonical upper-case text of this relation type.
    pub open spec fn text(self) -> Seq<char> {
        match self {
            RelationType::Trust => "TRUST"@,
            RelationType::Supports => "SUPPORTS"@,
            RelationType::Contradicts => "CONTRADICTS"@,
            RelationType::Extends => "EXTENDS"@,
            RelationType::Supersedes => "SUPERSEDES"@,
            RelationType::DerivedFrom => "DERIVED_FROM"@,
            RelationType::RelatedTo => "RELATED_TO"@,
            RelationType::ExampleOf => "EXAMPLE_OF"@,
            RelationType::Specializes => "SPECIALIZES"@,
            RelationType::Clarifies => "CLARIFIES"@,
            RelationType::Generalizes => "GENERALIZES"@,
        }
    }

    /// Canonical text of this relation type, e.g. `DERIVED_FROM`.
    pub fn as_str(self) -> (r: &'static str)
        ensures
            r@ == self.text(),
    {
        match self {
            RelationType::Trust => "TRUST",
            RelationType::Supports => "SUPPORTS",
            RelationType::Contradicts => "CONTRADICTS",
            RelationType::Extends => "EXTENDS",
            RelationType::Supersedes => "SUPERSEDES",
            RelationType::DerivedFrom => "DERIVED_FROM",
            RelationType::RelatedTo => "RELATED_TO",
            RelationType::ExampleOf => "EXAMPLE_OF",
            RelationType::Specializes => "SPECIALIZES",
            RelationType::Clarifies => "CLARIFIES",
            RelationType::Generalizes => "GENERALIZES",
        }
    }

    /// Which relation type a given (already upper-cased) text names.
    pub open spec fn of_upper_text(s: Seq<char>) -> Option<RelationType> {
        if s == "TRUST"@ {
            Some(RelationType::Trust)
        } else if s == "SUPPORTS"@ {
            Some(RelationType::Supports)
        } else if s == "CONTRADICTS"@ {
            Some(RelationType::Contradicts)
        } else if s == "EXTENDS"@ {
            Some(RelationType::Extends)
        } else if s == "SUPERSEDES"@ {
            Some(RelationType::Supersedes)
        } else if s == "DERIVED_FROM"@ {
            Some(RelationType::DerivedFrom)
        } else if s == "RELATED_TO"@ {
            Some(RelationType::RelatedTo)
        } else if s == "EXAMPLE_OF"@ {
            Some(RelationType::ExampleOf)
        } else if s == "SPECIALIZES"@ {
            Some(RelationType::Specializes)
        } else if s == "CLARIFIES"@ {
            Some(RelationType::Clarifies)
        } else if s == "GENERALIZES"@ {
            Some(RelationType::Generalizes)
        } else {
            None
        }
    }

    /// Parse a relation type; letter case is ignored (ASCII folding).
    pub fn from_str(s: &str) -> (r: Result<RelationType, String>)
        ensures
            match r {
                Ok(t) => RelationType::of_upper_text(ascii_upper(s@)) == Some(t),
                Err(_) => RelationType::of_upper_text(ascii_upper(s@)) is None,
            },
    {
        if ascii_upper_matches(s, "TRUST") {
            proof {
                reveal_strlit("TRUST");
            }
            Ok(RelationType::Trust)
        } else if ascii_upper_matches(s, "SUPPORTS") {
            proof {
                reveal_strlit("SUPPORTS");
            }
            Ok(RelationType::Supports)
        } else if ascii_upper_matches(s, "CONTRADICTS") {
            proof {
                reveal_strlit("CONTRADICTS");
            }
            Ok(RelationType::Contradicts)
        } else if ascii_upper_matches(s, "EXTENDS") {
            proof {
                reveal_strlit("EXTENDS");
            }
            Ok(RelationType::Extends)
        } else if ascii_upper_matches(s, "SUPERSEDES") {
            proof {
                reveal_strlit("SUPERSEDES");
            }
            Ok(RelationType::Supersedes)
        } else if ascii_upper_matches(s, "DERIVED_FROM") {
            proof {
                reveal_strlit("DERIVED_FROM");
            }
            Ok(RelationType::DerivedFrom)
        } else if ascii_upper_matches(s, "RELATED_TO") {
            proof {
                reveal_strlit("RELATED_TO");
            }
            Ok(RelationType::RelatedTo)
        } else if ascii_upper_matches(s, "EXAMPLE_OF") {
            proof {
                reveal_strlit("EXAMPLE_OF");
            }
            Ok(RelationType::ExampleOf)
        } else if ascii_upper_matches(s, "SPECIALIZES") {
            proof {
                reveal_strlit("SPECIALIZES");
            }
            Ok(RelationType::Specializes)
        } else if ascii_upper_matches(s, "CLARIFIES") {
            proof {
                reveal_strlit("CLARIFIES");
            }
            Ok(RelationType::Clarifies)
        } else if ascii_upper_matches(s, "GENERALIZES") {
            proof {
                reveal_strlit("GENERALIZES");
            }
            Ok(RelationType::Generalizes)
        } else {
            proof {
                reveal_strlit("TRUST");
                reveal_strlit("SUPPORTS");
                reveal_strlit("CONTRADICTS");
                reveal_strlit("EXTENDS");
                reveal_strlit("SUPERSEDES");
                reveal_strlit("DERIVED_FROM");
                reveal_strlit("RELATED_TO");
                reveal_strlit("EXAMPLE_OF");
                reveal_strlit("SPECIALIZES");
                reveal_strlit("CLARIFIES");
                reveal_strlit("GENERALIZES");
            }
            let mut m = to_owned_string("Invalid relation type: ");
            m.append(s);
            Err(m)
        }
    }
}

/// Every permitted relation type, in canonical order.
pub fn valid_relation_types() -> (r: Vec<RelationType>)
    ensures
        r@ == seq![
            RelationType::Trust,
            RelationType::Supports,
            RelationType::Contradicts,
            RelationType::Extends,
            RelationType::Supersedes,
            RelationType::DerivedFrom,
            RelationType::RelatedTo,
            RelationType::ExampleOf,
            RelationType::Specializes,
            RelationType::Clarifies,
            RelationType::Generalizes,
        ],
{
    let mut v: Vec<RelationType> = Vec::new();
    v.push(RelationType::Trust);
    v.push(RelationType::Supports);
    v.push(RelationType::Contradicts);
    v.push(RelationType::Extends);
    v.push(RelationType::Supersedes);
    v.push(RelationType::DerivedFrom);
    v.push(RelationType::RelatedTo);
    v.push(RelationType::ExampleOf);
    v.push(RelationType::Specializes);
    v.push(RelationType::Clarifies);
    v.push(RelationType::Generalizes);
    proof {
        assert(v@ =~= seq![
            RelationType::Trust,
            RelationType::Supports,
            RelationType::Contradicts,
            RelationType::Extends,
            RelationType::Supersedes,
            RelationType::DerivedFrom,
            RelationType::RelatedTo,
            RelationType::ExampleOf,
            RelationType::Specializes,
            RelationType::Clarifies,
            RelationType::Generalizes,
        ]);
    }
    v
}

/// The mathematical value of a [`Relation`].
pub struct RelationView {
    pub uuid: Seq<char>,
    pub from: AddressView,
    pub to: AddressView,
    pub by: AddressView,
    pub relation_type: RelationType,
    pub content: Seq<char>,
    pub creator: AddressView,
    pub version: int,
    pub signature: Seq<char>,
    pub when: Option<Seq<char>>,
    pub created_at: int,
    pub confidence: int,
}

/// A typed, signed link between two entities; an empty target makes it a
/// self-typing relation.
#[derive(Debug)]
pub struct Relation {
    pub uuid: String,
    pub from: Address,
    pub to: Address,
    /// The agent asserting the relation.
    pub by: Address,
    pub relation_type: RelationType,
    pub content: String,
    pub creator: Address,
    pub version: u32,
    pub signature: String,
    /// Assertion timestamp as ISO-8601 text, absent when the request gave
    /// none.
    pub when: Option<String>,
    /// Milliseconds since the Unix epoch.
    pub created_at: i64,
    /// Strength of the relationship, fixed-point millionths of `[0, 1]`.
    pub confidence: i64,
}

impl View for Relation {
    type V = RelationView;

    open spec fn view(&self) -> RelationView {
        RelationView {
            uuid: self.uuid@,
            from: self.from@,
            to: self.to@,
            by: self.by@,
            relation_type: self.relation_type,
            content: self.content@,
            creator: self.creator@,
            version: self.version as int,
            signature: self.signature@,
            when: match self.when {
                Some(w) => Some(w@),
                None => None,
            },
            created_at: self.created_at as int,
            confidence: self.confidence as int,
        }
    }
}

impl Clone for Relation {
    /// A copy with the same value.
    fn clone(&self) -> (r: Self)
        ensures
            r@ == self@,
    {
        Relation {
            uuid: self.uuid.clone(),
            from: self.from.clone(),
            to: self.to.clone(),
            by: self.by.clone(),
            relation_type: self.relation_type,
            content: self.content.clone(),
            creator: self.creator.clone(),
            version: self.version,
            signature: self.signature.clone(),
            when: match &self.when {
                Some(w) => Some(w.clone()),
                None => None,
            },
            created_at: self.created_at,
            confidence: self.confidence,
        }
    }
}

/// Structural validity of a relation record.
pub open spec fn spec_relation_valid(r: RelationView) -> bool {
    r.uuid.len() > 0 && r.from.entity.len() > 0 && r.creator.entity.len() > 0 && r.signature.len()
        > 0
}

impl Relation {
    /// A fresh relation asserted by its creator, at full confidence.
    pub fn new(from: Address, to: Address, creator: Address, relation_type: RelationType) -> (r:
        Relation)
        ensures
            r@.from == from@,
            r@.to == to@,
            r@.by == creator@,
            r@.relation_type == relation_type,
            r@.content.len() == 0,
            r@.creator == creator@,
            r@.version == 1,
            r@.signature.len() == 0,
            r@.when is None,
            r@.created_at >= 0,
            r@.confidence == SCALE as int,
    {
        let now = now_millis();
        Relation {
            uuid: fresh_uuid(),
            from,
            to,
            by: creator.clone(),
            relation_type,
            content: String::new(),
            creator,
            version: 1,
            signature: String::new(),
            when: None,
            created_at: now,
            confidence: SCALE,
        }
    }

    /// A relation whose target is empty: it types its own source.
    pub fn self_reference(from: Address, creator: Address, relation_type: RelationType) -> (r:
        Relation)
        ensures
            r@.from == from@,
            r@.to.entity.len() == 0,
            r@.by == creator@,
            r@.relation_type == relation_type,
            r@.creator == creator@,
            r@.version == 1,
            r@.confidence == SCALE as int,
    {
        Relation::new(from, Address::default(), creator, relation_type)
    }

    /// The same relation with this signature.
    pub fn with_signature(self, signature: String) -> (r: Relation)
        ensures
            r@ == (RelationView { signature: signature@, ..self@ }),
    {
        Relation { signature, ..self }
    }

    /// The same relation with this confidence, clamped into `[0, 1]`.
    pub fn with_confidence(self, confidence: i64) -> (r: Relation)
        ensures
            r@ == (RelationView {
                confidence: spec_clamp(confidence as int, 0, SCALE as int),
                ..self@
            }),
    {
        Relation { confidence: clamp_fixed(confidence, 0, SCALE), ..self }
    }

    /// Whether this relation types its own source: the target entity is
    /// empty or equals the source.
    pub fn is_self_reference(&self) -> (r: bool)
        ensures
            r == (self@.to.entity.len() == 0 || self@.from == self@.to),
    {
        self.to.entity.as_str().unicode_len() == 0 || self.from == self.to
    }

    /// Check the record's structural validity.
    pub fn validate(&self) -> (r: Result<(), String>)
        ensures
            r is Ok <==> spec_relation_valid(self@),
    {
        if self.uuid.as_str().unicode_len() == 0 {
            return Err(to_owned_string("uuid is required"));
        }
        if self.from.entity.as_str().unicode_len() == 0 {
            return Err(to_owned_string("from is required"));
        }
        if self.creator.entity.as_str().unicode_len() == 0 {
            return Err(to_owned_string("creator is required"));
        }
        if self.signature.as_str().unicode_len() == 0 {
            return Err(to_owned_string("signature is required"));
        }
        Ok(())
    }
}

/// A request to create a relation, signed by its creator. The type is
/// carried as text and parsed on acceptance.
#[derive(Debug)]
pub struct CreateRelationRequest {
    pub uuid: Option<String>,
    pub from: Address,
    pub to: Address,
    pub by: Address,
    pub relation_type: String,
    pub content: Option<String>,
    pub creator: Address,
    /// Assertion timestamp as ISO-8601 text, if given.
    pub when: Option<String>,
    pub signature: String,
    /// Strength in fixed-point millionths of `[0, 1]`, if given.
    pub confidence: Option<i64>,
}

impl CreateRelationRequest {
    /// The relation type text carried by the request.
    pub fn relation_type(&self) -> (r: &str)
        ensures
            r@ == self.relation_type@,
    {
        self.relation_type.as_str()
    }
}

impl Relation {
    /// Build the stored record from a creation request: a fresh identifier
    /// when none is given, an unknown type text falling back to
    /// `RELATED_TO`, an empty `by` falling back to the creator, and the
    /// confidence clamped when given.
    pub fn from_request(req: CreateRelationRequest) -> (r: Relation)
        ensures
            match req.uuid {
                Some(u) => r@.uuid == u@,
                None => true,
            },
            r@.from == req.from@,
            r@.to == req.to@,
            r@.by == if req.by.entity@.len() > 0 {
                req.by@
            } else {
                req.creator@
            },
            r@.relation_type == match RelationType::of_upper_text(ascii_upper(req.relation_type@)) {
                Some(t) => t,
                None => RelationType::RelatedTo,
            },
            r@.content == match req.content {
                Some(c) => c@,
                None => Seq::<char>::empty(),
            },
            r@.creator == req.creator@,
            r@.version == 1,
            r@.signature == req.signature@,
            r@.when == match req.when {
                Some(w) => Some(w@),
                None => None::<Seq<char>>,
            },
            r@.confidence == match req.confidence {
                Some(c) => spec_clamp(c as int, 0, SCALE as int),
                None => SCALE as int,
            },
            r@.created_at >= 0,
    {
        let relation_type = match RelationType::from_str(req.relation_type.as_str()) {
            Ok(t) => t,
            Err(_) => RelationType::default(),
        };
        let mut relation = Relation::new(req.from, req.to, req.creator, relation_type);
        if let Some(u) = req.uuid {
            relation.uuid = u;
        }
        relation.signature = req.signature;
        if req.by.entity.as_str().unicode_len() != 0 {
            relation.by = req.by;
        }
        if let Some(content) = req.content {
            relation.content = content;
        }
        relation.when = req.when;
        if let Some(confidence) = req.confidence {
            relation = relation.with_confidence(confidence);
        }
        relation
    }
}

} // verus!
