//! The signable payload of each entity kind: a fixed field set, rendered as
//! canonical JSON, over which signatures are made and checked.

use vstd::prelude::*;

use crate::address::{Address, AddressView};
use crate::agent::{Agent, CreateAgentRequest};
use crate::codec::{canon, canonical_bytes, jv_view, lemma_member_views_eq, lemma_views_eq, JsonV,
    JsonValue};
use crate::fragment::{CreateFragmentRequest, EvidenceType, Fragment};
use crate::relation::{CreateRelationRequest, Relation};
use crate::tag::{CreateTagRequest, Tag};
use crate::text::to_owned_string;
use crate::transform::{CreateTransformRequest, Transform};

verus! {

/// An address as a JSON object, keys in canonical order.
pub open spec fn spec_json_address(a: AddressView) -> JsonV {
    JsonV::Object(
        seq![
            ("domain"@, JsonV::Str(a.domain.text())),
            ("entity"@, JsonV::Str(a.entity)),
            ("server_port"@, JsonV::Str(a.server_port)),
        ],
    )
}

/// The agent payload: `description, primary_hub, public_key, trust` (empty
/// at creation), `uuid`.
pub open spec fn spec_agent_payload(
    description: Seq<char>,
    primary_hub: Seq<char>,
    public_key: Seq<char>,
    uuid: Seq<char>,
) -> JsonV {
    JsonV::Object(
        seq![
            ("description"@, JsonV::Str(description)),
            ("primary_hub"@, JsonV::Str(primary_hub)),
            ("public_key"@, JsonV::Str(public_key)),
            ("trust"@, JsonV::Object(Seq::empty())),
            ("uuid"@, JsonV::Str(uuid)),
        ],
    )
}

/// The fragment payload: `confidence, content, creator, evidence_type,
/// tags, transform, uuid, when` (empty text when absent).
pub open spec fn spec_fragment_payload(
    confidence: int,
    content: Seq<char>,
    creator: AddressView,
    evidence_type: EvidenceType,
    tags: Seq<AddressView>,
    transform: Option<AddressView>,
    uuid: Seq<char>,
    when: Seq<char>,
) -> JsonV {
    JsonV::Object(
        seq![
            ("confidence"@, JsonV::Fixed(confidence)),
            ("content"@, JsonV::Str(content)),
            ("creator"@, spec_json_address(creator)),
            ("evidence_type"@, JsonV::Str(evidence_type.text())),
            ("tags"@, JsonV::Array(tags.map_values(|a: AddressView| spec_json_address(a)))),
            (
                "transform"@,
                match transform {
                    Some(t) => spec_json_address(t),
                    None => JsonV::Null,
                },
            ),
            ("uuid"@, JsonV::Str(uuid)),
            ("when"@, JsonV::Str(when)),
        ],
    )
}

/// The relation payload: `by, content, creator, from, to, type, uuid, when`
/// with the type kept as the request's text.
pub open spec fn spec_relation_payload(
    by: AddressView,
    content: Seq<char>,
    creator: AddressView,
    from: AddressView,
    to: AddressView,
    type_text: Seq<char>,
    uuid: Seq<char>,
    when: Seq<char>,
) -> JsonV {
    JsonV::Object(
        seq![
            ("by"@, spec_json_address(by)),
            ("content"@, JsonV::Str(content)),
            ("creator"@, spec_json_address(creator)),
            ("from"@, spec_json_address(from)),
            ("to"@, spec_json_address(to)),
            ("type"@, JsonV::Str(type_text)),
            ("uuid"@, JsonV::Str(uuid)),
            ("when"@, JsonV::Str(when)),
        ],
    )
}

/// The tag payload: `category, content, creator, name, uuid`.
pub open spec fn spec_tag_payload(
    category: Seq<char>,
    content: Seq<char>,
    creator: AddressView,
    name: Seq<char>,
    uuid: Seq<char>,
) -> JsonV {
    JsonV::Object(
        seq![
            ("category"@, JsonV::Str(category)),
            ("content"@, JsonV::Str(content)),
            ("creator"@, spec_json_address(creator)),
            ("name"@, JsonV::Str(name)),
            ("uuid"@, JsonV::Str(uuid)),
        ],
    )
}

/// The transform payload: `additional_data, agent, description, name, tags,
/// transform_from, transform_to, uuid`.
pub open spec fn spec_transform_payload(
    additional_data: Seq<char>,
    agent: AddressView,
    description: Seq<char>,
    name: Seq<char>,
    tags: Seq<AddressView>,
    transform_from: Seq<char>,
    transform_to: Seq<char>,
    uuid: Seq<char>,
) -> JsonV {
    JsonV::Object(
        seq![
            ("additional_data"@, JsonV::Str(additional_data)),
            ("agent"@, spec_json_address(agent)),
            ("description"@, JsonV::Str(description)),
            ("name"@, JsonV::Str(name)),
            ("tags"@, JsonV::Array(tags.map_values(|a: AddressView| spec_json_address(a)))),
            ("transform_from"@, JsonV::Str(transform_from)),
            ("transform_to"@, JsonV::Str(transform_to)),
            ("uuid"@, JsonV::Str(uuid)),
        ],
    )
}

/// The signable payload of an agent-creation request.
pub open spec fn spec_agent_request_payload(req: CreateAgentRequest) -> JsonV {
    spec_agent_payload(
        match req.description {
            Some(d) => d@,
            None => Seq::<char>::empty(),
        },
        match req.primary_hub {
            Some(h) => h@,
            None => Seq::<char>::empty(),
        },
        req.public_key@,
        match req.uuid {
            Some(u) => u@,
            None => Seq::<char>::empty(),
        },
    )
}

/// The signable payload of a fragment-creation request.
pub open spec fn spec_fragment_request_payload(req: CreateFragmentRequest) -> JsonV {
    spec_fragment_payload(
        match req.confidence {
            Some(c) => c as int,
            None => crate::codec::SCALE as int / 2,
        },
        req.content@,
        req.creator@,
        match req.evidence_type {
            Some(e) => e,
            None => EvidenceType::Unknown,
        },
        match req.tags {
            Some(ts) => Seq::new(ts@.len(), |i: int| ts@[i]@),
            None => Seq::<AddressView>::empty(),
        },
        match req.transform {
            Some(t) => Some(t@),
            None => None,
        },
        match req.uuid {
            Some(u) => u@,
            None => Seq::<char>::empty(),
        },
        match req.when {
            Some(w) => w@,
            None => Seq::<char>::empty(),
        },
    )
}

/// The signable payload of a relation-creation request.
pub open spec fn spec_relation_request_payload(req: CreateRelationRequest) -> JsonV {
    spec_relation_payload(
        req.by@,
        match req.content {
            Some(c) => c@,
            None => Seq::<char>::empty(),
        },
        req.creator@,
        req.from@,
        req.to@,
        req.relation_type@,
        match req.uuid {
            Some(u) => u@,
            None => Seq::<char>::empty(),
        },
        match req.when {
            Some(w) => w@,
            None => Seq::<char>::empty(),
        },
    )
}

/// The signable payload of a tag-creation request.
pub open spec fn spec_tag_request_payload(req: CreateTagRequest) -> JsonV {
    spec_tag_payload(
        req.category.text(),
        req.content@,
        req.creator@,
        req.name@,
        match req.uuid {
            Some(u) => u@,
            None => Seq::<char>::empty(),
        },
    )
}

/// The signable payload of a transform-creation request.
pub open spec fn spec_transform_request_payload(req: CreateTransformRequest) -> JsonV {
    spec_transform_payload(
        req.additional_data@,
        req.agent@,
        req.description@,
        req.name@,
        Seq::new(req.tags@.len(), |i: int| req.tags@[i]@),
        req.transform_from@,
        req.transform_to@,
        match req.uuid {
            Some(u) => u@,
            None => Seq::<char>::empty(),
        },
    )
}

/// The empty JSON object.
fn json_empty_object() -> (r: JsonValue)
    ensures
        r@ == JsonV::Object(Seq::empty()),
{
    let r = JsonValue::Object(Vec::new());
    proof {
        lemma_member_views_eq(r->Object_0@, Seq::empty());
    }
    r
}

/// A JSON string value copied from a slice.
fn json_str(s: &str) -> (r: JsonValue)
    ensures
        r@ == JsonV::Str(s@),
{
    JsonValue::Str(to_owned_string(s))
}

/// An address rendered as its JSON object.
fn json_address(a: &Address) -> (r: JsonValue)
    ensures
        r@ == spec_json_address(a@),
{
    let mut ps: Vec<(String, JsonValue)> = Vec::new();
    ps.push((to_owned_string("domain"), json_str(a.domain.as_str())));
    ps.push((to_owned_string("entity"), json_str(a.entity.as_str())));
    ps.push((to_owned_string("server_port"), json_str(a.server_port.as_str())));
    let r = JsonValue::Object(ps);
    proof {
        lemma_member_views_eq(r->Object_0@, spec_json_address(a@)->Object_0);
    }
    r
}

/// A list of addresses rendered as a JSON array of their objects.
fn json_address_array(ts: &Vec<Address>) -> (r: JsonValue)
    ensures
        r@ == JsonV::Array(
            Seq::new(ts@.len(), |i: int| ts@[i]@).map_values(
                |a: AddressView| spec_json_address(a),
            ),
        ),
{
    let mut es: Vec<JsonValue> = Vec::new();
    let n = ts.len();
    let mut i: usize = 0;
    while i < n
        invariant
            i <= n,
            n == ts@.len(),
            es@.len() == i,
            forall|j: int| 0 <= j < i ==> (#[trigger] es@[j])@ == spec_json_address(ts@[j]@),
        decreases n - i,
    {
        es.push(json_address(&ts[i]));
        i += 1;
    }
    let r = JsonValue::Array(es);
    proof {
        lemma_views_eq(
            r->Array_0@,
            Seq::new(ts@.len(), |i: int| ts@[i]@).map_values(
                |a: AddressView| spec_json_address(a),
            ),
        );
    }
    r
}

/// The canonical signable bytes of an agent-creation request; a missing
/// identifier signs as empty text.
pub fn agent_signable_bytes(req: &CreateAgentRequest) -> (r: Vec<u8>)
    ensures
        r@ == canon(
            spec_agent_payload(
                match &req.description {
                    Some(d) => d@,
                    None => Seq::<char>::empty(),
                },
                match &req.primary_hub {
                    Some(h) => h@,
                    None => Seq::<char>::empty(),
                },
                req.public_key@,
                match &req.uuid {
                    Some(u) => u@,
                    None => Seq::<char>::empty(),
                },
            ),
        ),
{
    let description: &str = match &req.description {
        Some(d) => d.as_str(),
        None => "",
    };
    let primary_hub: &str = match &req.primary_hub {
        Some(h) => h.as_str(),
        None => "",
    };
    let uuid: &str = match &req.uuid {
        Some(u) => u.as_str(),
        None => "",
    };
    let mut ps: Vec<(String, JsonValue)> = Vec::new();
    ps.push((to_owned_string("description"), json_str(description)));
    ps.push((to_owned_string("primary_hub"), json_str(primary_hub)));
    ps.push((to_owned_string("public_key"), json_str(req.public_key.as_str())));
    ps.push((to_owned_string("trust"), json_empty_object()));
    ps.push((to_owned_string("uuid"), json_str(uuid)));
    let v = JsonValue::Object(ps);
    proof {
        reveal_strlit("");
        assert(""@ =~= Seq::<char>::empty());
        let ghost ps_g = v->Object_0@;
        let ghost tgt = spec_agent_payload(
            match &req.description {
                Some(d) => d@,
                None => Seq::<char>::empty(),
            },
            match &req.primary_hub {
                Some(h) => h@,
                None => Seq::<char>::empty(),
            },
            req.public_key@,
            match &req.uuid {
                Some(u) => u@,
                None => Seq::<char>::empty(),
            },
        )->Object_0;
        assert(ps_g.len() == 5);
        assert(ps_g[0].0@ == tgt[0].0 && jv_view(ps_g[0].1) == tgt[0].1);
        assert(ps_g[1].0@ == tgt[1].0 && jv_view(ps_g[1].1) == tgt[1].1);
        assert(ps_g[2].0@ == tgt[2].0 && jv_view(ps_g[2].1) == tgt[2].1);
        assert(ps_g[3].0@ == tgt[3].0 && jv_view(ps_g[3].1) == tgt[3].1);
        assert(ps_g[4].0@ == tgt[4].0 && jv_view(ps_g[4].1) == tgt[4].1);
        lemma_member_views_eq(ps_g, tgt);
    }
    canonical_bytes(&v)
}

/// The canonical signable bytes of a fragment-creation request; the
/// confidence signs as given (default one half), the timestamp as empty
/// text when absent.
pub fn fragment_signable_bytes(req: &CreateFragmentRequest) -> (r: Vec<u8>)
    ensures
        r@ == canon(
            spec_fragment_payload(
                match req.confidence {
                    Some(c) => c as int,
                    None => crate::codec::SCALE as int / 2,
                },
                req.content@,
                req.creator@,
                match req.evidence_type {
                    Some(e) => e,
                    None => EvidenceType::Unknown,
                },
                match &req.tags {
                    Some(ts) => Seq::new(ts@.len(), |i: int| ts@[i]@),
                    None => Seq::<AddressView>::empty(),
                },
                match &req.transform {
                    Some(t) => Some(t@),
                    None => None,
                },
                match &req.uuid {
                    Some(u) => u@,
                    None => Seq::<char>::empty(),
                },
                match &req.when {
                    Some(w) => w@,
                    None => Seq::<char>::empty(),
                },
            ),
        ),
{
    let confidence: i64 = match req.confidence {
        Some(c) => c,
        None => crate::codec::SCALE / 2,
    };
    let evidence: EvidenceType = match req.evidence_type {
        Some(e) => e,
        None => EvidenceType::Unknown,
    };
    let empty_tags: Vec<Address> = Vec::new();
    let tags_json = match &req.tags {
        Some(ts) => json_address_array(ts),
        None => json_address_array(&empty_tags),
    };
    let transform_json = match &req.transform {
        Some(t) => json_address(t),
        None => JsonValue::Null,
    };
    let uuid: &str = match &req.uuid {
        Some(u) => u.as_str(),
        None => "",
    };
    let when: &str = match &req.when {
        Some(w) => w.as_str(),
        None => "",
    };
    let mut ps: Vec<(String, JsonValue)> = Vec::new();
    ps.push((to_owned_string("confidence"), JsonValue::Fixed(confidence)));
    ps.push((to_owned_string("content"), json_str(req.content.as_str())));
    ps.push((to_owned_string("creator"), json_address(&req.creator)));
    ps.push((to_owned_string("evidence_type"), json_str(evidence.as_str())));
    ps.push((to_owned_string("tags"), tags_json));
    ps.push((to_owned_string("transform"), transform_json));
    ps.push((to_owned_string("uuid"), json_str(uuid)));
    ps.push((to_owned_string("when"), json_str(when)));
    let v = JsonValue::Object(ps);
    proof {
        if req.tags is None {
            assert(Seq::new(empty_tags@.len(), |i: int| empty_tags@[i]@) =~= Seq::<
                AddressView,
            >::empty());
            assert(Seq::<AddressView>::empty().map_values(|a: AddressView| spec_json_address(a))
                =~~= Seq::<JsonV>::empty());
        }
        reveal_strlit("");
        assert(""@ =~= Seq::<char>::empty());
        let ghost ps_g = v->Object_0@;
        let ghost tgt = spec_fragment_payload(
            match req.confidence {
                Some(c) => c as int,
                None => crate::codec::SCALE as int / 2,
            },
            req.content@,
            req.creator@,
            match req.evidence_type {
                Some(e) => e,
                None => EvidenceType::Unknown,
            },
            match &req.tags {
                Some(ts) => Seq::new(ts@.len(), |i: int| ts@[i]@),
                None => Seq::<AddressView>::empty(),
            },
            match &req.transform {
                Some(t) => Some(t@),
                None => None,
            },
            match &req.uuid {
                Some(u) => u@,
                None => Seq::<char>::empty(),
            },
            match &req.when {
                Some(w) => w@,
                None => Seq::<char>::empty(),
            },
        )->Object_0;
        assert(ps_g.len() == 8);
        assert(ps_g[0].0@ == tgt[0].0 && jv_view(ps_g[0].1) == tgt[0].1);
        assert(ps_g[1].0@ == tgt[1].0 && jv_view(ps_g[1].1) == tgt[1].1);
        assert(ps_g[2].0@ == tgt[2].0 && jv_view(ps_g[2].1) == tgt[2].1);
        assert(ps_g[3].0@ == tgt[3].0 && jv_view(ps_g[3].1) == tgt[3].1);
        assert(ps_g[4].0@ == tgt[4].0 && jv_view(ps_g[4].1) == tgt[4].1);
        assert(ps_g[5].0@ == tgt[5].0 && jv_view(ps_g[5].1) == tgt[5].1);
        assert(ps_g[6].0@ == tgt[6].0 && jv_view(ps_g[6].1) == tgt[6].1);
        assert(ps_g[7].0@ == tgt[7].0 && jv_view(ps_g[7].1) == tgt[7].1);
        lemma_member_views_eq(ps_g, tgt);
    }
    canonical_bytes(&v)
}

/// The canonical signable bytes of a relation-creation request; the type
/// signs as the request's raw text.
pub fn relation_signable_bytes(req: &CreateRelationRequest) -> (r: Vec<u8>)
    ensures
        r@ == canon(
            spec_relation_payload(
                req.by@,
                match &req.content {
                    Some(c) => c@,
                    None => Seq::<char>::empty(),
                },
                req.creator@,
                req.from@,
                req.to@,
                req.relation_type@,
                match &req.uuid {
                    Some(u) => u@,
                    None => Seq::<char>::empty(),
                },
                match &req.when {
                    Some(w) => w@,
                    None => Seq::<char>::empty(),
                },
            ),
        ),
{
    let content: &str = match &req.content {
        Some(c) => c.as_str(),
        None => "",
    };
    let uuid: &str = match &req.uuid {
        Some(u) => u.as_str(),
        None => "",
    };
    let when: &str = match &req.when {
        Some(w) => w.as_str(),
        None => "",
    };
    let mut ps: Vec<(String, JsonValue)> = Vec::new();
    ps.push((to_owned_string("by"), json_address(&req.by)));
    ps.push((to_owned_string("content"), json_str(content)));
    ps.push((to_owned_string("creator"), json_address(&req.creator)));
    ps.push((to_owned_string("from"), json_address(&req.from)));
    ps.push((to_owned_string("to"), json_address(&req.to)));
    ps.push((to_owned_string("type"), json_str(req.relation_type.as_str())));
    ps.push((to_owned_string("uuid"), json_str(uuid)));
    ps.push((to_owned_string("when"), json_str(when)));
    let v = JsonValue::Object(ps);
    proof {
        reveal_strlit("");
        assert(""@ =~= Seq::<char>::empty());
        lemma_member_views_eq(v->Object_0@, spec_relation_payload(
            req.by@,
            match &req.content {
                Some(c) => c@,
                None => Seq::<char>::empty(),
            },
            req.creator@,
            req.from@,
            req.to@,
            req.relation_type@,
            match &req.uuid {
                Some(u) => u@,
                None => Seq::<char>::empty(),
            },
            match &req.when {
                Some(w) => w@,
                None => Seq::<char>::empty(),
            },
        )->Object_0);
    }
    canonical_bytes(&v)
}

/// The canonical signable bytes of a tag-creation request.
pub fn tag_signable_bytes(req: &CreateTagRequest) -> (r: Vec<u8>)
    ensures
        r@ == canon(
            spec_tag_payload(
                req.category.text(),
                req.content@,
                req.creator@,
                req.name@,
                match &req.uuid {
                    Some(u) => u@,
                    None => Seq::<char>::empty(),
                },
            ),
        ),
{
    let uuid: &str = match &req.uuid {
        Some(u) => u.as_str(),
        None => "",
    };
    let mut ps: Vec<(String, JsonValue)> = Vec::new();
    ps.push((to_owned_string("category"), json_str(req.category.as_str())));
    ps.push((to_owned_string("content"), json_str(req.content.as_str())));
    ps.push((to_owned_string("creator"), json_address(&req.creator)));
    ps.push((to_owned_string("name"), json_str(req.name.as_str())));
    ps.push((to_owned_string("uuid"), json_str(uuid)));
    let v = JsonValue::Object(ps);
    proof {
        reveal_strlit("");
        assert(""@ =~= Seq::<char>::empty());
        lemma_member_views_eq(v->Object_0@, spec_tag_payload(
            req.category.text(),
            req.content@,
            req.creator@,
            req.name@,
            match &req.uuid {
                Some(u) => u@,
                None => Seq::<char>::empty(),
            },
        )->Object_0);
    }
    canonical_bytes(&v)
}

/// The canonical signable bytes of a transform-creation request.
pub fn transform_signable_bytes(req: &CreateTransformRequest) -> (r: Vec<u8>)
    ensures
        r@ == canon(
            spec_transform_payload(
                req.additional_data@,
                req.agent@,
                req.description@,
                req.name@,
                Seq::new(req.tags@.len(), |i: int| req.tags@[i]@),
                req.transform_from@,
                req.transform_to@,
                match &req.uuid {
                    Some(u) => u@,
                    None => Seq::<char>::empty(),
                },
            ),
        ),
{
    let uuid: &str = match &req.uuid {
        Some(u) => u.as_str(),
        None => "",
    };
    let mut ps: Vec<(String, JsonValue)> = Vec::new();
    ps.push((to_owned_string("additional_data"), json_str(req.additional_data.as_str())));
    ps.push((to_owned_string("agent"), json_address(&req.agent)));
    ps.push((to_owned_string("description"), json_str(req.description.as_str())));
    ps.push((to_owned_string("name"), json_str(req.name.as_str())));
    ps.push((to_owned_string("tags"), json_address_array(&req.tags)));
    ps.push((to_owned_string("transform_from"), json_str(req.transform_from.as_str())));
    ps.push((to_owned_string("transform_to"), json_str(req.transform_to.as_str())));
    ps.push((to_owned_string("uuid"), json_str(uuid)));
    let v = JsonValue::Object(ps);
    proof {
        reveal_strlit("");
        assert(""@ =~= Seq::<char>::empty());
        lemma_member_views_eq(v->Object_0@, spec_transform_payload(
            req.additional_data@,
            req.agent@,
            req.description@,
            req.name@,
            Seq::new(req.tags@.len(), |i: int| req.tags@[i]@),
            req.transform_from@,
            req.transform_to@,
            match &req.uuid {
                Some(u) => u@,
                None => Seq::<char>::empty(),
            },
        )->Object_0);
    }
    canonical_bytes(&v)
}

/// Entities whose records carry a signature over a canonical payload.
pub trait Signable {
    /// The signable payload in the mathematical world.
    spec fn spec_signable_payload(&self) -> JsonV;

    /// The carried signature in the mathematical world.
    spec fn spec_signature(&self) -> Seq<char>;

    /// The canonical bytes the signature covers.
    fn signable_data(&self) -> (r: Vec<u8>)
        ensures
            r@ == canon(self.spec_signable_payload()),
    ;

    /// The carried signature.
    fn signature(&self) -> (r: &str)
        ensures
            r@ == self.spec_signature(),
    ;

    /// Replace the carried signature, leaving the payload as it was.
    fn set_signature(&mut self, signature: String)
        ensures
            final(self).spec_signature() == signature@,
            final(self).spec_signable_payload() == old(self).spec_signable_payload(),
    ;
}

impl Signable for Agent {
    open spec fn spec_signable_payload(&self) -> JsonV {
        spec_agent_payload(self@.description, self@.primary_hub, self@.public_key, self@.uuid)
    }

    open spec fn spec_signature(&self) -> Seq<char> {
        self@.signature
    }

    fn signable_data(&self) -> (r: Vec<u8>) {
        let mut ps: Vec<(String, JsonValue)> = Vec::new();
        ps.push((to_owned_string("description"), json_str(self.description.as_str())));
        ps.push((to_owned_string("primary_hub"), json_str(self.primary_hub.as_str())));
        ps.push((to_owned_string("public_key"), json_str(self.public_key.as_str())));
        ps.push((to_owned_string("trust"), json_empty_object()));
        ps.push((to_owned_string("uuid"), json_str(self.uuid.as_str())));
        let v = JsonValue::Object(ps);
        proof {
            reveal_strlit("");
        assert(""@ =~= Seq::<char>::empty());
        let ghost ps_g = v->Object_0@;
            let ghost tgt = self.spec_signable_payload()->Object_0;
            assert(ps_g.len() == 5);
            assert(ps_g[0].0@ == tgt[0].0 && jv_view(ps_g[0].1) == tgt[0].1);
            assert(ps_g[1].0@ == tgt[1].0 && jv_view(ps_g[1].1) == tgt[1].1);
            assert(ps_g[2].0@ == tgt[2].0 && jv_view(ps_g[2].1) == tgt[2].1);
            assert(ps_g[3].0@ == tgt[3].0 && jv_view(ps_g[3].1) == tgt[3].1);
            assert(ps_g[4].0@ == tgt[4].0 && jv_view(ps_g[4].1) == tgt[4].1);
            lemma_member_views_eq(ps_g, tgt);
        }
        canonical_bytes(&v)
    }

    fn signature(&self) -> (r: &str) {
        self.signature.as_str()
    }

    fn set_signature(&mut self, signature: String) {
        self.signature = signature;
    }
}

impl Signable for Fragment {
    open spec fn spec_signable_payload(&self) -> JsonV {
        spec_fragment_payload(
            self@.confidence,
            self@.content,
            self@.creator,
            self@.evidence_type,
            self@.tags,
            self@.transform,
            self@.uuid,
            match self@.when {
                Some(w) => w,
                None => Seq::<char>::empty(),
            },
        )
    }

    open spec fn spec_signature(&self) -> Seq<char> {
        self@.signature
    }

    fn signable_data(&self) -> (r: Vec<u8>) {
        let transform_json = match &self.transform {
            Some(t) => json_address(t),
            None => JsonValue::Null,
        };
        let when: &str = match &self.when {
            Some(w) => w.as_str(),
            None => "",
        };
        let mut ps: Vec<(String, JsonValue)> = Vec::new();
        ps.push((to_owned_string("confidence"), JsonValue::Fixed(self.confidence)));
        ps.push((to_owned_string("content"), json_str(self.content.as_str())));
        ps.push((to_owned_string("creator"), json_address(&self.creator)));
        ps.push((to_owned_string("evidence_type"), json_str(self.evidence_type.as_str())));
        ps.push((to_owned_string("tags"), json_address_array(&self.tags)));
        ps.push((to_owned_string("transform"), transform_json));
        ps.push((to_owned_string("uuid"), json_str(self.uuid.as_str())));
        ps.push((to_owned_string("when"), json_str(when)));
        let v = JsonValue::Object(ps);
        proof {
            reveal_strlit("");
        assert(""@ =~= Seq::<char>::empty());
        let ghost ps_g = v->Object_0@;
            let ghost tgt = self.spec_signable_payload()->Object_0;
            assert(ps_g.len() == 8);
            assert(ps_g[0].0@ == tgt[0].0 && jv_view(ps_g[0].1) == tgt[0].1);
            assert(ps_g[1].0@ == tgt[1].0 && jv_view(ps_g[1].1) == tgt[1].1);
            assert(ps_g[2].0@ == tgt[2].0 && jv_view(ps_g[2].1) == tgt[2].1);
            assert(ps_g[3].0@ == tgt[3].0 && jv_view(ps_g[3].1) == tgt[3].1);
            assert(ps_g[4].0@ == tgt[4].0 && jv_view(ps_g[4].1) == tgt[4].1);
            assert(ps_g[5].0@ == tgt[5].0 && jv_view(ps_g[5].1) == tgt[5].1);
            assert(ps_g[6].0@ == tgt[6].0 && jv_view(ps_g[6].1) == tgt[6].1);
            assert(ps_g[7].0@ == tgt[7].0 && jv_view(ps_g[7].1) == tgt[7].1);
            lemma_member_views_eq(ps_g, tgt);
        }
        canonical_bytes(&v)
    }

    fn signature(&self) -> (r: &str) {
        self.signature.as_str()
    }

    fn set_signature(&mut self, signature: String) {
        self.signature = signature;
    }
}

impl Signable for Relation {
    open spec fn spec_signable_payload(&self) -> JsonV {
        spec_relation_payload(
            self@.by,
            self@.content,
            self@.creator,
            self@.from,
            self@.to,
            self@.relation_type.text(),
            self@.uuid,
            match self@.when {
                Some(w) => w,
                None => Seq::<char>::empty(),
            },
        )
    }

    open spec fn spec_signature(&self) -> Seq<char> {
        self@.signature
    }

    fn signable_data(&self) -> (r: Vec<u8>) {
        let when: &str = match &self.when {
            Some(w) => w.as_str(),
            None => "",
        };
        let mut ps: Vec<(String, JsonValue)> = Vec::new();
        ps.push((to_owned_string("by"), json_address(&self.by)));
        ps.push((to_owned_string("content"), json_str(self.content.as_str())));
        ps.push((to_owned_string("creator"), json_address(&self.creator)));
        ps.push((to_owned_string("from"), json_address(&self.from)));
        ps.push((to_owned_string("to"), json_address(&self.to)));
        ps.push((to_owned_string("type"), json_str(self.relation_type.as_str())));
        ps.push((to_owned_string("uuid"), json_str(self.uuid.as_str())));
        ps.push((to_owned_string("when"), json_str(when)));
        let v = JsonValue::Object(ps);
        proof {
            reveal_strlit("");
        assert(""@ =~= Seq::<char>::empty());
        let ghost ps_g = v->Object_0@;
            let ghost tgt = self.spec_signable_payload()->Object_0;
            assert(ps_g.len() == 8);
            assert(ps_g[0].0@ == tgt[0].0 && jv_view(ps_g[0].1) == tgt[0].1);
            assert(ps_g[1].0@ == tgt[1].0 && jv_view(ps_g[1].1) == tgt[1].1);
            assert(ps_g[2].0@ == tgt[2].0 && jv_view(ps_g[2].1) == tgt[2].1);
            assert(ps_g[3].0@ == tgt[3].0 && jv_view(ps_g[3].1) == tgt[3].1);
            assert(ps_g[4].0@ == tgt[4].0 && jv_view(ps_g[4].1) == tgt[4].1);
            assert(ps_g[5].0@ == tgt[5].0 && jv_view(ps_g[5].1) == tgt[5].1);
            assert(ps_g[6].0@ == tgt[6].0 && jv_view(ps_g[6].1) == tgt[6].1);
            assert(ps_g[7].0@ == tgt[7].0 && jv_view(ps_g[7].1) == tgt[7].1);
            lemma_member_views_eq(ps_g, tgt);
        }
        canonical_bytes(&v)
    }

    fn signature(&self) -> (r: &str) {
        self.signature.as_str()
    }

    fn set_signature(&mut self, signature: String) {
        self.signature = signature;
    }
}

impl Signable for Tag {
    open spec fn spec_signable_payload(&self) -> JsonV {
        spec_tag_payload(
            self@.category.text(),
            self@.content,
            self@.creator,
            self@.name,
            self@.uuid,
        )
    }

    open spec fn spec_signature(&self) -> Seq<char> {
        self@.signature
    }

    fn signable_data(&self) -> (r: Vec<u8>) {
        let mut ps: Vec<(String, JsonValue)> = Vec::new();
        ps.push((to_owned_string("category"), json_str(self.category.as_str())));
        ps.push((to_owned_string("content"), json_str(self.content.as_str())));
        ps.push((to_owned_string("creator"), json_address(&self.creator)));
        ps.push((to_owned_string("name"), json_str(self.name.as_str())));
        ps.push((to_owned_string("uuid"), json_str(self.uuid.as_str())));
        let v = JsonValue::Object(ps);
        proof {
            reveal_strlit("");
        assert(""@ =~= Seq::<char>::empty());
        let ghost ps_g = v->Object_0@;
            let ghost tgt = self.spec_signable_payload()->Object_0;
            assert(ps_g.len() == 5);
            assert(ps_g[0].0@ == tgt[0].0 && jv_view(ps_g[0].1) == tgt[0].1);
            assert(ps_g[1].0@ == tgt[1].0 && jv_view(ps_g[1].1) == tgt[1].1);
            assert(ps_g[2].0@ == tgt[2].0 && jv_view(ps_g[2].1) == tgt[2].1);
            assert(ps_g[3].0@ == tgt[3].0 && jv_view(ps_g[3].1) == tgt[3].1);
            assert(ps_g[4].0@ == tgt[4].0 && jv_view(ps_g[4].1) == tgt[4].1);
            lemma_member_views_eq(ps_g, tgt);
        }
        canonical_bytes(&v)
    }

    fn signature(&self) -> (r: &str) {
        self.signature.as_str()
    }

    fn set_signature(&mut self, signature: String) {
        self.signature = signature;
    }
}

impl Signable for Transform {
    open spec fn spec_signable_payload(&self) -> JsonV {
        spec_transform_payload(
            self@.additional_data,
            self@.agent,
            self@.description,
            self@.name,
            self@.tags,
            self@.transform_from,
            self@.transform_to,
            self@.uuid,
        )
    }

    open spec fn spec_signature(&self) -> Seq<char> {
        self@.signature
    }

    fn signable_data(&self) -> (r: Vec<u8>) {
        let mut ps: Vec<(String, JsonValue)> = Vec::new();
        ps.push((to_owned_string("additional_data"), json_str(self.additional_data.as_str())));
        ps.push((to_owned_string("agent"), json_address(&self.agent)));
        ps.push((to_owned_string("description"), json_str(self.description.as_str())));
        ps.push((to_owned_string("name"), json_str(self.name.as_str())));
        ps.push((to_owned_string("tags"), json_address_array(&self.tags)));
        ps.push((to_owned_string("transform_from"), json_str(self.transform_from.as_str())));
        ps.push((to_owned_string("transform_to"), json_str(self.transform_to.as_str())));
        ps.push((to_owned_string("uuid"), json_str(self.uuid.as_str())));
        let v = JsonValue::Object(ps);
        proof {
            reveal_strlit("");
        assert(""@ =~= Seq::<char>::empty());
        let ghost ps_g = v->Object_0@;
            let ghost tgt = self.spec_signable_payload()->Object_0;
            assert(ps_g.len() == 8);
            assert(ps_g[0].0@ == tgt[0].0 && jv_view(ps_g[0].1) == tgt[0].1);
            assert(ps_g[1].0@ == tgt[1].0 && jv_view(ps_g[1].1) == tgt[1].1);
            assert(ps_g[2].0@ == tgt[2].0 && jv_view(ps_g[2].1) == tgt[2].1);
            assert(ps_g[3].0@ == tgt[3].0 && jv_view(ps_g[3].1) == tgt[3].1);
            assert(ps_g[4].0@ == tgt[4].0 && jv_view(ps_g[4].1) == tgt[4].1);
            assert(ps_g[5].0@ == tgt[5].0 && jv_view(ps_g[5].1) == tgt[5].1);
            assert(ps_g[6].0@ == tgt[6].0 && jv_view(ps_g[6].1) == tgt[6].1);
            assert(ps_g[7].0@ == tgt[7].0 && jv_view(ps_g[7].1) == tgt[7].1);
            lemma_member_views_eq(ps_g, tgt);
        }
        canonical_bytes(&v)
    }

    fn signature(&self) -> (r: &str) {
        self.signature.as_str()
    }

    fn set_signature(&mut self, signature: String) {
        self.signature = signature;
    }
}

} // verus!

// Laws of the signing surface.

verus! {

/// A stored agent built from an accepted request presents exactly the
/// signable payload the request was verified against: the signature that
/// was checked covers the record as it rests in the store.
pub proof fn lemma_agent_payload_carries_over(agent: Agent, req: CreateAgentRequest)
    requires
        agent@.description == match req.description {
            Some(d) => d@,
            None => Seq::<char>::empty(),
        },
        agent@.primary_hub == match req.primary_hub {
            Some(h) => h@,
            None => Seq::<char>::empty(),
        },
        agent@.public_key == req.public_key@,
        agent@.uuid == match req.uuid {
            Some(u) => u@,
            None => Seq::<char>::empty(),
        },
    ensures
        agent.spec_signable_payload() == spec_agent_request_payload(req),
{
}

/// A stored tag built from an accepted request presents exactly the
/// signable payload the request was verified against.
pub proof fn lemma_tag_payload_carries_over(tag: Tag, req: CreateTagRequest)
    requires
        tag@.category == req.category,
        tag@.content == req.content@,
        tag@.creator == req.creator@,
        tag@.name == req.name@,
        tag@.uuid == match req.uuid {
            Some(u) => u@,
            None => Seq::<char>::empty(),
        },
    ensures
        tag.spec_signable_payload() == spec_tag_request_payload(req),
{
}

/// A stored fragment built from an accepted request presents exactly the
/// signable payload the request was verified against, provided the given
/// confidence already lay within the unit interval (clamping then changes
/// nothing).
pub proof fn lemma_fragment_payload_carries_over(fragment: Fragment, req: CreateFragmentRequest)
    requires
        fragment@.confidence == match req.confidence {
            Some(c) => c as int,
            None => crate::codec::SCALE as int / 2,
        },
        fragment@.content == req.content@,
        fragment@.creator == req.creator@,
        fragment@.evidence_type == match req.evidence_type {
            Some(e) => e,
            None => EvidenceType::Unknown,
        },
        fragment@.tags == match req.tags {
            Some(ts) => Seq::new(ts@.len(), |i: int| ts@[i]@),
            None => Seq::<AddressView>::empty(),
        },
        fragment@.transform == match req.transform {
            Some(t) => Some(t@),
            None => None::<AddressView>,
        },
        fragment@.uuid == match req.uuid {
            Some(u) => u@,
            None => Seq::<char>::empty(),
        },
        fragment@.when == match req.when {
            Some(w) => Some(w@),
            None => None::<Seq<char>>,
        },
    ensures
        fragment.spec_signable_payload() == spec_fragment_request_payload(req),
{
    match req.when {
        Some(_) => {},
        None => {},
    }
}

} // verus!
