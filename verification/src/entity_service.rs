//! The entity service: creation with signature verification, referential
//! checks and uniqueness rules, plus reads, listings and deletion over the
//! store.

use vstd::prelude::*;

use crate::address::{Address, Domain};
use crate::agent::{trust_store_wf, Agent, CreateAgentRequest};
use crate::codec::canon;
use crate::crypto::{
    b64_decodable, spec_key_acceptable, spec_signature_checks, verify_with_key,
};
use crate::errors::{HubError, HubResult};
use crate::fragment::{spec_content_hash_ok, CreateFragmentRequest, Fragment};
use crate::relation::{CreateRelationRequest, Relation};
use crate::resources::ResourceLevel;
use crate::signable::{
    agent_signable_bytes, fragment_signable_bytes, relation_signable_bytes,
    spec_agent_request_payload, spec_fragment_request_payload, spec_relation_request_payload,
    spec_tag_request_payload, spec_transform_request_payload, tag_signable_bytes,
    transform_signable_bytes,
};
use crate::store::{
    find_index, lemma_get_has_key, lemma_put_get, spec_delete, spec_get, spec_has_key,
    spec_has_tag_name, spec_list_ok, spec_put, spec_search, spec_tag_by_name, Cursor, EntityStore,
    HasUuid, ListResult,
};
use crate::tag::{CreateTagRequest, Tag};
use crate::text::to_owned_string;
use crate::transform::{CreateTransformRequest, Transform};

verus! {

/// Whether an address points at something stored (hub addresses need no
/// record).
pub open spec fn spec_address_resolves(
    store: EntityStore,
    addr: crate::address::AddressView,
) -> bool {
    match addr.domain {
        Domain::Agent => spec_has_key(store.agents@, addr.entity),
        Domain::Fragment => spec_has_key(store.fragments@, addr.entity),
        Domain::Tag => spec_has_key(store.tags@, addr.entity),
        Domain::Transformation => spec_has_key(store.transforms@, addr.entity),
        Domain::Relation => spec_has_key(store.relations@, addr.entity),
        Domain::Hub => true,
    }
}

/// Whether every address of the list resolves in the store.
pub open spec fn spec_addresses_resolve(store: EntityStore, addrs: Seq<Address>) -> bool {
    forall|i: int| 0 <= i < addrs.len() ==> spec_address_resolves(store, (#[trigger] addrs[i])@)
}

/// Whether every address a fragment request references resolves.
pub open spec fn spec_fragment_refs_resolve(
    store: EntityStore,
    req: crate::fragment::CreateFragmentRequest,
) -> bool {
    &&& (match req.tags {
        Some(ts) => spec_addresses_resolve(store, ts@),
        None => true,
    })
    &&& (match req.transform {
        Some(t) => spec_address_resolves(store, t@),
        None => true,
    })
}

/// Counts of the primary entity kinds.
#[derive(Debug, Clone, Copy)]
pub struct EntityStats {
    pub agents_count: u64,
    pub fragments_count: u64,
}

/// The entity service: every write is verified against its author's key
/// before it reaches the store.
#[derive(Debug)]
pub struct EntityService {
    pub store: EntityStore,
    pub verify_signatures: bool,
}

impl EntityService {
    /// A service that verifies every signature.
    pub fn new(store: EntityStore) -> (r: EntityService)
        ensures
            r.store == store,
            r.verify_signatures,
    {
        EntityService { store, verify_signatures: true }
    }

    /// A service that skips signature verification.
    pub fn without_verification(store: EntityStore) -> (r: EntityService)
        ensures
            r.store == store,
            !r.verify_signatures,
    {
        EntityService { store, verify_signatures: false }
    }

    /// The underlying store.
    pub fn store(&self) -> (r: &EntityStore)
        ensures
            r == &self.store,
    {
        &self.store
    }

    /// Create an agent from a self-signed request.
    ///
    /// At the critical resource level the request is refused outright; an
    /// empty key is rejected; when verification is on, the signature must
    /// check over the canonical agent payload under the request's own key.
    /// On success the stored record is returned and can be read back under
    /// its identifier.
    pub fn create_agent(&mut self, req: CreateAgentRequest, level: ResourceLevel) -> (r: HubResult<
        Agent,
    >)
        requires
            old(self).store.wf(),
            old(self).store.agents@.len() < usize::MAX,
        ensures
            final(self).store.wf(),
            final(self).verify_signatures == old(self).verify_signatures,
            final(self).store.fragments@ == old(self).store.fragments@,
            final(self).store.relations@ == old(self).store.relations@,
            final(self).store.tags@ == old(self).store.tags@,
            final(self).store.transforms@ == old(self).store.transforms@,
            r is Ok <==> (level != ResourceLevel::Critical && req.public_key@.len() > 0 && (old(
                self,
            ).verify_signatures ==> spec_signature_checks(
                req.public_key@,
                canon(spec_agent_request_payload(req)),
                req.signature@,
            ))),
            match r {
                Ok(agent) => {
                    &&& agent@.public_key == req.public_key@
                    &&& agent@.signature == req.signature@
                    &&& match req.uuid {
                        Some(u) => agent@.uuid == u@,
                        None => true,
                    }
                    &&& agent@.description == match req.description {
                        Some(d) => d@,
                        None => Seq::<char>::empty(),
                    }
                    &&& agent@.primary_hub == match req.primary_hub {
                        Some(h) => h@,
                        None => Seq::<char>::empty(),
                    }
                    &&& agent@.version == 1
                    &&& trust_store_wf(agent@.trust)
                    &&& match spec_get(final(self).store.agents@, agent@.uuid) {
                        Some(st) => st@ == agent@,
                        None => false,
                    }
                    &&& exists|st: Agent|
                        st@ == agent@ && final(self).store.agents@ == spec_put(
                            old(self).store.agents@,
                            st,
                        )
                },
                Err(e) => {
                    &&& final(self).store.agents@ == old(self).store.agents@
                    &&& match e {
                        HubError::ResourceLimitExceeded(_) => level == ResourceLevel::Critical,
                        HubError::InvalidPublicKey(_) => level != ResourceLevel::Critical && (
                        req.public_key@.len() == 0 || (req.public_key@.len() > 0 && old(
                            self,
                        ).verify_signatures && !spec_key_acceptable(req.public_key@))),
                        HubError::CryptoError(_) => level != ResourceLevel::Critical
                            && req.public_key@.len() > 0 && old(self).verify_signatures
                            && spec_key_acceptable(req.public_key@) && !b64_decodable(
                            req.signature@,
                        ),
                        HubError::InvalidSignature { .. } => level != ResourceLevel::Critical
                            && req.public_key@.len() > 0 && old(self).verify_signatures
                            && spec_key_acceptable(req.public_key@) && b64_decodable(
                            req.signature@,
                        ) && !spec_signature_checks(
                            req.public_key@,
                            canon(spec_agent_request_payload(req)),
                            req.signature@,
                        ),
                        _ => false,
                    }
                },
            },
    {
        if level == ResourceLevel::Critical {
            return Err(
                HubError::ResourceLimitExceeded(
                    to_owned_string("Hub at capacity. New agents not accepted."),
                ),
            );
        }
        if req.public_key.as_str().unicode_len() == 0 {
            return Err(HubError::InvalidPublicKey(to_owned_string("Public key cannot be empty")));
        }
        if self.verify_signatures {
            let data = agent_signable_bytes(&req);
            match verify_with_key(
                req.public_key.as_str(),
                data.as_slice(),
                req.signature.as_str(),
            ) {
                Ok(true) => {},
                Ok(false) => {
                    return Err(HubError::invalid_signature("agent"));
                },
                Err(e) => {
                    return Err(e);
                },
            }
        }
        let agent = Agent::from_request(req);
        let stored = agent.clone();
        proof {
            lemma_put_get(self.store.agents@, stored, stored@.uuid);
        }
        self.store.put_agent(stored);
        Ok(agent)
    }

    /// Read an agent by identifier.
    pub fn get_agent(&self, uuid: &str) -> (r: HubResult<Agent>)
        ensures
            match spec_get(self.store.agents@, uuid@) {
                Some(st) => r matches Ok(a) && a@ == st@,
                None => r matches Err(HubError::NotFound { entity_type: t, id }) && t@
                    == "agent"@ && id@ == uuid@,
            },
    {
        match self.store.get_agent(uuid) {
            Some(a) => Ok(a),
            None => Err(HubError::not_found("agent", uuid)),
        }
    }

    /// One page of the agent family; the page size is clamped to 100.
    pub fn list_agents(&self, cursor: Option<&str>, limit: usize) -> (r: ListResult<Agent>)
        requires
            self.store.wf(),
        ensures
            spec_list_ok(
                self.store.agents@,
                match cursor {
                    Some(c) => if c@.len() == 0 {
                        None
                    } else {
                        Some(c@)
                    },
                    None => None,
                },
                if limit <= 100 {
                    limit as int
                } else {
                    100
                },
                r.items@.map_values(|t: Agent| t@),
                r.next_cursor_key(),
                r.has_more,
            ),
    {
        let cur = match cursor {
            Some(c) => match Cursor::from_string(c) {
                Some(k) => k,
                None => Cursor::start(),
            },
            None => Cursor::start(),
        };
        let capped = if limit <= 100 {
            limit
        } else {
            100
        };
        self.store.list_agents(&cur, capped)
    }

    /// Delete an agent: idempotent key removal, so a missing record is no
    /// error and a repeated call changes nothing more.
    pub fn delete_agent(&mut self, uuid: &str) -> (r: HubResult<()>)
        requires
            old(self).store.wf(),
        ensures
            final(self).store.wf(),
            final(self).verify_signatures == old(self).verify_signatures,
            final(self).store.fragments@ == old(self).store.fragments@,
            final(self).store.relations@ == old(self).store.relations@,
            final(self).store.tags@ == old(self).store.tags@,
            final(self).store.transforms@ == old(self).store.transforms@,
            r is Ok,
            final(self).store.agents@ == spec_delete(old(self).store.agents@, uuid@),
            spec_get(final(self).store.agents@, uuid@) is None,
    {
        proof {
            crate::store::lemma_sorted_nodup(self.store.agents@);
            crate::store::lemma_delete_get(self.store.agents@, uuid@, uuid@);
        }
        self.store.delete_agent(uuid);
        Ok(())
    }
}

impl EntityService {

    /// Read a fragment by identifier.
    pub fn get_fragment(&self, uuid: &str) -> (r: HubResult<Fragment>)
        ensures
            match spec_get(self.store.fragments@, uuid@) {
                Some(st) => r matches Ok(a) && a@ == st@,
                None => r matches Err(HubError::NotFound { entity_type: t, id }) && t@
                    == "fragment"@ && id@ == uuid@,
            },
    {
        match self.store.get_fragment(uuid) {
            Some(a) => Ok(a),
            None => Err(HubError::not_found("fragment", uuid)),
        }
    }

    /// One page of the fragment family; the page size is clamped to 100.
    pub fn list_fragments(&self, cursor: Option<&str>, limit: usize) -> (r: ListResult<Fragment>)
        requires
            self.store.wf(),
        ensures
            spec_list_ok(
                self.store.fragments@,
                match cursor {
                    Some(c) => if c@.len() == 0 {
                        None
                    } else {
                        Some(c@)
                    },
                    None => None,
                },
                if limit <= 100 {
                    limit as int
                } else {
                    100
                },
                r.items@.map_values(|t: Fragment| t@),
                r.next_cursor_key(),
                r.has_more,
            ),
    {
        let cur = match cursor {
            Some(c) => match Cursor::from_string(c) {
                Some(k) => k,
                None => Cursor::start(),
            },
            None => Cursor::start(),
        };
        let capped = if limit <= 100 {
            limit
        } else {
            100
        };
        self.store.list_fragments(&cur, capped)
    }

    /// Read a relation by identifier.
    pub fn get_relation(&self, uuid: &str) -> (r: HubResult<Relation>)
        ensures
            match spec_get(self.store.relations@, uuid@) {
                Some(st) => r matches Ok(a) && a@ == st@,
                None => r matches Err(HubError::NotFound { entity_type: t, id }) && t@
                    == "relation"@ && id@ == uuid@,
            },
    {
        match self.store.get_relation(uuid) {
            Some(a) => Ok(a),
            None => Err(HubError::not_found("relation", uuid)),
        }
    }

    /// One page of the relation family; the page size is clamped to 100.
    pub fn list_relations(&self, cursor: Option<&str>, limit: usize) -> (r: ListResult<Relation>)
        requires
            self.store.wf(),
        ensures
            spec_list_ok(
                self.store.relations@,
                match cursor {
                    Some(c) => if c@.len() == 0 {
                        None
                    } else {
                        Some(c@)
                    },
                    None => None,
                },
                if limit <= 100 {
                    limit as int
                } else {
                    100
                },
                r.items@.map_values(|t: Relation| t@),
                r.next_cursor_key(),
                r.has_more,
            ),
    {
        let cur = match cursor {
            Some(c) => match Cursor::from_string(c) {
                Some(k) => k,
                None => Cursor::start(),
            },
            None => Cursor::start(),
        };
        let capped = if limit <= 100 {
            limit
        } else {
            100
        };
        self.store.list_relations(&cur, capped)
    }

    /// Read a tag by identifier.
    pub fn get_tag(&self, uuid: &str) -> (r: HubResult<Tag>)
        ensures
            match spec_get(self.store.tags@, uuid@) {
                Some(st) => r matches Ok(a) && a@ == st@,
                None => r matches Err(HubError::NotFound { entity_type: t, id }) && t@
                    == "tag"@ && id@ == uuid@,
            },
    {
        match self.store.get_tag(uuid) {
            Some(a) => Ok(a),
            None => Err(HubError::not_found("tag", uuid)),
        }
    }

    /// One page of the tag family; the page size is clamped to 100.
    pub fn list_tags(&self, cursor: Option<&str>, limit: usize) -> (r: ListResult<Tag>)
        requires
            self.store.wf(),
        ensures
            spec_list_ok(
                self.store.tags@,
                match cursor {
                    Some(c) => if c@.len() == 0 {
                        None
                    } else {
                        Some(c@)
                    },
                    None => None,
                },
                if limit <= 100 {
                    limit as int
                } else {
                    100
                },
                r.items@.map_values(|t: Tag| t@),
                r.next_cursor_key(),
                r.has_more,
            ),
    {
        let cur = match cursor {
            Some(c) => match Cursor::from_string(c) {
                Some(k) => k,
                None => Cursor::start(),
            },
            None => Cursor::start(),
        };
        let capped = if limit <= 100 {
            limit
        } else {
            100
        };
        self.store.list_tags(&cur, capped)
    }

    /// Read a transform by identifier.
    pub fn get_transform(&self, uuid: &str) -> (r: HubResult<Transform>)
        ensures
            match spec_get(self.store.transforms@, uuid@) {
                Some(st) => r matches Ok(a) && a@ == st@,
                None => r matches Err(HubError::NotFound { entity_type: t, id }) && t@
                    == "transform"@ && id@ == uuid@,
            },
    {
        match self.store.get_transform(uuid) {
            Some(a) => Ok(a),
            None => Err(HubError::not_found("transform", uuid)),
        }
    }

    /// One page of the transform family; the page size is clamped to 100.
    pub fn list_transforms(&self, cursor: Option<&str>, limit: usize) -> (r: ListResult<Transform>)
        requires
            self.store.wf(),
        ensures
            spec_list_ok(
                self.store.transforms@,
                match cursor {
                    Some(c) => if c@.len() == 0 {
                        None
                    } else {
                        Some(c@)
                    },
                    None => None,
                },
                if limit <= 100 {
                    limit as int
                } else {
                    100
                },
                r.items@.map_values(|t: Transform| t@),
                r.next_cursor_key(),
                r.has_more,
            ),
    {
        let cur = match cursor {
            Some(c) => match Cursor::from_string(c) {
                Some(k) => k,
                None => Cursor::start(),
            },
            None => Cursor::start(),
        };
        let capped = if limit <= 100 {
            limit
        } else {
            100
        };
        self.store.list_transforms(&cur, capped)
    }

    /// Delete a fragment: idempotent key removal, so a missing record is no
    /// error and a repeated call changes nothing more.
    pub fn delete_fragment(&mut self, uuid: &str) -> (r: HubResult<()>)
        requires
            old(self).store.wf(),
        ensures
            final(self).store.wf(),
            final(self).verify_signatures == old(self).verify_signatures,
            final(self).store.agents@ == old(self).store.agents@,
            final(self).store.relations@ == old(self).store.relations@,
            final(self).store.tags@ == old(self).store.tags@,
            final(self).store.transforms@ == old(self).store.transforms@,
            r is Ok,
            final(self).store.fragments@ == spec_delete(old(self).store.fragments@, uuid@),
            spec_get(final(self).store.fragments@, uuid@) is None,
    {
        proof {
            crate::store::lemma_sorted_nodup(self.store.fragments@);
            crate::store::lemma_delete_get(self.store.fragments@, uuid@, uuid@);
        }
        self.store.delete_fragment(uuid);
        Ok(())
    }

    /// Fragments whose content contains the query, letter case ignored;
    /// the cap is clamped to 100.
    pub fn search_fragments(&self, query: &str, limit: usize) -> (r: Vec<Fragment>)
        ensures
            ({
                let capped = if limit <= 100 {
                    limit as int
                } else {
                    100
                };
                let found = spec_search(self.store.fragments@, query@, capped);
                r@.len() == found.len() && forall|k: int|
                    0 <= k < found.len() ==> (#[trigger] r@[k])@ == found[k]@
            }),
    {
        let capped = if limit <= 100 {
            limit
        } else {
            100
        };
        self.store.search_fragments(query, capped)
    }

    /// The tag carrying this exact name, if one is stored.
    pub fn find_tag_by_name(&self, name: &str) -> (r: Option<Tag>)
        ensures
            match spec_tag_by_name(self.store.tags@, name@) {
                Some(st) => r matches Some(t) && t@ == st@,
                None => r is None,
            },
            r is Some <==> spec_has_tag_name(self.store.tags@, name@),
    {
        self.store.find_tag_by_name(name)
    }

    /// The relations whose source entity is `from_entity`.
    pub fn get_relations_by_from(&self, from_entity: &str) -> (r: Vec<Relation>)
        ensures
            ({
                let found = crate::store::spec_relations_from(self.store.relations@, from_entity@);
                r@.len() == found.len() && forall|k: int|
                    0 <= k < found.len() ==> (#[trigger] r@[k])@ == found[k]@
            }),
    {
        self.store.get_relations_by_from(from_entity)
    }

    /// The relations whose target entity is `to_entity`.
    pub fn get_relations_by_to(&self, to_entity: &str) -> (r: Vec<Relation>)
        ensures
            ({
                let found = crate::store::spec_relations_to(self.store.relations@, to_entity@);
                r@.len() == found.len() && forall|k: int|
                    0 <= k < found.len() ==> (#[trigger] r@[k])@ == found[k]@
            }),
    {
        self.store.get_relations_by_to(to_entity)
    }

    /// Counts of agents and fragments.
    pub fn get_stats(&self) -> (r: HubResult<EntityStats>)
        ensures
            r matches Ok(st) && st.agents_count == self.store.agents@.len() && st.fragments_count
                == self.store.fragments@.len(),
    {
        Ok(
            EntityStats {
                agents_count: self.store.count_agents(),
                fragments_count: self.store.count_fragments(),
            },
        )
    }

    /// Whether an address points at something stored; hub addresses always
    /// do.
    pub fn verify_entity_exists(&self, addr: &Address) -> (r: bool)
        ensures
            r == spec_address_resolves(self.store, addr@),
    {
        match addr.domain {
            Domain::Agent => find_index(&self.store.agents, addr.entity.as_str()).is_some(),
            Domain::Fragment => find_index(&self.store.fragments, addr.entity.as_str()).is_some(),
            Domain::Tag => find_index(&self.store.tags, addr.entity.as_str()).is_some(),
            Domain::Transformation => find_index(
                &self.store.transforms,
                addr.entity.as_str(),
            ).is_some(),
            Domain::Relation => find_index(&self.store.relations, addr.entity.as_str()).is_some(),
            Domain::Hub => true,
        }
    }
}

} // verus!

// Creation of the signed content kinds.

verus! {

impl EntityService {
    /// Create a fragment from a request signed by its creator.
    ///
    /// The creator must already be stored; at the critical resource level
    /// an unknown creator is refused outright. When verification is on,
    /// the signature must check over the canonical fragment payload under
    /// the creator's stored key. The stored record carries the recomputed
    /// content hash.
    pub fn create_fragment(
        &mut self,
        req: CreateFragmentRequest,
        level: ResourceLevel,
    ) -> (r: HubResult<Fragment>)
        requires
            old(self).store.wf(),
            old(self).store.fragments@.len() < usize::MAX,
        ensures
            final(self).store.wf(),
            final(self).verify_signatures == old(self).verify_signatures,
            final(self).store.agents@ == old(self).store.agents@,
            final(self).store.relations@ == old(self).store.relations@,
            final(self).store.tags@ == old(self).store.tags@,
            final(self).store.transforms@ == old(self).store.transforms@,
            r is Ok <==> (spec_get(old(self).store.agents@, req.creator@.entity) matches Some(
                creator,
            ) && (old(self).verify_signatures ==> spec_signature_checks(
                creator@.public_key,
                canon(spec_fragment_request_payload(req)),
                req.signature@,
            )) && spec_fragment_refs_resolve(old(self).store, req) && req.creator@.domain
                == Domain::Agent),
            (spec_get(old(self).store.agents@, req.creator@.entity) matches Some(creator) && (old(
                self,
            ).verify_signatures ==> spec_signature_checks(
                creator@.public_key,
                canon(spec_fragment_request_payload(req)),
                req.signature@,
            )) && !spec_fragment_refs_resolve(old(self).store, req) && req.creator@.domain
                == Domain::Agent) ==> (r matches Err(HubError::NotFound { .. })),
            match r {
                Ok(f) => {
                    &&& f@.content == req.content@
                    &&& spec_content_hash_ok(f@)
                    &&& f@.creator == req.creator@
                    &&& f@.signature == req.signature@
                    &&& f@.version == 1
                    &&& match req.uuid {
                        Some(u) => f@.uuid == u@,
                        None => true,
                    }
                    &&& match spec_get(final(self).store.fragments@, f@.uuid) {
                        Some(st) => st@ == f@,
                        None => false,
                    }
                    &&& exists|st: Fragment|
                        st@ == f@ && final(self).store.fragments@ == spec_put(
                            old(self).store.fragments@,
                            st,
                        )
                },
                Err(e) => {
                    &&& final(self).store.fragments@ == old(self).store.fragments@
                    &&& match e {
                        HubError::ResourceLimitExceeded(_) => level == ResourceLevel::Critical
                            && (req.creator@.domain != Domain::Agent || !spec_has_key(
                            old(self).store.agents@,
                            req.creator@.entity,
                        )),
                        HubError::NotFound { .. } => (level != ResourceLevel::Critical && (
                        req.creator@.domain != Domain::Agent || !spec_has_key(
                            old(self).store.agents@,
                            req.creator@.entity,
                        ))) || (
                        match spec_get(old(self).store.agents@, req.creator@.entity) {
                            Some(creator) => (old(self).verify_signatures
                                ==> spec_signature_checks(
                                creator@.public_key,
                                canon(spec_fragment_request_payload(req)),
                                req.signature@,
                            )) && !spec_fragment_refs_resolve(old(self).store, req),
                            None => false,
                        }),
                        HubError::InvalidPublicKey(_) => old(self).verify_signatures && match
                            spec_get(old(self).store.agents@, req.creator@.entity) {
                            Some(creator) => !spec_key_acceptable(creator@.public_key),
                            None => false,
                        },
                        HubError::CryptoError(_) => old(self).verify_signatures && match spec_get(
                            old(self).store.agents@,
                            req.creator@.entity,
                        ) {
                            Some(creator) => spec_key_acceptable(creator@.public_key)
                                && !b64_decodable(req.signature@),
                            None => false,
                        },
                        HubError::InvalidSignature { .. } => old(self).verify_signatures && match
                            spec_get(old(self).store.agents@, req.creator@.entity) {
                            Some(creator) => spec_key_acceptable(creator@.public_key)
                                && b64_decodable(req.signature@) && !spec_signature_checks(
                                creator@.public_key,
                                canon(spec_fragment_request_payload(req)),
                                req.signature@,
                            ),
                            None => false,
                        },
                        _ => false,
                    }
                },
            },
    {
        proof {
            lemma_get_has_key(self.store.agents@, req.creator@.entity);
        }
        let creator = match req.creator.domain {
            Domain::Agent => self.store.get_agent(req.creator.entity.as_str()),
            _ => None,
        };
        if creator.is_none() && level == ResourceLevel::Critical {
            return Err(
                HubError::ResourceLimitExceeded(
                    to_owned_string("Hub at capacity. Unknown agents cannot create content."),
                ),
            );
        }
        let creator = match creator {
            Some(a) => a,
            None => {
                return Err(HubError::not_found("agent", req.creator.entity.as_str()));
            },
        };
        if self.verify_signatures {
            let data = fragment_signable_bytes(&req);
            match verify_with_key(
                creator.public_key.as_str(),
                data.as_slice(),
                req.signature.as_str(),
            ) {
                Ok(true) => {},
                Ok(false) => {
                    return Err(HubError::invalid_signature("fragment"));
                },
                Err(e) => {
                    return Err(e);
                },
            }
        }
        match &req.tags {
            Some(ts) => {
                let n = ts.len();
                let mut i: usize = 0;
                while i < n
                    invariant
                        i <= n,
                        n == ts@.len(),
                        *self == *old(self),
                        old(self).store.wf(),
                        req.tags == Some(*ts),
                        match spec_get(old(self).store.agents@, req.creator@.entity) {
                            Some(c) => old(self).verify_signatures ==> spec_signature_checks(
                                c@.public_key,
                                canon(spec_fragment_request_payload(req)),
                                req.signature@,
                            ),
                            None => false,
                        },
                        forall|k: int|
                            0 <= k < i ==> spec_address_resolves(
                                self.store,
                                (#[trigger] ts@[k])@,
                            ),
                    decreases n - i,
                {
                    if !self.verify_entity_exists(&ts[i]) {
                        return Err(
                            HubError::not_found(ts[i].domain.as_str(), ts[i].entity.as_str()),
                        );
                    }
                    i += 1;
                }
            },
            None => {},
        }
        match &req.transform {
            Some(t) => {
                if !self.verify_entity_exists(t) {
                    return Err(HubError::not_found(t.domain.as_str(), t.entity.as_str()));
                }
            },
            None => {},
        }
        let fragment = Fragment::from_request(req);
        let stored = fragment.clone();
        proof {
            lemma_put_get(self.store.fragments@, stored, stored@.uuid);
        }
        self.store.put_fragment(stored);
        Ok(fragment)
    }

    /// Create a relation from a request signed by its creator.
    ///
    /// In order: the creator must be stored; when verification is on, the
    /// signature must check over the canonical relation payload under the
    /// creator's stored key; then the source must resolve, and a non-empty
    /// target must resolve too.
    pub fn create_relation(&mut self, req: CreateRelationRequest) -> (r: HubResult<Relation>)
        requires
            old(self).store.wf(),
            old(self).store.relations@.len() < usize::MAX,
        ensures
            final(self).store.wf(),
            final(self).verify_signatures == old(self).verify_signatures,
            final(self).store.agents@ == old(self).store.agents@,
            final(self).store.fragments@ == old(self).store.fragments@,
            final(self).store.tags@ == old(self).store.tags@,
            final(self).store.transforms@ == old(self).store.transforms@,
            r is Ok <==> (spec_get(old(self).store.agents@, req.creator@.entity) matches Some(
                creator,
            ) && spec_address_resolves(old(self).store, req.from@) && (req.to@.entity.len() > 0
                ==> spec_address_resolves(old(self).store, req.to@)) && (old(
                self,
            ).verify_signatures ==> spec_signature_checks(
                creator@.public_key,
                canon(spec_relation_request_payload(req)),
                req.signature@,
            )) && req.creator@.domain == Domain::Agent),
            (spec_get(old(self).store.agents@, req.creator@.entity) matches Some(creator) && (old(
                self,
            ).verify_signatures ==> spec_signature_checks(
                creator@.public_key,
                canon(spec_relation_request_payload(req)),
                req.signature@,
            )) && req.to@.entity.len() > 0 && !spec_address_resolves(old(self).store, req.to@))
                ==> (r matches Err(HubError::NotFound { .. })),
            match r {
                Ok(rel) => {
                    &&& rel@.from == req.from@
                    &&& rel@.to == req.to@
                    &&& rel@.creator == req.creator@
                    &&& rel@.signature == req.signature@
                    &&& rel@.version == 1
                    &&& match req.uuid {
                        Some(u) => rel@.uuid == u@,
                        None => true,
                    }
                    &&& match spec_get(final(self).store.relations@, rel@.uuid) {
                        Some(st) => st@ == rel@,
                        None => false,
                    }
                    &&& exists|st: Relation|
                        st@ == rel@ && final(self).store.relations@ == spec_put(
                            old(self).store.relations@,
                            st,
                        )
                },
                Err(e) => {
                    &&& final(self).store.relations@ == old(self).store.relations@
                    &&& match e {
                        HubError::NotFound { .. } => req.creator@.domain != Domain::Agent
                            || !spec_has_key(old(self).store.agents@, req.creator@.entity) || (
                        match spec_get(old(self).store.agents@, req.creator@.entity) {
                            Some(creator) => (old(self).verify_signatures
                                ==> spec_signature_checks(
                                creator@.public_key,
                                canon(spec_relation_request_payload(req)),
                                req.signature@,
                            )) && (!spec_address_resolves(old(self).store, req.from@) || (
                            spec_address_resolves(old(self).store, req.from@)
                                && req.to@.entity.len() > 0 && !spec_address_resolves(
                                old(self).store,
                                req.to@,
                            ))),
                            None => false,
                        }),
                        HubError::InvalidPublicKey(_) => old(self).verify_signatures && match
                            spec_get(old(self).store.agents@, req.creator@.entity) {
                            Some(creator) => !spec_key_acceptable(creator@.public_key),
                            None => false,
                        },
                        HubError::CryptoError(_) => old(self).verify_signatures && match spec_get(
                            old(self).store.agents@,
                            req.creator@.entity,
                        ) {
                            Some(creator) => spec_key_acceptable(creator@.public_key)
                                && !b64_decodable(req.signature@),
                            None => false,
                        },
                        HubError::InvalidSignature { .. } => old(self).verify_signatures && match
                            spec_get(old(self).store.agents@, req.creator@.entity) {
                            Some(creator) => spec_key_acceptable(creator@.public_key)
                                && b64_decodable(req.signature@) && !spec_signature_checks(
                                creator@.public_key,
                                canon(spec_relation_request_payload(req)),
                                req.signature@,
                            ),
                            None => false,
                        },
                        HubError::ResourceLimitExceeded(_) => false,
                        _ => false,
                    }
                },
            },
    {
        proof {
            lemma_get_has_key(self.store.agents@, req.creator@.entity);
        }
        let creator_opt = match req.creator.domain {
            Domain::Agent => self.store.get_agent(req.creator.entity.as_str()),
            _ => None,
        };
        let creator = match creator_opt {
            Some(a) => a,
            None => {
                return Err(HubError::not_found("agent", req.creator.entity.as_str()));
            },
        };
        if self.verify_signatures {
            let data = relation_signable_bytes(&req);
            match verify_with_key(
                creator.public_key.as_str(),
                data.as_slice(),
                req.signature.as_str(),
            ) {
                Ok(true) => {},
                Ok(false) => {
                    return Err(HubError::invalid_signature("relation"));
                },
                Err(e) => {
                    return Err(e);
                },
            }
        }
        if !self.verify_entity_exists(&req.from) {
            return Err(
                HubError::not_found(req.from.domain.as_str(), req.from.entity.as_str()),
            );
        }
        if req.to.entity.as_str().unicode_len() != 0 {
            if !self.verify_entity_exists(&req.to) {
                return Err(
                    HubError::not_found(req.to.domain.as_str(), req.to.entity.as_str()),
                );
            }
        }
        let relation = Relation::from_request(req);
        let stored = relation.clone();
        proof {
            lemma_put_get(self.store.relations@, stored, stored@.uuid);
        }
        self.store.put_relation(stored);
        Ok(relation)
    }

    /// Create a tag from a request signed by its creator.
    ///
    /// In order: the creator must be stored; when verification is on, the
    /// signature must check over the canonical tag payload under the
    /// creator's stored key; then the name must still be free — two
    /// successful creations can never share a name.
    pub fn create_tag(&mut self, req: CreateTagRequest) -> (r: HubResult<Tag>)
        requires
            old(self).store.wf(),
            old(self).store.tags@.len() < usize::MAX,
        ensures
            final(self).store.wf(),
            final(self).verify_signatures == old(self).verify_signatures,
            final(self).store.agents@ == old(self).store.agents@,
            final(self).store.fragments@ == old(self).store.fragments@,
            final(self).store.relations@ == old(self).store.relations@,
            final(self).store.transforms@ == old(self).store.transforms@,
            r is Ok <==> (spec_has_key(old(self).store.agents@, req.creator@.entity)
                && !spec_has_tag_name(old(self).store.tags@, req.name@) && (match spec_get(
                old(self).store.agents@,
                req.creator@.entity,
            ) {
                Some(creator) => old(self).verify_signatures ==> spec_signature_checks(
                    creator@.public_key,
                    canon(spec_tag_request_payload(req)),
                    req.signature@,
                ),
                None => false,
            }) && req.creator@.domain == Domain::Agent),
            match r {
                Ok(t) => {
                    &&& t@.name == req.name@
                    &&& t@.category == req.category
                    &&& t@.creator == req.creator@
                    &&& t@.signature == req.signature@
                    &&& t@.version == 1
                    &&& match req.uuid {
                        Some(u) => t@.uuid == u@,
                        None => true,
                    }
                    &&& !spec_has_tag_name(old(self).store.tags@, req.name@)
                    &&& spec_has_tag_name(final(self).store.tags@, req.name@)
                    &&& match spec_get(final(self).store.tags@, t@.uuid) {
                        Some(st) => st@ == t@,
                        None => false,
                    }
                    &&& exists|st: Tag|
                        st@ == t@ && final(self).store.tags@ == spec_put(
                            old(self).store.tags@,
                            st,
                        )
                },
                Err(e) => {
                    &&& final(self).store.tags@ == old(self).store.tags@
                    &&& match e {
                        HubError::NotFound { .. } => req.creator@.domain != Domain::Agent
                            || !spec_has_key(old(self).store.agents@, req.creator@.entity),
                        HubError::AlreadyExists { .. } => (match spec_get(
                            old(self).store.agents@,
                            req.creator@.entity,
                        ) {
                            Some(creator) => old(self).verify_signatures
                                ==> spec_signature_checks(
                                creator@.public_key,
                                canon(spec_tag_request_payload(req)),
                                req.signature@,
                            ),
                            None => false,
                        }) && spec_has_tag_name(old(self).store.tags@, req.name@),
                        HubError::InvalidPublicKey(_) => old(self).verify_signatures && match
                            spec_get(old(self).store.agents@, req.creator@.entity) {
                            Some(creator) => !spec_key_acceptable(creator@.public_key),
                            None => false,
                        },
                        HubError::CryptoError(_) => old(self).verify_signatures && match spec_get(
                            old(self).store.agents@,
                            req.creator@.entity,
                        ) {
                            Some(creator) => spec_key_acceptable(creator@.public_key)
                                && !b64_decodable(req.signature@),
                            None => false,
                        },
                        HubError::InvalidSignature { .. } => old(self).verify_signatures && match
                            spec_get(old(self).store.agents@, req.creator@.entity) {
                            Some(creator) => spec_key_acceptable(creator@.public_key)
                                && b64_decodable(req.signature@) && !spec_signature_checks(
                                creator@.public_key,
                                canon(spec_tag_request_payload(req)),
                                req.signature@,
                            ),
                            None => false,
                        },
                        HubError::DatabaseError(_) => false,
                        _ => false,
                    }
                },
            },
    {
        proof {
            lemma_get_has_key(self.store.agents@, req.creator@.entity);
        }
        let creator_opt = match req.creator.domain {
            Domain::Agent => self.store.get_agent(req.creator.entity.as_str()),
            _ => None,
        };
        let creator = match creator_opt {
            Some(a) => a,
            None => {
                return Err(HubError::not_found("agent", req.creator.entity.as_str()));
            },
        };
        if self.verify_signatures {
            let data = tag_signable_bytes(&req);
            match verify_with_key(
                creator.public_key.as_str(),
                data.as_slice(),
                req.signature.as_str(),
            ) {
                Ok(true) => {},
                Ok(false) => {
                    return Err(HubError::invalid_signature("tag"));
                },
                Err(e) => {
                    return Err(e);
                },
            }
        }
        if self.store.find_tag_by_name(req.name.as_str()).is_some() {
            return Err(HubError::already_exists("tag", req.name.as_str()));
        }
        let tag = Tag::from_request(req);
        let stored = tag.clone();
        proof {
            lemma_put_get(self.store.tags@, stored, stored@.uuid);
        }
        self.store.put_tag(stored);
        proof {
            lemma_get_has_key(final(self).store.tags@, tag@.uuid);
        }
        Ok(tag)
    }

    /// Create a transform from a request signed by its creating agent.
    pub fn create_transform(&mut self, req: CreateTransformRequest) -> (r: HubResult<Transform>)
        requires
            old(self).store.wf(),
            old(self).store.transforms@.len() < usize::MAX,
        ensures
            final(self).store.wf(),
            final(self).verify_signatures == old(self).verify_signatures,
            final(self).store.agents@ == old(self).store.agents@,
            final(self).store.fragments@ == old(self).store.fragments@,
            final(self).store.relations@ == old(self).store.relations@,
            final(self).store.tags@ == old(self).store.tags@,
            r is Ok <==> (spec_get(old(self).store.agents@, req.agent@.entity) matches Some(
                creator,
            ) && (old(self).verify_signatures ==> spec_signature_checks(
                creator@.public_key,
                canon(spec_transform_request_payload(req)),
                req.signature@,
            )) && spec_addresses_resolve(old(self).store, req.tags@) && req.agent@.domain
                == Domain::Agent),
            (spec_get(old(self).store.agents@, req.agent@.entity) matches Some(creator) && (old(
                self,
            ).verify_signatures ==> spec_signature_checks(
                creator@.public_key,
                canon(spec_transform_request_payload(req)),
                req.signature@,
            )) && !spec_addresses_resolve(old(self).store, req.tags@)) ==> (r matches Err(
                HubError::NotFound { .. },
            )),
            match r {
                Ok(t) => {
                    &&& t@.name == req.name@
                    &&& t@.agent == req.agent@
                    &&& t@.transform_from == req.transform_from@
                    &&& t@.transform_to == req.transform_to@
                    &&& t@.signature == req.signature@
                    &&& t@.version == 1
                    &&& match req.uuid {
                        Some(u) => t@.uuid == u@,
                        None => true,
                    }
                    &&& match spec_get(final(self).store.transforms@, t@.uuid) {
                        Some(st) => st@ == t@,
                        None => false,
                    }
                    &&& exists|st: Transform|
                        st@ == t@ && final(self).store.transforms@ == spec_put(
                            old(self).store.transforms@,
                            st,
                        )
                },
                Err(e) => {
                    &&& final(self).store.transforms@ == old(self).store.transforms@
                    &&& match e {
                        HubError::NotFound { .. } => req.agent@.domain != Domain::Agent
                            || !spec_has_key(old(self).store.agents@, req.agent@.entity) || (
                        match spec_get(old(self).store.agents@, req.agent@.entity) {
                            Some(creator) => (old(self).verify_signatures
                                ==> spec_signature_checks(
                                creator@.public_key,
                                canon(spec_transform_request_payload(req)),
                                req.signature@,
                            )) && !spec_addresses_resolve(old(self).store, req.tags@),
                            None => false,
                        }),
                        HubError::InvalidPublicKey(_) => old(self).verify_signatures && match
                            spec_get(old(self).store.agents@, req.agent@.entity) {
                            Some(creator) => !spec_key_acceptable(creator@.public_key),
                            None => false,
                        },
                        HubError::CryptoError(_) => old(self).verify_signatures && match spec_get(
                            old(self).store.agents@,
                            req.agent@.entity,
                        ) {
                            Some(creator) => spec_key_acceptable(creator@.public_key)
                                && !b64_decodable(req.signature@),
                            None => false,
                        },
                        HubError::InvalidSignature { .. } => old(self).verify_signatures && match
                            spec_get(old(self).store.agents@, req.agent@.entity) {
                            Some(creator) => spec_key_acceptable(creator@.public_key)
                                && b64_decodable(req.signature@) && !spec_signature_checks(
                                creator@.public_key,
                                canon(spec_transform_request_payload(req)),
                                req.signature@,
                            ),
                            None => false,
                        },
                        HubError::DatabaseError(_) => false,
                        _ => false,
                    }
                },
            },
    {
        proof {
            lemma_get_has_key(self.store.agents@, req.agent@.entity);
        }
        let creator_opt = match req.agent.domain {
            Domain::Agent => self.store.get_agent(req.agent.entity.as_str()),
            _ => None,
        };
        let creator = match creator_opt {
            Some(a) => a,
            None => {
                return Err(HubError::not_found("agent", req.agent.entity.as_str()));
            },
        };
        if self.verify_signatures {
            let data = transform_signable_bytes(&req);
            match verify_with_key(
                creator.public_key.as_str(),
                data.as_slice(),
                req.signature.as_str(),
            ) {
                Ok(true) => {},
                Ok(false) => {
                    return Err(HubError::invalid_signature("transform"));
                },
                Err(e) => {
                    return Err(e);
                },
            }
        }
        let n = req.tags.len();
        let mut i: usize = 0;
        while i < n
            invariant
                i <= n,
                n == req.tags@.len(),
                *self == *old(self),
                old(self).store.wf(),
                match spec_get(old(self).store.agents@, req.agent@.entity) {
                    Some(c) => old(self).verify_signatures ==> spec_signature_checks(
                        c@.public_key,
                        canon(spec_transform_request_payload(req)),
                        req.signature@,
                    ),
                    None => false,
                },
                forall|k: int|
                    0 <= k < i ==> spec_address_resolves(self.store, (#[trigger] req.tags@[k])@),
            decreases n - i,
        {
            if !self.verify_entity_exists(&req.tags[i]) {
                return Err(
                    HubError::not_found(req.tags[i].domain.as_str(), req.tags[i].entity.as_str()),
                );
            }
            i += 1;
        }
        let transform = Transform::from_request(req);
        let stored = transform.clone();
        proof {
            lemma_put_get(self.store.transforms@, stored, stored@.uuid);
        }
        self.store.put_transform(stored);
        Ok(transform)
    }
}

} // verus!
