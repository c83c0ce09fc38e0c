//! Transforms: named mappings between content formats.

use vstd::prelude::*;

use crate::address::{Address, AddressView};
use crate::crypto::{fresh_uuid, now_millis};
use crate::fragment::clone_addresses;
use crate::text::{str_eq, to_owned_string};

verus! {

/// The mathematical value of a [`Transform`].
pub struct TransformView {
    pub uuid: Seq<char>,
    pub name: Seq<char>,
    pub description: Seq<char>,
    pub tags: Seq<AddressView>,
    pub transform_to: Seq<char>,
    pub transform_from: Seq<char>,
    pub additional_data: Seq<char>,
    pub agent: AddressView,
    pub version: int,
    pub signature: Seq<char>,
    pub created_at: int,
}

/// A signed description of how content moves from one format to another.
#[derive(Debug)]
pub struct Transform {
    pub uuid: String,
    pub name: String,
    pub description: String,
    pub tags: Vec<Address>,
    /// Target format, MIME-like (e.g. `text/html`).
    pub transform_to: String,
    /// Source format, MIME-like (e.g. `text/markdown`).
    pub transform_from: String,
    /// Opaque JSON text with extra configuration.
    pub additional_data: String,
    /// Address of the creating agent.
    pub agent: Address,
    pub version: u32,
    pub signature: String,
    /// Milliseconds since the Unix epoch.
    pub created_at: i64,
}

impl View for Transform {
    type V = TransformView;

    open spec fn view(&self) -> TransformView {
        TransformView {
            uuid: self.uuid@,
            name: self.name@,
            description: self.description@,
            tags: Seq::new(self.tags@.len(), |i: int| self.tags@[i]@),
            transform_to: self.transform_to@,
            transform_from: self.transform_from@,
            additional_data: self.additional_data@,
            agent: self.agent@,
            version: self.version as int,
            signature: self.signature@,
            created_at: self.created_at as int,
        }
    }
}

impl Clone for Transform {
    /// A copy with the same value.
    fn clone(&self) -> (r: Self)
        ensures
            r@ == self@,
    {
        let r = Transform {
            uuid: self.uuid.clone(),
            name: self.name.clone(),
            description: self.description.clone(),
            tags: clone_addresses(&self.tags),
            transform_to: self.transform_to.clone(),
            transform_from: self.transform_from.clone(),
            additional_data: self.additional_data.clone(),
            agent: self.agent.clone(),
            version: self.version,
            signature: self.signature.clone(),
            created_at: self.created_at,
        };
        proof {
            assert(r@.tags =~= self@.tags);
        }
        r
    }
}

/// Structural validity of a transform record.
pub open spec fn spec_transform_valid(t: TransformView) -> bool {
    t.uuid.len() > 0 && t.name.len() > 0 && t.transform_to.len() > 0 && t.transform_from.len() > 0
        && t.agent.entity.len() > 0 && t.signature.len() > 0
}

impl Transform {
    /// A fresh transform with a generated identifier at version 1.
    pub fn new(name: String, transform_from: String, transform_to: String, agent: Address) -> (r:
        Transform)
        ensures
            r@.name == name@,
            r@.description.len() == 0,
            r@.tags.len() == 0,
            r@.transform_to == transform_to@,
            r@.transform_from == transform_from@,
            r@.additional_data.len() == 0,
            r@.agent == agent@,
            r@.version == 1,
            r@.signature.len() == 0,
            r@.created_at >= 0,
    {
        let r = Transform {
            uuid: fresh_uuid(),
            name,
            description: String::new(),
            tags: Vec::new(),
            transform_to,
            transform_from,
            additional_data: String::new(),
            agent,
            version: 1,
            signature: String::new(),
            created_at: now_millis(),
        };
        proof {
            assert(r@.tags =~= Seq::<AddressView>::empty());
        }
        r
    }

    /// The same transform with this description.
    pub fn with_description(self, description: String) -> (r: Transform)
        ensures
            r@ == (TransformView { description: description@, ..self@ }),
    {
        Transform { description, ..self }
    }

    /// The same transform with one more tag.
    pub fn with_tag(self, tag: Address) -> (r: Transform)
        ensures
            r@ == (TransformView { tags: self@.tags.push(tag@), ..self@ }),
    {
        let ghost orig = self;
        let mut t = self;
        t.tags.push(tag);
        proof {
            assert(t@.tags =~= orig@.tags.push(tag@));
        }
        t
    }

    /// The same transform with this extra configuration.
    pub fn with_additional_data(self, data: String) -> (r: Transform)
        ensures
            r@ == (TransformView { additional_data: data@, ..self@ }),
    {
        Transform { additional_data: data, ..self }
    }

    /// The same transform with this signature.
    pub fn with_signature(self, signature: String) -> (r: Transform)
        ensures
            r@ == (TransformView { signature: signature@, ..self@ }),
    {
        Transform { signature, ..self }
    }

    /// Move to the next version.
    pub fn increment_version(&mut self)
        requires
            old(self).version < u32::MAX,
        ensures
            final(self)@ == (TransformView { version: old(self)@.version + 1, ..old(self)@ }),
    {
        self.version = self.version + 1;
    }

    /// Whether a tag with the given identifier is attached.
    pub fn has_tag(&self, tag_uuid: &str) -> (r: bool)
        ensures
            r == exists|i: int| 0 <= i < self@.tags.len() && (#[trigger] self@.tags[i]).entity
                == tag_uuid@,
    {
        let n = self.tags.len();
        let mut i: usize = 0;
        while i < n
            invariant
                i <= n,
                n == self.tags@.len(),
                self@.tags.len() == n,
                forall|j: int| 0 <= j < i ==> (#[trigger] self@.tags[j]).entity != tag_uuid@,
            decreases n - i,
        {
            if str_eq(self.tags[i].entity.as_str(), tag_uuid) {
                assert(self@.tags[i as int].entity == tag_uuid@);
                return true;
            }
            i += 1;
        }
        false
    }

    /// Check the record's structural validity.
    pub fn validate(&self) -> (r: Result<(), String>)
        ensures
            r is Ok <==> spec_transform_valid(self@),
    {
        if self.uuid.as_str().unicode_len() == 0 {
            return Err(to_owned_string("uuid is required"));
        }
        if self.name.as_str().unicode_len() == 0 {
            return Err(to_owned_string("name is required"));
        }
        if self.transform_to.as_str().unicode_len() == 0 {
            return Err(to_owned_string("transform_to is required"));
        }
        if self.transform_from.as_str().unicode_len() == 0 {
            return Err(to_owned_string("transform_from is required"));
        }
        if self.agent.entity.as_str().unicode_len() == 0 {
            return Err(to_owned_string("agent is required"));
        }
        if self.signature.as_str().unicode_len() == 0 {
            return Err(to_owned_string("signature is required"));
        }
        Ok(())
    }
}

/// A request to create a transform, signed by its creating agent.
#[derive(Debug)]
pub struct CreateTransformRequest {
    pub uuid: Option<String>,
    pub name: String,
    pub description: String,
    pub tags: Vec<Address>,
    pub transform_to: String,
    pub transform_from: String,
    pub additional_data: String,
    pub agent: Address,
    pub signature: String,
}

impl Transform {
    /// Build the stored record from a creation request; a fresh identifier
    /// is generated when none is given.
    pub fn from_request(req: CreateTransformRequest) -> (r: Transform)
        ensures
            match req.uuid {
                Some(u) => r@.uuid == u@,
                None => true,
            },
            r@.name == req.name@,
            r@.description == req.description@,
            r@.tags == Seq::new(req.tags@.len(), |i: int| req.tags@[i]@),
            r@.transform_to == req.transform_to@,
            r@.transform_from == req.transform_from@,
            r@.additional_data == req.additional_data@,
            r@.agent == req.agent@,
            r@.version == 1,
            r@.signature == req.signature@,
            r@.created_at >= 0,
    {
        let mut transform = Transform::new(
            req.name,
            req.transform_from,
            req.transform_to,
            req.agent,
        );
        if let Some(u) = req.uuid {
            transform.uuid = u;
        }
        transform.description = req.description;
        transform.tags = req.tags;
        transform.additional_data = req.additional_data;
        transform.signature = req.signature;
        transform
    }
}

} // verus!
