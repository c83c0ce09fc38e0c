//! Fragments: signed units of knowledge content.

use vstd::prelude::*;
use vstd::utf8::encode_utf8;

use crate::address::{Address, AddressView};
use crate::agent::{clamp_fixed, spec_clamp};
use crate::codec::SCALE;
use crate::crypto::{b64_encode, base64_of, fresh_uuid, now_millis, sha256, sha256_of};
use crate::text::{ascii_lower, ascii_lower_matches, str_eq, to_owned_string};

verus! {

/// How a fragment's content was derived.
#[derive(Debug, Clone, Copy, PartialEq, Eq, Structural)]
pub enum EvidenceType {
    Empirical,
    Logical,
    Consensus,
    Speculation,
    Unknown,
}

impl Default for EvidenceType {
    fn default() -> (r: Self)
        ensures
            r == EvidenceType::Unknown,
    {
        EvidenceType::Unknown
    }
}

impl EvidenceType {
    /// The canonical lower-case text of this evidence type.
    pub open spec fn text(self) -> Seq<char> {
        match self {
            EvidenceType::Empirical => "empirical"@,
            EvidenceType::Logical => "logical"@,
            EvidenceType::Consensus => "consensus"@,
            EvidenceType::Speculation => "speculation"@,
            EvidenceType::Unknown => "unknown"@,
        }
    }

    /// Canonical text of this evidence type, e.g. `empirical`.
    pub fn as_str(self) -> (r: &'static str)
        ensures
            r@ == self.text(),
    {
        match self {
            EvidenceType::Empirical => "empirical",
            EvidenceType::Logical => "logical",
            EvidenceType::Consensus => "consensus",
            EvidenceType::Speculation => "speculation",
            EvidenceType::Unknown => "unknown",
        }
    }

    /// Which evidence type a given (already lower-cased) text names.
    pub open spec fn of_lower_text(s: Seq<char>) -> Option<EvidenceType> {
        if s == "empirical"@ {
            Some(EvidenceType::Empirical)
        } else if s == "logical"@ {
            Some(EvidenceType::Logical)
        } else if s == "consensus"@ {
            Some(EvidenceType::Consensus)
        } else if s == "speculation"@ {
            Some(EvidenceType::Speculation)
        } else if s == "unknown"@ {
            Some(EvidenceType::Unknown)
        } else {
            None
        }
    }

    /// Parse an evidence type; letter case is ignored (ASCII folding).
    pub fn from_str(s: &str) -> (r: Result<EvidenceType, String>)
        ensures
            match r {
                Ok(e) => EvidenceType::of_lower_text(ascii_lower(s@)) == Some(e),
                Err(_) => EvidenceType::of_lower_text(ascii_lower(s@)) is None,
            },
    {
        if ascii_lower_matches(s, "empirical") {
            proof {
                reveal_strlit("empirical");
            }
            Ok(EvidenceType::Empirical)
        } else if ascii_lower_matches(s, "logical") {
            proof {
                reveal_strlit("logical");
            }
            Ok(EvidenceType::Logical)
        } else if ascii_lower_matches(s, "consensus") {
            proof {
                reveal_strlit("consensus");
            }
            Ok(EvidenceType::Consensus)
        } else if ascii_lower_matches(s, "speculation") {
            proof {
                reveal_strlit("speculation");
            }
            Ok(EvidenceType::Speculation)
        } else if ascii_lower_matches(s, "unknown") {
            proof {
                reveal_strlit("unknown");
            }
            Ok(EvidenceType::Unknown)
        } else {
            proof {
                reveal_strlit("empirical");
                reveal_strlit("logical");
                reveal_strlit("consensus");
                reveal_strlit("speculation");
                reveal_strlit("unknown");
            }
            let mut m = to_owned_string("Invalid evidence type: ");
            m.append(s);
            Err(m)
        }
    }
}

/// The mathematical value of a [`Fragment`].
pub struct FragmentView {
    pub uuid: Seq<char>,
    pub tags: Seq<AddressView>,
    pub transform: Option<AddressView>,
    pub content: Seq<char>,
    pub content_hash: Seq<char>,
    pub creator: AddressView,
    pub version: int,
    pub when: Option<Seq<char>>,
    pub signature: Seq<char>,
    pub created_at: int,
    pub updated_at: int,
    pub confidence: int,
    pub evidence_type: EvidenceType,
}

/// A signed unit of knowledge content.
#[derive(Debug)]
pub struct Fragment {
    pub uuid: String,
    /// Addresses of the tags this fragment carries.
    pub tags: Vec<Address>,
    /// Address of the transform that interprets the content, if any.
    pub transform: Option<Address>,
    pub content: String,
    /// Base64 of the SHA-256 digest of the content bytes.
    pub content_hash: String,
    /// Address of the creating agent.
    pub creator: Address,
    pub version: u32,
    /// Content timestamp as ISO-8601 text, absent when the request gave
    /// none.
    pub when: Option<String>,
    pub signature: String,
    /// Milliseconds since the Unix epoch.
    pub created_at: i64,
    pub updated_at: i64,
    /// Creator's confidence, fixed-point millionths of `[0, 1]`.
    pub confidence: i64,
    pub evidence_type: EvidenceType,
}

impl View for Fragment {
    type V = FragmentView;

    open spec fn view(&self) -> FragmentView {
        FragmentView {
            uuid: self.uuid@,
            tags: Seq::new(self.tags@.len(), |i: int| self.tags@[i]@),
            transform: match self.transform {
                Some(t) => Some(t@),
                None => None,
            },
            content: self.content@,
            content_hash: self.content_hash@,
            creator: self.creator@,
            version: self.version as int,
            when: match self.when {
                Some(w) => Some(w@),
                None => None,
            },
            signature: self.signature@,
            created_at: self.created_at as int,
            updated_at: self.updated_at as int,
            confidence: self.confidence as int,
            evidence_type: self.evidence_type,
        }
    }
}

/// An element-wise copy of an address list.
pub fn clone_addresses(ts: &Vec<Address>) -> (r: Vec<Address>)
    ensures
        r@.len() == ts@.len(),
        forall|i: int| 0 <= i < ts@.len() ==> (#[trigger] r@[i])@ == ts@[i]@,
{
    let mut out: Vec<Address> = Vec::new();
    let n = ts.len();
    let mut i: usize = 0;
    while i < n
        invariant
            i <= n,
            n == ts@.len(),
            out@.len() == i,
            forall|j: int| 0 <= j < i ==> (#[trigger] out@[j])@ == ts@[j]@,
        decreases n - i,
    {
        out.push(ts[i].clone());
        i += 1;
    }
    out
}

impl Clone for Fragment {
    /// A copy with the same value.
    fn clone(&self) -> (r: Self)
        ensures
            r@ == self@,
    {
        let r = Fragment {
            uuid: self.uuid.clone(),
            tags: clone_addresses(&self.tags),
            transform: match &self.transform {
                Some(t) => Some(t.clone()),
                None => None,
            },
            content: self.content.clone(),
            content_hash: self.content_hash.clone(),
            creator: self.creator.clone(),
            version: self.version,
            when: match &self.when {
                Some(w) => Some(w.clone()),
                None => None,
            },
            signature: self.signature.clone(),
            created_at: self.created_at,
            updated_at: self.updated_at,
            confidence: self.confidence,
            evidence_type: self.evidence_type,
        };
        proof {
            assert(r@.tags =~= self@.tags);
        }
        r
    }
}

/// The content hash field is the base64 SHA-256 digest of the content.
pub open spec fn spec_content_hash_ok(f: FragmentView) -> bool {
    f.content_hash == base64_of(sha256_of(encode_utf8(f.content)))
}

/// Structural validity of a fragment record.
pub open spec fn spec_fragment_valid(f: FragmentView) -> bool {
    f.uuid.len() > 0 && f.content.len() > 0 && f.creator.entity.len() > 0 && f.signature.len() > 0
}

impl Fragment {
    /// The base64 SHA-256 digest of a content string.
    pub fn compute_hash(content: &str) -> (r: String)
        ensures
            r@ == base64_of(sha256_of(encode_utf8(content@))),
    {
        let digest = sha256(content.as_bytes());
        b64_encode(digest.as_slice())
    }

    /// A fresh fragment with a generated identifier, its content hash
    /// computed, default confidence one half, and no tags or transform.
    pub fn new(content: String, creator: Address) -> (r: Fragment)
        ensures
            r@.tags.len() == 0,
            r@.transform is None,
            r@.content == content@,
            spec_content_hash_ok(r@),
            r@.creator == creator@,
            r@.version == 1,
            r@.when is None,
            r@.signature.len() == 0,
            r@.created_at == r@.updated_at,
            r@.created_at >= 0,
            r@.confidence == SCALE as int / 2,
            r@.evidence_type == EvidenceType::Unknown,
    {
        let uuid = fresh_uuid();
        Fragment::with_uuid(uuid, content, creator)
    }

    /// A fresh fragment under the given identifier.
    pub fn with_uuid(uuid: String, content: String, creator: Address) -> (r: Fragment)
        ensures
            r@.uuid == uuid@,
            r@.tags.len() == 0,
            r@.transform is None,
            r@.content == content@,
            spec_content_hash_ok(r@),
            r@.creator == creator@,
            r@.version == 1,
            r@.when is None,
            r@.signature.len() == 0,
            r@.created_at == r@.updated_at,
            r@.created_at >= 0,
            r@.confidence == SCALE as int / 2,
            r@.evidence_type == EvidenceType::Unknown,
    {
        let content_hash = Fragment::compute_hash(content.as_str());
        let now = now_millis();
        let r = Fragment {
            uuid,
            tags: Vec::new(),
            transform: None,
            content,
            content_hash,
            creator,
            version: 1,
            when: None,
            signature: String::new(),
            created_at: now,
            updated_at: now,
            confidence: SCALE / 2,
            evidence_type: EvidenceType::Unknown,
        };
        proof {
            assert(r@.tags =~= Seq::<AddressView>::empty());
        }
        r
    }

    /// The same fragment with one more tag.
    pub fn with_tag(self, tag: Address) -> (r: Fragment)
        ensures
            r@ == (FragmentView { tags: self@.tags.push(tag@), ..self@ }),
    {
        let ghost orig = self;
        let mut f = self;
        f.tags.push(tag);
        proof {
            assert(f@.tags =~= orig@.tags.push(tag@));
        }
        f
    }

    /// The same fragment with this transform.
    pub fn with_transform(self, transform: Address) -> (r: Fragment)
        ensures
            r@ == (FragmentView { transform: Some(transform@), ..self@ }),
    {
        Fragment { transform: Some(transform), ..self }
    }

    /// The same fragment with this signature.
    pub fn with_signature(self, signature: String) -> (r: Fragment)
        ensures
            r@ == (FragmentView { signature: signature@, ..self@ }),
    {
        Fragment { signature, ..self }
    }

    /// The same fragment with this content timestamp.
    pub fn with_when(self, when: String) -> (r: Fragment)
        ensures
            r@ == (FragmentView { when: Some(when@), ..self@ }),
    {
        Fragment { when: Some(when), ..self }
    }

    /// The same fragment with this confidence, clamped into `[0, 1]`.
    pub fn with_confidence(self, confidence: i64) -> (r: Fragment)
        ensures
            r@ == (FragmentView {
                confidence: spec_clamp(confidence as int, 0, SCALE as int),
                ..self@
            }),
    {
        Fragment { confidence: clamp_fixed(confidence, 0, SCALE), ..self }
    }

    /// The same fragment with this evidence type.
    pub fn with_evidence_type(self, evidence_type: EvidenceType) -> (r: Fragment)
        ensures
            r@ == (FragmentView { evidence_type, ..self@ }),
    {
        Fragment { evidence_type, ..self }
    }

    /// Whether a tag with the given identifier is attached.
    pub fn has_tag(&self, tag_uuid: &str) -> (r: bool)
        ensures
            r == exists|i: int| 0 <= i < self@.tags.len() && (#[trigger] self@.tags[i]).entity
                == tag_uuid@,
    {
        let n = self.tags.len();
        let mut i: usize = 0;
        while i < n
            invariant
                i <= n,
                n == self.tags@.len(),
                self@.tags.len() == n,
                forall|j: int| 0 <= j < i ==> (#[trigger] self@.tags[j]).entity != tag_uuid@,
            decreases n - i,
        {
            if str_eq(self.tags[i].entity.as_str(), tag_uuid) {
                assert(self@.tags[i as int].entity == tag_uuid@);
                return true;
            }
            i += 1;
        }
        false
    }

    /// Check the record's structural validity.
    pub fn validate(&self) -> (r: Result<(), String>)
        ensures
            r is Ok <==> spec_fragment_valid(self@),
    {
        if self.uuid.as_str().unicode_len() == 0 {
            return Err(to_owned_string("uuid is required"));
        }
        if self.content.as_str().unicode_len() == 0 {
            return Err(to_owned_string("content is required"));
        }
        if self.creator.entity.as_str().unicode_len() == 0 {
            return Err(to_owned_string("creator is required"));
        }
        if self.signature.as_str().unicode_len() == 0 {
            return Err(to_owned_string("signature is required"));
        }
        Ok(())
    }
}

/// A request to create a fragment, signed by its creator.
#[derive(Debug)]
pub struct CreateFragmentRequest {
    pub uuid: Option<String>,
    pub tags: Option<Vec<Address>>,
    pub transform: Option<Address>,
    pub content: String,
    pub creator: Address,
    /// Content timestamp as ISO-8601 text, if given.
    pub when: Option<String>,
    pub signature: String,
    /// Confidence in fixed-point millionths of `[0, 1]`, if given.
    pub confidence: Option<i64>,
    pub evidence_type: Option<EvidenceType>,
}

impl Fragment {
    /// Build the stored record from a creation request: a fresh identifier
    /// when none is given, the content hash recomputed, confidence
    /// defaulting to one half (clamped when given), and the evidence type
    /// defaulting to unknown.
    pub fn from_request(req: CreateFragmentRequest) -> (r: Fragment)
        ensures
            match req.uuid {
                Some(u) => r@.uuid == u@,
                None => true,
            },
            r@.tags == match req.tags {
                Some(ts) => Seq::new(ts@.len(), |i: int| ts@[i]@),
                None => Seq::<AddressView>::empty(),
            },
            r@.transform == match req.transform {
                Some(t) => Some(t@),
                None => None::<AddressView>,
            },
            r@.content == req.content@,
            spec_content_hash_ok(r@),
            r@.creator == req.creator@,
            r@.version == 1,
            r@.when == match req.when {
                Some(w) => Some(w@),
                None => None::<Seq<char>>,
            },
            r@.signature == req.signature@,
            r@.confidence == match req.confidence {
                Some(c) => spec_clamp(c as int, 0, SCALE as int),
                None => SCALE as int / 2,
            },
            r@.evidence_type == match req.evidence_type {
                Some(e) => e,
                None => EvidenceType::Unknown,
            },
            r@.created_at == r@.updated_at,
            r@.created_at >= 0,
    {
        let uuid = match req.uuid {
            Some(u) => u,
            None => fresh_uuid(),
        };
        let mut fragment = Fragment::with_uuid(uuid, req.content, req.creator).with_signature(
            req.signature,
        );
        match req.tags {
            Some(ts) => {
                fragment.tags = ts;
            },
            None => {},
        }
        if let Some(transform) = req.transform {
            fragment = fragment.with_transform(transform);
        }
        if let Some(when) = req.when {
            fragment = fragment.with_when(when);
        }
        if let Some(confidence) = req.confidence {
            fragment = fragment.with_confidence(confidence);
        }
        if let Some(evidence_type) = req.evidence_type {
            fragment = fragment.with_evidence_type(evidence_type);
        }
        fragment
    }
}

} // verus!
