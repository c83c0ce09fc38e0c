//! Tags: named categories for fragments, unique by name within a hub.

use vstd::prelude::*;

use crate::address::{Address, AddressView};
use crate::crypto::{fresh_uuid, now_millis};
use crate::text::{ascii_upper, ascii_upper_matches, to_owned_string};

verus! {

/// The permitted tag categories.
#[derive(Debug, Clone, Copy, PartialEq, Eq, Hash, Structural)]
pub enum TagCategory {
    Platform,
    Language,
    Framework,
    Library,
    Version,
    Domain,
    Type,
    Environment,
    Architecture,
    Country,
    Field,
}

impl Default for TagCategory {
    fn default() -> (r: Self)
        ensures
            r == TagCategory::Domain,
    {
        TagCategory::Domain
    }
}

impl TagCategory {
    /// The canonical upper-case text of this category.
    pub open spec fn text(self) -> Seq<char> {
        match self {
            TagCategory::Platform => "PLATFORM"@,
            TagCategory::Language => "LANGUAGE"@,
            TagCategory::Framework => "FRAMEWORK"@,
            TagCategory::Library => "LIBRARY"@,
            TagCategory::Version => "VERSION"@,
            TagCategory::Domain => "DOMAIN"@,
            TagCategory::Type => "TYPE"@,
            TagCategory::Environment => "ENVIRONMENT"@,
            TagCategory::Architecture => "ARCHITECTURE"@,
            TagCategory::Country => "COUNTRY"@,
            TagCategory::Field => "FIELD"@,
        }
    }

    /// Canonical text of this category, e.g. `LANGUAGE`.
    pub fn as_str(self) -> (r: &'static str)
        ensures
            r@ == self.text(),
    {
        match self {
            TagCategory::Platform => "PLATFORM",
            TagCategory::Language => "LANGUAGE",
            TagCategory::Framework => "FRAMEWORK",
            TagCategory::Library => "LIBRARY",
            TagCategory::Version => "VERSION",
            TagCategory::Domain => "DOMAIN",
            TagCategory::Type => "TYPE",
            TagCategory::Environment => "ENVIRONMENT",
            TagCategory::Architecture => "ARCHITECTURE",
            TagCategory::Country => "COUNTRY",
            TagCategory::Field => "FIELD",
        }
    }

    /// Which category a given (already upper-cased) text names.
    pub open spec fn of_upper_text(s: Seq<char>) -> Option<TagCategory> {
        if s == "PLATFORM"@ {
            Some(TagCategory::Platform)
        } else if s == "LANGUAGE"@ {
            Some(TagCategory::Language)
        } else if s == "FRAMEWORK"@ {
            Some(TagCategory::Framework)
        } else if s == "LIBRARY"@ {
            Some(TagCategory::Library)
        } else if s == "VERSION"@ {
            Some(TagCategory::Version)
        } else if s == "DOMAIN"@ {
            Some(TagCategory::Domain)
        } else if s == "TYPE"@ {
            Some(TagCategory::Type)
        } else if s == "ENVIRONMENT"@ {
            Some(TagCategory::Environment)
        } else if s == "ARCHITECTURE"@ {
            Some(TagCategory::Architecture)
        } else if s == "COUNTRY"@ {
            Some(TagCategory::Country)
        } else if s == "FIELD"@ {
            Some(TagCategory::Field)
        } else {
            None
        }
    }

    /// Parse a category; letter case is ignored (ASCII folding).
    pub fn from_str(s: &str) -> (r: Result<TagCategory, String>)
        ensures
            match r {
                Ok(c) => TagCategory::of_upper_text(ascii_upper(s@)) == Some(c),
                Err(_) => TagCategory::of_upper_text(ascii_upper(s@)) is None,
            },
    {
        if ascii_upper_matches(s, "PLATFORM") {
            proof {
                reveal_strlit("PLATFORM");
            }
            Ok(TagCategory::Platform)
        } else if ascii_upper_matches(s, "LANGUAGE") {
            proof {
                reveal_strlit("LANGUAGE");
            }
            Ok(TagCategory::Language)
        } else if ascii_upper_matches(s, "FRAMEWORK") {
            proof {
                reveal_strlit("FRAMEWORK");
            }
            Ok(TagCategory::Framework)
        } else if ascii_upper_matches(s, "LIBRARY") {
            proof {
                reveal_strlit("LIBRARY");
            }
            Ok(TagCategory::Library)
        } else if ascii_upper_matches(s, "VERSION") {
            proof {
                reveal_strlit("VERSION");
            }
            Ok(TagCategory::Version)
        } else if ascii_upper_matches(s, "DOMAIN") {
            proof {
                reveal_strlit("DOMAIN");
            }
            Ok(TagCategory::Domain)
        } else if ascii_upper_matches(s, "TYPE") {
            proof {
                reveal_strlit("TYPE");
            }
            Ok(TagCategory::Type)
        } else if ascii_upper_matches(s, "ENVIRONMENT") {
            proof {
                reveal_strlit("ENVIRONMENT");
            }
            Ok(TagCategory::Environment)
        } else if ascii_upper_matches(s, "ARCHITECTURE") {
            proof {
                reveal_strlit("ARCHITECTURE");
            }
            Ok(TagCategory::Architecture)
        } else if ascii_upper_matches(s, "COUNTRY") {
            proof {
                reveal_strlit("COUNTRY");
            }
            Ok(TagCategory::Country)
        } else if ascii_upper_matches(s, "FIELD") {
            proof {
                reveal_strlit("FIELD");
            }
            Ok(TagCategory::Field)
        } else {
            proof {
                reveal_strlit("PLATFORM");
                reveal_strlit("LANGUAGE");
                reveal_strlit("FRAMEWORK");
                reveal_strlit("LIBRARY");
                reveal_strlit("VERSION");
                reveal_strlit("DOMAIN");
                reveal_strlit("TYPE");
                reveal_strlit("ENVIRONMENT");
                reveal_strlit("ARCHITECTURE");
                reveal_strlit("COUNTRY");
                reveal_strlit("FIELD");
            }
            let mut m = to_owned_string("Invalid tag category: ");
            m.append(s);
            Err(m)
        }
    }
}

/// Every permitted tag category, in canonical order.
pub fn valid_tag_categories() -> (r: Vec<TagCategory>)
    ensures
        r@ == seq![
            TagCategory::Platform,
            TagCategory::Language,
            TagCategory::Framework,
            TagCategory::Library,
            TagCategory::Version,
            TagCategory::Domain,
            TagCategory::Type,
            TagCategory::Environment,
            TagCategory::Architecture,
            TagCategory::Country,
            TagCategory::Field,
        ],
{
    let mut v: Vec<TagCategory> = Vec::new();
    v.push(TagCategory::Platform);
    v.push(TagCategory::Language);
    v.push(TagCategory::Framework);
    v.push(TagCategory::Library);
    v.push(TagCategory::Version);
    v.push(TagCategory::Domain);
    v.push(TagCategory::Type);
    v.push(TagCategory::Environment);
    v.push(TagCategory::Architecture);
    v.push(TagCategory::Country);
    v.push(TagCategory::Field);
    proof {
        assert(v@ =~= seq![
            TagCategory::Platform,
            TagCategory::Language,
            TagCategory::Framework,
            TagCategory::Library,
            TagCategory::Version,
            TagCategory::Domain,
            TagCategory::Type,
            TagCategory::Environment,
            TagCategory::Architecture,
            TagCategory::Country,
            TagCategory::Field,
        ]);
    }
    v
}

/// The mathematical value of a [`Tag`].
pub struct TagView {
    pub uuid: Seq<char>,
    pub name: Seq<char>,
    pub content: Seq<char>,
    pub version: int,
    pub category: TagCategory,
    pub creator: AddressView,
    pub signature: Seq<char>,
    pub created_at: int,
}

/// A named category for fragments; names are unique within a hub.
#[derive(Debug)]
pub struct Tag {
    pub uuid: String,
    /// The unique, normalized name.
    pub name: String,
    pub content: String,
    pub version: u32,
    pub category: TagCategory,
    pub creator: Address,
    pub signature: String,
    /// Milliseconds since the Unix epoch.
    pub created_at: i64,
}

impl View for Tag {
    type V = TagView;

    open spec fn view(&self) -> TagView {
        TagView {
            uuid: self.uuid@,
            name: self.name@,
            content: self.content@,
            version: self.version as int,
            category: self.category,
            creator: self.creator@,
            signature: self.signature@,
            created_at: self.created_at as int,
        }
    }
}

impl Clone for Tag {
    /// A copy with the same value.
    fn clone(&self) -> (r: Self)
        ensures
            r@ == self@,
    {
        Tag {
            uuid: self.uuid.clone(),
            name: self.name.clone(),
            content: self.content.clone(),
            version: self.version,
            category: self.category,
            creator: self.creator.clone(),
            signature: self.signature.clone(),
            created_at: self.created_at,
        }
    }
}

/// Structural validity of a tag record.
pub open spec fn spec_tag_valid(t: TagView) -> bool {
    t.uuid.len() > 0 && t.name.len() > 0 && t.creator.entity.len() > 0 && t.signature.len() > 0
}

impl Tag {
    /// A fresh tag with a generated identifier at version 1.
    pub fn new(name: String, category: TagCategory, creator: Address) -> (r: Tag)
        ensures
            r@.name == name@,
            r@.content.len() == 0,
            r@.version == 1,
            r@.category == category,
            r@.creator == creator@,
            r@.signature.len() == 0,
            r@.created_at >= 0,
    {
        Tag {
            uuid: fresh_uuid(),
            name,
            content: String::new(),
            version: 1,
            category,
            creator,
            signature: String::new(),
            created_at: now_millis(),
        }
    }

    /// The same tag with this description.
    pub fn with_content(self, content: String) -> (r: Tag)
        ensures
            r@ == (TagView { content: content@, ..self@ }),
    {
        Tag { content, ..self }
    }

    /// The same tag with this signature.
    pub fn with_signature(self, signature: String) -> (r: Tag)
        ensures
            r@ == (TagView { signature: signature@, ..self@ }),
    {
        Tag { signature, ..self }
    }

    /// Move to the next version.
    pub fn increment_version(&mut self)
        requires
            old(self).version < u32::MAX,
        ensures
            final(self)@ == (TagView { version: old(self)@.version + 1, ..old(self)@ }),
    {
        self.version = self.version + 1;
    }

    /// Check the record's structural validity.
    pub fn validate(&self) -> (r: Result<(), String>)
        ensures
            r is Ok <==> spec_tag_valid(self@),
    {
        if self.uuid.as_str().unicode_len() == 0 {
            return Err(to_owned_string("uuid is required"));
        }
        if self.name.as_str().unicode_len() == 0 {
            return Err(to_owned_string("name is required"));
        }
        if self.creator.entity.as_str().unicode_len() == 0 {
            return Err(to_owned_string("creator is required"));
        }
        if self.signature.as_str().unicode_len() == 0 {
            return Err(to_owned_string("signature is required"));
        }
        Ok(())
    }
}

/// A request to create a tag, signed by its creator.
#[derive(Debug)]
pub struct CreateTagRequest {
    pub uuid: Option<String>,
    pub name: String,
    pub content: String,
    pub category: TagCategory,
    pub creator: Address,
    pub signature: String,
}

impl Tag {
    /// Build the stored record from a creation request; a fresh identifier
    /// is generated when none is given.
    pub fn from_request(req: CreateTagRequest) -> (r: Tag)
        ensures
            match req.uuid {
                Some(u) => r@.uuid == u@,
                None => true,
            },
            r@.name == req.name@,
            r@.content == req.content@,
            r@.version == 1,
            r@.category == req.category,
            r@.creator == req.creator@,
            r@.signature == req.signature@,
            r@.created_at >= 0,
    {
        let mut tag = Tag::new(req.name, req.category, req.creator);
        if let Some(u) = req.uuid {
            tag.uuid = u;
        }
        tag.content = req.content;
        tag.signature = req.signature;
        tag
    }
}

} // verus!
