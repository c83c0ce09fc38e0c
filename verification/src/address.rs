//! Typed addresses that identify entities across the hub network.
//!
//! An address is a triple `(server_port, domain, entity)` whose canonical
//! text form is `server_port:DOMAIN[:entity]`; the entity part is empty only
//! for the `HUB` domain.

use vstd::prelude::*;

use crate::text::{all_ascii_digits, ascii_upper, ascii_upper_matches, find_char, spec_all_digits, spec_find_char, str_eq, to_owned_string};

verus! {

/// Why an address string failed to parse.
#[derive(Debug, Clone)]
pub enum AddressError {
    InvalidFormat(String),
    MissingServer,
    InvalidDomain(String),
}

/// The kind of entity an address points at.
#[derive(Debug, Clone, Copy, PartialEq, Eq, Hash, Structural)]
pub enum Domain {
    Agent,
    Tag,
    Fragment,
    Relation,
    Transformation,
    Hub,
}

impl Domain {
    /// The canonical upper-case text of this domain tag.
    pub open spec fn text(self) -> Seq<char> {
        match self {
            Domain::Agent => "AGENT"@,
            Domain::Tag => "TAG"@,
            Domain::Fragment => "FRAGMENT"@,
            Domain::Relation => "RELATION"@,
            Domain::Transformation => "TRANSFORMATION"@,
            Domain::Hub => "HUB"@,
        }
    }

    /// Canonical text of the domain, e.g. `AGENT`.
    pub fn as_str(self) -> (r: &'static str)
        ensures
            r@ == self.text(),
    {
        match self {
            Domain::Agent => "AGENT",
            Domain::Tag => "TAG",
            Domain::Fragment => "FRAGMENT",
            Domain::Relation => "RELATION",
            Domain::Transformation => "TRANSFORMATION",
            Domain::Hub => "HUB",
        }
    }

    /// Which domain a given (already upper-cased) text names, if any.
    pub open spec fn of_upper_text(s: Seq<char>) -> Option<Domain> {
        if s == "AGENT"@ {
            Some(Domain::Agent)
        } else if s == "TAG"@ {
            Some(Domain::Tag)
        } else if s == "FRAGMENT"@ {
            Some(Domain::Fragment)
        } else if s == "RELATION"@ {
            Some(Domain::Relation)
        } else if s == "TRANSFORMATION"@ {
            Some(Domain::Transformation)
        } else if s == "HUB"@ {
            Some(Domain::Hub)
        } else {
            None
        }
    }

    /// Parse a domain tag; letter case is ignored (ASCII folding).
    pub fn from_str(s: &str) -> (r: Result<Domain, AddressError>)
        ensures
            match r {
                Ok(d) => Domain::of_upper_text(ascii_upper(s@)) == Some(d),
                Err(_) => Domain::of_upper_text(ascii_upper(s@)) is None,
            },
    {
        if ascii_upper_matches(s, "AGENT") {
            proof {
                reveal_strlit("AGENT");
            }
            Ok(Domain::Agent)
        } else if ascii_upper_matches(s, "TAG") {
            proof {
                reveal_strlit("TAG");
            }
            Ok(Domain::Tag)
        } else if ascii_upper_matches(s, "FRAGMENT") {
            proof {
                reveal_strlit("FRAGMENT");
            }
            Ok(Domain::Fragment)
        } else if ascii_upper_matches(s, "RELATION") {
            proof {
                reveal_strlit("RELATION");
            }
            Ok(Domain::Relation)
        } else if ascii_upper_matches(s, "TRANSFORMATION") {
            proof {
                reveal_strlit("TRANSFORMATION");
            }
            Ok(Domain::Transformation)
        } else if ascii_upper_matches(s, "HUB") {
            proof {
                reveal_strlit("HUB");
            }
            Ok(Domain::Hub)
        } else {
            proof {
                reveal_strlit("AGENT");
                reveal_strlit("TAG");
                reveal_strlit("FRAGMENT");
                reveal_strlit("RELATION");
                reveal_strlit("TRANSFORMATION");
                reveal_strlit("HUB");
            }
            Err(AddressError::InvalidDomain(to_owned_string(s)))
        }
    }
}

impl Default for Domain {
    fn default() -> (r: Self)
        ensures
            r == Domain::Fragment,
    {
        Domain::Fragment
    }
}

/// The mathematical value of an [`Address`].
pub struct AddressView {
    pub server_port: Seq<char>,
    pub domain: Domain,
    pub entity: Seq<char>,
}

/// An address of an entity on some hub, compared structurally.
#[derive(Debug, Hash)]
pub struct Address {
    /// Hub host, optionally with a port (`host` or `host:port`).
    pub server_port: String,
    /// Domain tag of the entity addressed.
    pub domain: Domain,
    /// Entity identifier; empty only for the `HUB` domain.
    pub entity: String,
}

impl View for Address {
    type V = AddressView;

    open spec fn view(&self) -> AddressView {
        AddressView {
            server_port: self.server_port@,
            domain: self.domain,
            entity: self.entity@,
        }
    }
}

impl Clone for Address {
    /// A copy with the same parts.
    fn clone(&self) -> (r: Self)
        ensures
            r@ == self@,
    {
        Address {
            server_port: self.server_port.clone(),
            domain: self.domain,
            entity: self.entity.clone(),
        }
    }
}

impl PartialEq for Address {
    fn eq(&self, other: &Address) -> (r: bool) {
        self.server_port == other.server_port && self.domain == other.domain
            && self.entity == other.entity
    }
}

impl Eq for Address {

}

impl vstd::std_specs::cmp::PartialEqSpecImpl for Address {
    open spec fn obeys_eq_spec() -> bool {
        true
    }

    open spec fn eq_spec(&self, other: &Address) -> bool {
        self@ == other@
    }
}

impl Address {
    /// Build an address from its three parts.
    pub fn new(server_port: String, domain: Domain, entity: String) -> (r: Address)
        ensures
            r@ == (AddressView { server_port: server_port@, domain, entity: entity@ }),
    {
        Address { server_port, domain, entity }
    }

    /// Address of an agent.
    pub fn agent(server_port: String, agent_id: String) -> (r: Address)
        ensures
            r@ == (AddressView {
                server_port: server_port@,
                domain: Domain::Agent,
                entity: agent_id@,
            }),
    {
        Address::new(server_port, Domain::Agent, agent_id)
    }

    /// Address of a fragment.
    pub fn fragment(server_port: String, fragment_id: String) -> (r: Address)
        ensures
            r@ == (AddressView {
                server_port: server_port@,
                domain: Domain::Fragment,
                entity: fragment_id@,
            }),
    {
        Address::new(server_port, Domain::Fragment, fragment_id)
    }

    /// Address of a relation.
    pub fn relation(server_port: String, relation_id: String) -> (r: Address)
        ensures
            r@ == (AddressView {
                server_port: server_port@,
                domain: Domain::Relation,
                entity: relation_id@,
            }),
    {
        Address::new(server_port, Domain::Relation, relation_id)
    }

    /// Address of a tag.
    pub fn tag(server_port: String, tag_id: String) -> (r: Address)
        ensures
            r@ == (AddressView { server_port: server_port@, domain: Domain::Tag, entity: tag_id@ }),
    {
        Address::new(server_port, Domain::Tag, tag_id)
    }

    /// Address of a transform.
    pub fn transformation(server_port: String, transform_id: String) -> (r: Address)
        ensures
            r@ == (AddressView {
                server_port: server_port@,
                domain: Domain::Transformation,
                entity: transform_id@,
            }),
    {
        Address::new(server_port, Domain::Transformation, transform_id)
    }

    /// Address of a hub itself; the entity part is empty.
    pub fn hub(server_port: String) -> (r: Address)
        ensures
            r@ == (AddressView {
                server_port: server_port@,
                domain: Domain::Hub,
                entity: Seq::<char>::empty(),
            }),
    {
        Address::new(server_port, Domain::Hub, String::new())
    }

    /// Whether this address lives on the given server.
    pub fn is_local(&self, local_server: &str) -> (r: bool)
        ensures
            r == (self@.server_port == local_server@),
    {
        str_eq(self.server_port.as_str(), local_server)
    }

    /// Whether this address names a hub.
    pub fn is_hub(&self) -> (r: bool)
        ensures
            r == (self@.domain == Domain::Hub),
    {
        self.domain == Domain::Hub
    }

    /// The canonical text of this address: `server_port:DOMAIN[:entity]`.
    pub open spec fn spec_text(self) -> Seq<char> {
        if self@.entity.len() == 0 {
            self@.server_port + ":"@ + self@.domain.text()
        } else {
            self@.server_port + ":"@ + self@.domain.text() + ":"@ + self@.entity
        }
    }

    /// Render the canonical text form of this address.
    pub fn to_string(&self) -> (r: String)
        ensures
            r@ == self.spec_text(),
    {
        let mut out = self.server_port.clone();
        out.append(":");
        out.append(self.domain.as_str());
        if self.entity.as_str().unicode_len() != 0 {
            out.append(":");
            out.append(self.entity.as_str());
        }
        out
    }

    /// Parse an address string, `None` on any failure.
    pub fn parse(s: &str) -> (r: Option<Address>)
        ensures
            match r {
                Some(a) => spec_parse_address(s@) == Some(a@),
                None => spec_parse_address(s@) is None,
            },
    {
        match Address::from_text(s) {
            Ok(a) => Some(a),
            Err(_) => None,
        }
    }

    /// Parse an address string, reporting why it failed.
    ///
    /// The string is split at `:` separators. When the second piece is a
    /// nonempty run of digits it is the server's port and is folded into
    /// the server part; the domain tag is the piece after it, matched
    /// case-insensitively, and whatever follows the domain is the entity.
    pub fn from_text(s: &str) -> (r: Result<Address, AddressError>)
        ensures
            match r {
                Ok(a) => spec_parse_address(s@) == Some(a@),
                Err(_) => spec_parse_address(s@) is None,
            },
    {
        let s_len = s.unicode_len();
        let c1 = match find_char(s, 0, ':') {
            Some(i) => i,
            None => {
                return Err(AddressError::InvalidFormat(to_owned_string(s)));
            },
        };
        let part0 = s.substring_char(0, c1);
        let (part1, part2): (&str, Option<(usize, &str)>) = match find_char(s, c1 + 1, ':') {
            Some(c2) => (
                s.substring_char(c1 + 1, c2),
                Some((c2, s.substring_char(c2 + 1, s_len))),
            ),
            None => (s.substring_char(c1 + 1, s_len), None),
        };

        if part1.unicode_len() > 0 && all_ascii_digits(part1) {
            let mut sp = to_owned_string(part0);
            sp.append(":");
            sp.append(part1);
            match part2 {
                None => Err(AddressError::InvalidFormat(to_owned_string(s))),
                Some((c2, _)) => {
                    let (domain_str, entity): (&str, String) = match find_char(s, c2 + 1, ':') {
                        Some(c3) => (
                            s.substring_char(c2 + 1, c3),
                            to_owned_string(s.substring_char(c3 + 1, s_len)),
                        ),
                        None => (s.substring_char(c2 + 1, s_len), String::new()),
                    };
                    match Domain::from_str(domain_str) {
                        Ok(domain) => Ok(Address { server_port: sp, domain, entity }),
                        Err(e) => Err(e),
                    }
                },
            }
        } else {
            let server_port = to_owned_string(part0);
            let (domain_str, entity): (&str, String) = match part2 {
                Some((_, rest)) => (part1, to_owned_string(rest)),
                None => (part1, String::new()),
            };
            match Domain::from_str(domain_str) {
                Ok(domain) => Ok(Address { server_port, domain, entity }),
                Err(e) => Err(e),
            }
        }
    }
}

impl Default for Address {
    fn default() -> (r: Self)
        ensures
            r@ == (AddressView {
                server_port: Seq::<char>::empty(),
                domain: Domain::Hub,
                entity: Seq::<char>::empty(),
            }),
    {
        Address { server_port: String::new(), domain: Domain::Hub, entity: String::new() }
    }
}

/// What parsing an address string yields, if anything: the exact mirror of
/// [`Address::from_text`].
pub open spec fn spec_parse_address(s: Seq<char>) -> Option<AddressView> {
    match spec_find_char(s, 0, ':') {
        None => None,
        Some(c1) => {
            let part0 = s.subrange(0, c1);
            let (part1, part2): (Seq<char>, Option<Seq<char>>) = match spec_find_char(
                s,
                c1 + 1,
                ':',
            ) {
                Some(c2) => (s.subrange(c1 + 1, c2), Some(s.subrange(c2 + 1, s.len() as int))),
                None => (s.subrange(c1 + 1, s.len() as int), None),
            };
            if part1.len() > 0 && spec_all_digits(part1) {
                match spec_find_char(s, c1 + 1, ':') {
                    None => None,
                    Some(c2) => {
                        let server_port = part0 + ":"@ + part1;
                        let (domain_str, entity): (Seq<char>, Seq<char>) = match spec_find_char(
                            s,
                            c2 + 1,
                            ':',
                        ) {
                            Some(c3) => (s.subrange(c2 + 1, c3), s.subrange(c3 + 1, s.len() as int)),
                            None => (s.subrange(c2 + 1, s.len() as int), Seq::<char>::empty()),
                        };
                        match Domain::of_upper_text(ascii_upper(domain_str)) {
                            Some(domain) => Some(AddressView { server_port, domain, entity }),
                            None => None,
                        }
                    },
                }
            } else {
                let entity = match part2 {
                    Some(rest) => rest,
                    None => Seq::<char>::empty(),
                };
                match Domain::of_upper_text(ascii_upper(part1)) {
                    Some(domain) => Some(AddressView { server_port: part0, domain, entity }),
                    None => None,
                }
            }
        },
    }
}

} // verus!
