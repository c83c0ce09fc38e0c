//! Agents: the signing identities of the network, each carrying its own
//! outgoing trust edges.
//!
//! Trust levels, confidences and similar unit-interval quantities are held
//! in fixed-point millionths (see [`crate::codec::SCALE`]): a stored value
//! `m` stands for `m / 1_000_000`.

use vstd::prelude::*;

use crate::address::{Address, AddressView};
use crate::codec::SCALE;
use crate::crypto::{fresh_uuid, now_millis};
use crate::text::to_owned_string;

verus! {

/// A field of expertise.
#[derive(Debug, PartialEq, Eq, Hash)]
pub enum ExpertiseDomain {
    Programming(String),
    Science(String),
    Business(String),
    Custom(String),
}

impl Clone for ExpertiseDomain {
    /// A copy with the same name.
    fn clone(&self) -> (r: Self)
        ensures
            r == *self,
    {
        match self {
            ExpertiseDomain::Programming(s) => ExpertiseDomain::Programming(s.clone()),
            ExpertiseDomain::Science(s) => ExpertiseDomain::Science(s.clone()),
            ExpertiseDomain::Business(s) => ExpertiseDomain::Business(s.clone()),
            ExpertiseDomain::Custom(s) => ExpertiseDomain::Custom(s.clone()),
        }
    }
}

impl ExpertiseDomain {
    /// A programming expertise, e.g. a language.
    pub fn programming(lang: String) -> (r: ExpertiseDomain)
        ensures
            r == ExpertiseDomain::Programming(lang),
    {
        ExpertiseDomain::Programming(lang)
    }

    /// A science expertise, e.g. a field.
    pub fn science(field: String) -> (r: ExpertiseDomain)
        ensures
            r == ExpertiseDomain::Science(field),
    {
        ExpertiseDomain::Science(field)
    }

    /// A business expertise, e.g. an area.
    pub fn business(area: String) -> (r: ExpertiseDomain)
        ensures
            r == ExpertiseDomain::Business(area),
    {
        ExpertiseDomain::Business(area)
    }

    /// Any other expertise.
    pub fn custom(name: String) -> (r: ExpertiseDomain)
        ensures
            r == ExpertiseDomain::Custom(name),
    {
        ExpertiseDomain::Custom(name)
    }
}

/// Clamp a fixed-point value into `[lo, hi]`.
pub open spec fn spec_clamp(v: int, lo: int, hi: int) -> int {
    if v < lo {
        lo
    } else if v > hi {
        hi
    } else {
        v
    }
}

/// Clamp a fixed-point value into `[lo, hi]`.
pub fn clamp_fixed(v: i64, lo: i64, hi: i64) -> (r: i64)
    requires
        lo <= hi,
    ensures
        r == spec_clamp(v as int, lo as int, hi as int),
{
    if v < lo {
        lo
    } else if v > hi {
        hi
    } else {
        v
    }
}

/// A known bias of an agent in some domain.
#[derive(Debug)]
pub struct Bias {
    pub domain: ExpertiseDomain,
    pub description: String,
    /// Severity in fixed-point millionths of `[0, 1]`.
    pub severity: i64,
}

impl Clone for Bias {
    /// A copy with the same parts.
    fn clone(&self) -> (r: Self)
        ensures
            r.domain == self.domain,
            r.description@ == self.description@,
            r.severity == self.severity,
    {
        Bias {
            domain: self.domain.clone(),
            description: self.description.clone(),
            severity: self.severity,
        }
    }
}

impl Bias {
    /// A bias with its severity clamped into `[0, 1]`.
    pub fn new(domain: ExpertiseDomain, description: String, severity: i64) -> (r: Bias)
        ensures
            r.domain == domain,
            r.description == description,
            r.severity == spec_clamp(severity as int, 0, SCALE as int),
    {
        Bias { domain, description, severity: clamp_fixed(severity, 0, SCALE) }
    }
}

/// An agent's expertise profile.
#[derive(Debug)]
pub struct AgentProfile {
    /// Expertise score per domain name, fixed-point millionths of `[0, 1]`.
    pub specializations: Vec<(String, i64)>,
    pub known_biases: Vec<Bias>,
    /// Mean confidence over created fragments, fixed-point millionths.
    pub avg_confidence: i64,
    pub fragment_count: u64,
    /// Historical accuracy, fixed-point millionths of `[0, 1]`.
    pub historical_accuracy: i64,
}

impl Clone for AgentProfile {
    /// A copy with the same parts.
    fn clone(&self) -> (r: Self)
        ensures
            r.avg_confidence == self.avg_confidence,
            r.fragment_count == self.fragment_count,
            r.historical_accuracy == self.historical_accuracy,
    {
        AgentProfile {
            specializations: self.specializations.clone(),
            known_biases: self.known_biases.clone(),
            avg_confidence: self.avg_confidence,
            fragment_count: self.fragment_count,
            historical_accuracy: self.historical_accuracy,
        }
    }
}

impl Default for AgentProfile {
    fn default() -> (r: Self)
        ensures
            r.specializations@.len() == 0,
            r.known_biases@.len() == 0,
            r.avg_confidence == 0,
            r.fragment_count == 0,
            r.historical_accuracy == 0,
    {
        AgentProfile {
            specializations: Vec::new(),
            known_biases: Vec::new(),
            avg_confidence: 0,
            fragment_count: 0,
            historical_accuracy: 0,
        }
    }
}

/// The score recorded for a domain name, if any: the first match wins.
pub open spec fn spec_specialization_of(ss: Seq<(String, i64)>, domain: Seq<char>) -> int
    decreases ss.len(),
{
    if ss.len() == 0 {
        0
    } else if ss[0].0@ == domain {
        ss[0].1 as int
    } else {
        spec_specialization_of(ss.drop_first(), domain)
    }
}

impl AgentProfile {
    /// An empty profile.
    pub fn new() -> (r: Self)
        ensures
            r.specializations@.len() == 0,
            r.known_biases@.len() == 0,
            r.avg_confidence == 0,
            r.fragment_count == 0,
            r.historical_accuracy == 0,
    {
        AgentProfile::default()
    }

    /// Record a specialization score, clamped into `[0, 1]`; an existing
    /// entry for the same domain is replaced.
    pub fn add_specialization(&mut self, domain: String, score: i64)
        ensures
            spec_specialization_of(final(self).specializations@, domain@) == spec_clamp(
                score as int,
                0,
                SCALE as int,
            ),
    {
        let clamped = clamp_fixed(score, 0, SCALE);
        let n = self.specializations.len();
        let mut i: usize = 0;
        while i < n
            invariant
                i <= n,
                n == self.specializations@.len(),
                clamped == spec_clamp(score as int, 0, SCALE as int),
                forall|j: int|
                    0 <= j < i ==> (#[trigger] self.specializations@[j]).0@ != domain@,
            decreases n - i,
        {
            if crate::text::str_eq(self.specializations[i].0.as_str(), domain.as_str()) {
                self.specializations.set(i, (domain, clamped));
                proof {
                    lemma_specialization_first(self.specializations@, domain@, i as int);
                }
                return ;
            }
            i += 1;
        }
        self.specializations.push((domain, clamped));
        proof {
            lemma_specialization_first(self.specializations@, domain@, n as int);
        }
    }

    /// The recorded score for a domain, `0` when none.
    pub fn get_specialization(&self, domain: &str) -> (r: i64)
        ensures
            r == spec_specialization_of(self.specializations@, domain@),
    {
        let n = self.specializations.len();
        let mut i: usize = 0;
        assert(self.specializations@.skip(0) == self.specializations@);
        while i < n
            invariant
                i <= n,
                n == self.specializations@.len(),
                spec_specialization_of(self.specializations@, domain@)
                    == spec_specialization_of(self.specializations@.skip(i as int), domain@),
            decreases n - i,
        {
            proof {
                assert(self.specializations@.skip(i as int)[0] == self.specializations@[i as int]);
                assert(self.specializations@.skip(i as int).drop_first() =~= self.specializations@.skip(i as int + 1));
            }
            if crate::text::str_eq(self.specializations[i].0.as_str(), domain) {
                return self.specializations[i].1;
            }
            i += 1;
        }
        proof {
            assert(self.specializations@.skip(n as int) =~= Seq::<(String, i64)>::empty());
        }
        0
    }

    /// Record a known bias.
    pub fn add_bias(&mut self, bias: Bias)
        ensures
            final(self).known_biases@ == old(self).known_biases@.push(bias),
    {
        self.known_biases.push(bias);
    }

    /// Fold one more fragment's confidence into the running mean.
    ///
    /// The mean is held in fixed point, so it is the truncated average
    /// `(count * avg + confidence) / (count + 1)`.
    pub fn update_stats(&mut self, confidence: i64)
        requires
            0 <= old(self).avg_confidence <= SCALE,
            0 <= confidence <= SCALE,
            old(self).fragment_count < u64::MAX,
    ensures
            final(self).fragment_count == old(self).fragment_count + 1,
            final(self).avg_confidence == (old(self).fragment_count * old(self).avg_confidence
                + confidence) / (old(self).fragment_count + 1),
            0 <= final(self).avg_confidence <= SCALE,
    {
        let count = self.fragment_count;
        proof {
            assert(count * self.avg_confidence <= count * SCALE) by (nonlinear_arith)
                requires
                    0 <= self.avg_confidence <= SCALE,
                    count >= 0,
            ;
            assert(count as int * (SCALE as int) + SCALE < i128::MAX) by (nonlinear_arith)
                requires
                    count < u64::MAX,
            ;
        }
        let total: i128 = (count as i128) * (self.avg_confidence as i128) + (confidence as i128);
        let next_count: i128 = (count as i128) + 1;
        let avg: i128 = total / next_count;
        proof {
            assert(0 <= total as int <= (count as int + 1) * SCALE) by (nonlinear_arith)
                requires
                    0 <= self.avg_confidence <= SCALE,
                    0 <= confidence <= SCALE,
                    total as int == count as int * self.avg_confidence + confidence,
                    count >= 0,
            ;
            assert(0 <= avg <= SCALE) by (nonlinear_arith)
                requires
                    0 <= total as int <= (count as int + 1) * SCALE,
                    avg as int == total as int / (count as int + 1),
                    count >= 0,
            ;
        }
        self.fragment_count = count + 1;
        self.avg_confidence = avg as i64;
    }
}

/// Replacing or appending the entry at the first free or matching slot
/// makes it the recorded score.
proof fn lemma_specialization_first(ss: Seq<(String, i64)>, domain: Seq<char>, at: int)
    requires
        0 <= at < ss.len(),
        ss[at].0@ == domain,
        forall|j: int| 0 <= j < at ==> (#[trigger] ss[j]).0@ != domain,
    ensures
        spec_specialization_of(ss, domain) == ss[at].1 as int,
    decreases at,
{
    if at > 0 {
        lemma_specialization_first(ss.drop_first(), domain, at - 1);
    }
}

/// A single outgoing trust edge.
#[derive(Debug)]
pub struct Trust {
    /// The trusted (or distrusted) party.
    pub agent: Address,
    /// Trust level in fixed-point millionths of `[-1, 1]`.
    pub trust: i64,
}

/// The mathematical value of a [`Trust`].
pub struct TrustView {
    pub agent: AddressView,
    pub trust: int,
}

impl View for Trust {
    type V = TrustView;

    open spec fn view(&self) -> TrustView {
        TrustView { agent: self.agent@, trust: self.trust as int }
    }
}

impl Clone for Trust {
    /// A copy with the same edge.
    fn clone(&self) -> (r: Self)
        ensures
            r@ == self@,
    {
        Trust { agent: self.agent.clone(), trust: self.trust }
    }
}

/// An agent's outgoing trust edges.
#[derive(Debug)]
pub struct TrustStore {
    pub num_trusts: u64,
    pub trusts: Vec<Trust>,
}

/// The mathematical value of a [`TrustStore`].
pub struct TrustStoreView {
    pub num_trusts: int,
    pub trusts: Seq<TrustView>,
}

impl View for TrustStore {
    type V = TrustStoreView;

    open spec fn view(&self) -> TrustStoreView {
        TrustStoreView {
            num_trusts: self.num_trusts as int,
            trusts: Seq::new(self.trusts@.len(), |i: int| self.trusts@[i]@),
        }
    }
}

impl Clone for TrustStore {
    /// A copy with the same edges.
    fn clone(&self) -> (r: Self)
        ensures
            r@ == self@,
    {
        let r = TrustStore { num_trusts: self.num_trusts, trusts: clone_trusts(&self.trusts) };
        proof {
            assert(r@.trusts =~= self@.trusts);
        }
        r
    }
}

/// An element-wise copy of a trust list.
fn clone_trusts(ts: &Vec<Trust>) -> (r: Vec<Trust>)
    ensures
        r@.len() == ts@.len(),
        forall|i: int| 0 <= i < ts@.len() ==> (#[trigger] r@[i])@ == ts@[i]@,
{
    let mut out: Vec<Trust> = Vec::new();
    let n = ts.len();
    let mut i: usize = 0;
    while i < n
        invariant
            i <= n,
            n == ts@.len(),
            out@.len() == i,
            forall|j: int| 0 <= j < i ==> (#[trigger] out@[j])@ == ts@[j]@,
        decreases n - i,
    {
        out.push(ts[i].clone());
        i += 1;
    }
    out
}

/// Every edge of the store lies within `[-1, 1]`.
pub open spec fn trust_store_wf(ts: TrustStoreView) -> bool {
    forall|i: int|
        0 <= i < ts.trusts.len() ==> -(SCALE as int) <= (#[trigger] ts.trusts[i]).trust
            <= SCALE as int
}

impl Default for TrustStore {
    fn default() -> (r: Self)
        ensures
            r@.num_trusts == 0,
            r@.trusts.len() == 0,
    {
        let r = TrustStore { num_trusts: 0, trusts: Vec::new() };
        proof {
            assert(r@.trusts =~= Seq::<TrustView>::empty());
        }
        r
    }
}

impl TrustStore {
    /// An empty store.
    pub fn new() -> (r: Self)
        ensures
            r@.num_trusts == 0,
            r@.trusts.len() == 0,
    {
        TrustStore::default()
    }
}

} // verus!

verus! {

/// The mathematical value of an [`AgentProfile`].
pub struct ProfileView {
    pub specializations: Seq<(Seq<char>, int)>,
    pub known_biases: Seq<(Seq<char>, int)>,
    pub avg_confidence: int,
    pub fragment_count: int,
    pub historical_accuracy: int,
}

impl View for AgentProfile {
    type V = ProfileView;

    open spec fn view(&self) -> ProfileView {
        ProfileView {
            specializations: Seq::new(
                self.specializations@.len(),
                |i: int| (self.specializations@[i].0@, self.specializations@[i].1 as int),
            ),
            known_biases: Seq::new(
                self.known_biases@.len(),
                |i: int|
                    (self.known_biases@[i].description@, self.known_biases@[i].severity as int),
            ),
            avg_confidence: self.avg_confidence as int,
            fragment_count: self.fragment_count as int,
            historical_accuracy: self.historical_accuracy as int,
        }
    }
}

/// The mathematical value of an [`Agent`].
pub struct AgentView {
    pub uuid: Seq<char>,
    pub public_key: Seq<char>,
    pub version: int,
    pub description: Seq<char>,
    pub trust: TrustStoreView,
    pub primary_hub: Seq<char>,
    pub signature: Seq<char>,
    pub created_at: int,
    pub updated_at: int,
    pub profile: ProfileView,
}

/// A participant of the network, identified by its Ed25519 key.
#[derive(Debug)]
pub struct Agent {
    pub uuid: String,
    /// Base64 of the 32-byte Ed25519 public key.
    pub public_key: String,
    pub version: u32,
    pub description: String,
    /// Outgoing trust edges, embedded so they travel with the signed record.
    pub trust: TrustStore,
    pub primary_hub: String,
    /// Base64 Ed25519 signature over the canonical signable payload.
    pub signature: String,
    /// Milliseconds since the Unix epoch.
    pub created_at: i64,
    pub updated_at: i64,
    pub profile: AgentProfile,
}

impl View for Agent {
    type V = AgentView;

    open spec fn view(&self) -> AgentView {
        AgentView {
            uuid: self.uuid@,
            public_key: self.public_key@,
            version: self.version as int,
            description: self.description@,
            trust: self.trust@,
            primary_hub: self.primary_hub@,
            signature: self.signature@,
            created_at: self.created_at as int,
            updated_at: self.updated_at as int,
            profile: self.profile@,
        }
    }
}

/// An element-wise copy of a specialization list.
fn clone_specializations(ss: &Vec<(String, i64)>) -> (r: Vec<(String, i64)>)
    ensures
        r@.len() == ss@.len(),
        forall|i: int|
            0 <= i < ss@.len() ==> (#[trigger] r@[i]).0@ == ss@[i].0@ && r@[i].1 == ss@[i].1,
{
    let mut out: Vec<(String, i64)> = Vec::new();
    let n = ss.len();
    let mut i: usize = 0;
    while i < n
        invariant
            i <= n,
            n == ss@.len(),
            out@.len() == i,
            forall|j: int|
                0 <= j < i ==> (#[trigger] out@[j]).0@ == ss@[j].0@ && out@[j].1 == ss@[j].1,
        decreases n - i,
    {
        out.push((ss[i].0.clone(), ss[i].1));
        i += 1;
    }
    out
}

/// An element-wise copy of a bias list.
fn clone_biases(bs: &Vec<Bias>) -> (r: Vec<Bias>)
    ensures
        r@.len() == bs@.len(),
        forall|i: int|
            0 <= i < bs@.len() ==> (#[trigger] r@[i]).description@ == bs@[i].description@
                && r@[i].severity == bs@[i].severity && r@[i].domain == bs@[i].domain,
{
    let mut out: Vec<Bias> = Vec::new();
    let n = bs.len();
    let mut i: usize = 0;
    while i < n
        invariant
            i <= n,
            n == bs@.len(),
            out@.len() == i,
            forall|j: int|
                0 <= j < i ==> (#[trigger] out@[j]).description@ == bs@[j].description@
                    && out@[j].severity == bs@[j].severity && out@[j].domain == bs@[j].domain,
        decreases n - i,
    {
        out.push(bs[i].clone());
        i += 1;
    }
    out
}

/// A deep copy of a profile, preserving its value.
pub fn clone_profile(p: &AgentProfile) -> (r: AgentProfile)
    ensures
        r@ == p@,
{
    let r = AgentProfile {
        specializations: clone_specializations(&p.specializations),
        known_biases: clone_biases(&p.known_biases),
        avg_confidence: p.avg_confidence,
        fragment_count: p.fragment_count,
        historical_accuracy: p.historical_accuracy,
    };
    proof {
        assert(r@.specializations =~= p@.specializations);
        assert(r@.known_biases =~= p@.known_biases);
    }
    r
}

impl Clone for Agent {
    /// A copy with the same value.
    fn clone(&self) -> (r: Self)
        ensures
            r@ == self@,
    {
        Agent {
            uuid: self.uuid.clone(),
            public_key: self.public_key.clone(),
            version: self.version,
            description: self.description.clone(),
            trust: self.trust.clone(),
            primary_hub: self.primary_hub.clone(),
            signature: self.signature.clone(),
            created_at: self.created_at,
            updated_at: self.updated_at,
            profile: clone_profile(&self.profile),
        }
    }
}

/// The trust level this agent records for `addr`: the first matching edge
/// wins, `0` when there is none.
pub open spec fn spec_trust_for(trusts: Seq<TrustView>, addr: AddressView) -> int
    decreases trusts.len(),
{
    if trusts.len() == 0 {
        0
    } else if trusts[0].agent == addr {
        trusts[0].trust
    } else {
        spec_trust_for(trusts.drop_first(), addr)
    }
}

/// Structural validity of an agent record: the required fields are present
/// and every embedded trust level lies within `[-1, 1]`.
pub open spec fn spec_agent_valid(a: AgentView) -> bool {
    a.uuid.len() > 0 && a.public_key.len() > 0 && a.signature.len() > 0 && trust_store_wf(a.trust)
}

impl Agent {
    /// A fresh agent record at version 1 with empty optional fields; the
    /// creation and update stamps coincide.
    pub fn new(uuid: String, public_key: String) -> (r: Agent)
        ensures
            r@.uuid == uuid@,
            r@.public_key == public_key@,
            r@.version == 1,
            r@.description.len() == 0,
            r@.trust.trusts.len() == 0,
            r@.trust.num_trusts == 0,
            r@.primary_hub.len() == 0,
            r@.signature.len() == 0,
            r@.created_at == r@.updated_at,
            r@.created_at >= 0,
            r@.profile.fragment_count == 0,
            trust_store_wf(r@.trust),
    {
        let now = now_millis();
        Agent {
            uuid,
            public_key,
            version: 1,
            description: String::new(),
            trust: TrustStore::new(),
            primary_hub: String::new(),
            signature: String::new(),
            created_at: now,
            updated_at: now,
            profile: AgentProfile::default(),
        }
    }

    /// The same agent with this description.
    pub fn with_description(self, description: String) -> (r: Agent)
        ensures
            r@ == (AgentView { description: description@, ..self@ }),
    {
        Agent { description, ..self }
    }

    /// The same agent with this primary hub.
    pub fn with_primary_hub(self, hub: String) -> (r: Agent)
        ensures
            r@ == (AgentView { primary_hub: hub@, ..self@ }),
    {
        Agent { primary_hub: hub, ..self }
    }

    /// The same agent with this signature.
    pub fn with_signature(self, signature: String) -> (r: Agent)
        ensures
            r@ == (AgentView { signature: signature@, ..self@ }),
    {
        Agent { signature, ..self }
    }

    /// Record a trust edge; the level is clamped into `[-1, 1]` and the
    /// edge count follows the list.
    pub fn add_trust(&mut self, agent: Address, trust_level: i64)
        requires
            old(self).trust.trusts@.len() < u64::MAX,
        ensures
            final(self)@.trust.trusts == old(self)@.trust.trusts.push(
                TrustView {
                    agent: agent@,
                    trust: spec_clamp(trust_level as int, -(SCALE as int), SCALE as int),
                },
            ),
            final(self)@.trust.num_trusts == final(self)@.trust.trusts.len(),
            trust_store_wf(old(self)@.trust) ==> trust_store_wf(final(self)@.trust),
            final(self)@ == (AgentView { trust: final(self)@.trust, ..old(self)@ }),
    {
        let clamped = clamp_fixed(trust_level, -SCALE, SCALE);
        self.trust.trusts.push(Trust { agent, trust: clamped });
        self.trust.num_trusts = self.trust.trusts.len() as u64;
        proof {
            assert(final(self)@.trust.trusts =~= old(self)@.trust.trusts.push(
                TrustView {
                    agent: agent@,
                    trust: spec_clamp(trust_level as int, -(SCALE as int), SCALE as int),
                },
            ));
        }
    }

    /// The trust level recorded for an address, `0` when none.
    pub fn get_trust_for(&self, agent_addr: &Address) -> (r: i64)
        ensures
            r == spec_trust_for(self@.trust.trusts, agent_addr@),
    {
        let n = self.trust.trusts.len();
        let mut i: usize = 0;
        assert(self@.trust.trusts.skip(0) == self@.trust.trusts);
        while i < n
            invariant
                i <= n,
                n == self.trust.trusts@.len(),
                self@.trust.trusts.len() == n,
                spec_trust_for(self@.trust.trusts, agent_addr@) == spec_trust_for(
                    self@.trust.trusts.skip(i as int),
                    agent_addr@,
                ),
            decreases n - i,
        {
            proof {
                assert(self@.trust.trusts.skip(i as int)[0] == self@.trust.trusts[i as int]);
                assert(self@.trust.trusts.skip(i as int).drop_first() =~= self@.trust.trusts.skip(
                    i as int + 1,
                ));
            }
            if self.trust.trusts[i].agent == *agent_addr {
                return self.trust.trusts[i].trust;
            }
            i += 1;
        }
        proof {
            assert(self@.trust.trusts.skip(n as int) =~= Seq::<TrustView>::empty());
        }
        0
    }

    /// Move to the next version.
    pub fn increment_version(&mut self)
        requires
            old(self).version < u32::MAX,
        ensures
            final(self)@ == (AgentView { version: old(self)@.version + 1, ..old(self)@ }),
    {
        self.version = self.version + 1;
    }

    /// Check the record's structural validity: required fields present and
    /// every trust level within `[-1, 1]`.
    pub fn validate(&self) -> (r: Result<(), String>)
        ensures
            r is Ok <==> spec_agent_valid(self@),
    {
        if self.uuid.as_str().unicode_len() == 0 {
            return Err(to_owned_string("uuid is required"));
        }
        if self.public_key.as_str().unicode_len() == 0 {
            return Err(to_owned_string("public_key is required"));
        }
        if self.signature.as_str().unicode_len() == 0 {
            return Err(to_owned_string("signature is required"));
        }
        let n = self.trust.trusts.len();
        let mut i: usize = 0;
        while i < n
            invariant
                i <= n,
                n == self.trust.trusts@.len(),
                self@.trust.trusts.len() == n,
                forall|j: int|
                    0 <= j < i ==> -(SCALE as int) <= (#[trigger] self@.trust.trusts[j]).trust
                        <= SCALE as int,
            decreases n - i,
        {
            let t = self.trust.trusts[i].trust;
            if t < -SCALE || t > SCALE {
                assert(self@.trust.trusts[i as int].trust == t as int);
                assert(!trust_store_wf(self@.trust));
                return Err(to_owned_string("trust must be between -1.0 and 1.0"));
            }
            i += 1;
        }
        Ok(())
    }
}

/// A request to create an agent; the record is self-signed with the key it
/// carries.
#[derive(Debug)]
pub struct CreateAgentRequest {
    pub uuid: Option<String>,
    pub public_key: String,
    pub description: Option<String>,
    pub trust: Option<TrustStore>,
    pub primary_hub: Option<String>,
    pub signature: String,
}

/// A copy of the edges with every trust level clamped into `[-1, 1]`.
fn clamp_trust_store(ts: TrustStore) -> (r: TrustStore)
    ensures
        r@.trusts.len() == ts@.trusts.len(),
        forall|i: int|
            0 <= i < ts@.trusts.len() ==> (#[trigger] r@.trusts[i]).agent == ts@.trusts[i].agent
                && r@.trusts[i].trust == spec_clamp(
                ts@.trusts[i].trust,
                -(SCALE as int),
                SCALE as int,
            ),
        r@.num_trusts == ts@.num_trusts,
        trust_store_wf(r@),
{
    let mut out: Vec<Trust> = Vec::new();
    let n = ts.trusts.len();
    let mut i: usize = 0;
    while i < n
        invariant
            i <= n,
            n == ts.trusts@.len(),
            ts@.trusts.len() == n,
            out@.len() == i,
            forall|j: int|
                0 <= j < i ==> (#[trigger] out@[j])@.agent == ts@.trusts[j].agent && out@[j]@.trust
                    == spec_clamp(ts@.trusts[j].trust, -(SCALE as int), SCALE as int),
        decreases n - i,
    {
        let clamped = clamp_fixed(ts.trusts[i].trust, -SCALE, SCALE);
        out.push(Trust { agent: ts.trusts[i].agent.clone(), trust: clamped });
        i += 1;
    }
    let r = TrustStore { num_trusts: ts.num_trusts, trusts: out };
    r
}

impl Agent {
    /// Build the stored record from a creation request: a fresh identifier
    /// when none is given, version 1, matching timestamps, and every
    /// embedded trust level clamped into `[-1, 1]`.
    pub fn from_request(req: CreateAgentRequest) -> (r: Agent)
        ensures
            match req.uuid {
                Some(u) => r@.uuid == u@,
                None => true,
            },
            r@.public_key == req.public_key@,
            r@.version == 1,
            r@.description == match req.description {
                Some(d) => d@,
                None => Seq::<char>::empty(),
            },
            r@.primary_hub == match req.primary_hub {
                Some(h) => h@,
                None => Seq::<char>::empty(),
            },
            r@.signature == req.signature@,
            match req.trust {
                Some(ts) => r@.trust.trusts.len() == ts@.trusts.len() && forall|i: int|
                    0 <= i < ts@.trusts.len() ==> (#[trigger] r@.trust.trusts[i]).agent
                        == ts@.trusts[i].agent && r@.trust.trusts[i].trust == spec_clamp(
                        ts@.trusts[i].trust,
                        -(SCALE as int),
                        SCALE as int,
                    ),
                None => r@.trust.trusts.len() == 0,
            },
            trust_store_wf(r@.trust),
            r@.created_at == r@.updated_at,
            r@.created_at >= 0,
    {
        let uuid = match req.uuid {
            Some(u) => u,
            None => fresh_uuid(),
        };
        let mut agent = Agent::new(uuid, req.public_key).with_signature(req.signature);
        if let Some(desc) = req.description {
            agent = agent.with_description(desc);
        }
        if let Some(ts) = req.trust {
            agent.trust = clamp_trust_store(ts);
        }
        if let Some(hub) = req.primary_hub {
            agent = agent.with_primary_hub(hub);
        }
        agent
    }
}

} // verus!
