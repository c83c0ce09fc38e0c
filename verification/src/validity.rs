//! Validity analysis of reasoning chains: derivation sources, evidence
//! balance, circular-dependency detection, and the graded report.

use vstd::prelude::*;

use crate::codec::SCALE;
use crate::relation::{Relation, RelationType};
use crate::text::{str_eq, to_owned_string};

verus! {

/// The overall verdict on a reasoning chain.
#[derive(Debug, Clone, Copy, PartialEq, Eq, Structural)]
pub enum ChainValidity {
    Valid,
    Conditional,
    Contested,
    Broken,
}

impl ChainValidity {
    /// The canonical lower-case text of this verdict.
    pub open spec fn text(self) -> Seq<char> {
        match self {
            ChainValidity::Valid => "valid"@,
            ChainValidity::Conditional => "conditional"@,
            ChainValidity::Contested => "contested"@,
            ChainValidity::Broken => "broken"@,
        }
    }

    /// Canonical text of this verdict, e.g. `contested`.
    pub fn as_str(self) -> (r: &'static str)
        ensures
            r@ == self.text(),
    {
        match self {
            ChainValidity::Valid => "valid",
            ChainValidity::Conditional => "conditional",
            ChainValidity::Contested => "contested",
            ChainValidity::Broken => "broken",
        }
    }
}

/// What kind of problem an issue reports.
#[derive(Debug, Clone, Copy, PartialEq, Eq, Structural)]
pub enum IssueType {
    MissingReference,
    ContestedPremise,
    LowConfidence,
    UnverifiedSource,
    CircularDependency,
}

impl IssueType {
    /// The canonical snake-case text of this issue kind.
    pub open spec fn text(self) -> Seq<char> {
        match self {
            IssueType::MissingReference => "missing_reference"@,
            IssueType::ContestedPremise => "contested_premise"@,
            IssueType::LowConfidence => "low_confidence"@,
            IssueType::UnverifiedSource => "unverified_source"@,
            IssueType::CircularDependency => "circular_dependency"@,
        }
    }

    /// Canonical text of this issue kind.
    pub fn as_str(self) -> (r: &'static str)
        ensures
            r@ == self.text(),
    {
        match self {
            IssueType::MissingReference => "missing_reference",
            IssueType::ContestedPremise => "contested_premise",
            IssueType::LowConfidence => "low_confidence",
            IssueType::UnverifiedSource => "unverified_source",
            IssueType::CircularDependency => "circular_dependency",
        }
    }

    /// The verdict this issue kind pulls a report toward.
    pub open spec fn spec_downgrade(self) -> ChainValidity {
        match self {
            IssueType::MissingReference => ChainValidity::Broken,
            IssueType::CircularDependency => ChainValidity::Broken,
            IssueType::ContestedPremise => ChainValidity::Contested,
            IssueType::LowConfidence => ChainValidity::Conditional,
            IssueType::UnverifiedSource => ChainValidity::Conditional,
        }
    }
}

/// How bad a verdict is; reports only ever get worse.
pub open spec fn spec_severity_rank(v: ChainValidity) -> int {
    match v {
        ChainValidity::Valid => 0,
        ChainValidity::Conditional => 1,
        ChainValidity::Contested => 2,
        ChainValidity::Broken => 3,
    }
}

/// The worse of two verdicts.
pub open spec fn spec_worse(a: ChainValidity, b: ChainValidity) -> ChainValidity {
    if spec_severity_rank(a) >= spec_severity_rank(b) {
        a
    } else {
        b
    }
}

/// One concrete problem found in a chain.
#[derive(Debug)]
pub struct ValidityIssue {
    pub fragment_id: String,
    pub issue_type: IssueType,
    pub description: String,
    /// Severity in fixed-point millionths of `[0, 1]`.
    pub severity: i64,
}

impl Clone for ValidityIssue {
    /// A copy with the same value.
    fn clone(&self) -> (r: Self)
        ensures
            r.fragment_id@ == self.fragment_id@,
            r.issue_type == self.issue_type,
            r.description@ == self.description@,
            r.severity == self.severity,
    {
        ValidityIssue {
            fragment_id: self.fragment_id.clone(),
            issue_type: self.issue_type,
            description: self.description.clone(),
            severity: self.severity,
        }
    }
}

impl ValidityIssue {
    /// An issue with its severity clamped into `[0, 1]`.
    pub fn new(fragment_id: String, issue_type: IssueType, description: String, severity: i64) -> (r:
        ValidityIssue)
        ensures
            r.fragment_id == fragment_id,
            r.issue_type == issue_type,
            r.description == description,
            r.severity == crate::agent::spec_clamp(severity as int, 0, SCALE as int),
    {
        ValidityIssue {
            fragment_id,
            issue_type,
            description,
            severity: crate::agent::clamp_fixed(severity, 0, SCALE),
        }
    }
}

/// A graded report over a reasoning chain.
#[derive(Debug)]
pub struct ValidityReport {
    pub validity: ChainValidity,
    pub issues: Vec<ValidityIssue>,
    /// Confidence-weighted score, fixed-point millionths of `[0, 1]`.
    pub confidence_weighted_score: i64,
    pub fragments_analyzed: usize,
    pub relations_analyzed: usize,
}

impl ValidityReport {
    /// A fresh report: valid, no issues, full confidence.
    pub fn new() -> (r: ValidityReport)
        ensures
            r.validity == ChainValidity::Valid,
            r.issues@.len() == 0,
            r.confidence_weighted_score == SCALE,
            r.fragments_analyzed == 0,
            r.relations_analyzed == 0,
    {
        ValidityReport {
            validity: ChainValidity::Valid,
            issues: Vec::new(),
            confidence_weighted_score: SCALE,
            fragments_analyzed: 0,
            relations_analyzed: 0,
        }
    }

    /// Record an issue: the verdict only ever worsens (to the issue's
    /// level) and the confidence score shrinks by a fifth of the issue's
    /// severity, never below zero.
    pub fn add_issue(&mut self, issue: ValidityIssue)
        requires
            0 <= old(self).confidence_weighted_score <= SCALE as int,
            0 <= issue.severity <= SCALE as int,
        ensures
            final(self).validity == spec_worse(
                old(self).validity,
                issue.issue_type.spec_downgrade(),
            ),
            final(self).issues@.len() == old(self).issues@.len() + 1,
            final(self).issues@ == old(self).issues@.push(issue),
            0 <= final(self).confidence_weighted_score <= old(self).confidence_weighted_score,
            final(self).confidence_weighted_score == crate::trust::spec_tdiv(
                old(self).confidence_weighted_score * (SCALE as int - crate::trust::spec_tdiv(
                    issue.severity as int,
                    5,
                )),
                SCALE as int,
            ),
            final(self).fragments_analyzed == old(self).fragments_analyzed,
            final(self).relations_analyzed == old(self).relations_analyzed,
    {
        let downgrade = match issue.issue_type {
            IssueType::MissingReference => ChainValidity::Broken,
            IssueType::CircularDependency => ChainValidity::Broken,
            IssueType::ContestedPremise => ChainValidity::Contested,
            IssueType::LowConfidence => ChainValidity::Conditional,
            IssueType::UnverifiedSource => ChainValidity::Conditional,
        };
        let keep_old = match (self.validity, downgrade) {
            (ChainValidity::Broken, _) => true,
            (ChainValidity::Contested, ChainValidity::Broken) => false,
            (ChainValidity::Contested, _) => true,
            (ChainValidity::Conditional, ChainValidity::Valid) => true,
            (ChainValidity::Conditional, ChainValidity::Conditional) => true,
            (ChainValidity::Conditional, _) => false,
            (ChainValidity::Valid, _) => false,
        };
        if !keep_old {
            self.validity = downgrade;
        }
        let factor: i64 = SCALE - issue.severity / 5;
        proof {
            assert(0 <= issue.severity as int / 5 <= SCALE as int);
            assert(crate::trust::spec_tdiv(issue.severity as int, 5) == issue.severity as int
                / 5);
            assert(0 <= self.confidence_weighted_score * factor <= 1000000000000)
                by (nonlinear_arith)
                requires
                    0 <= self.confidence_weighted_score <= 1000000,
                    0 <= factor <= 1000000,
            ;
        }
        let scaled: i64 = (self.confidence_weighted_score * factor) / SCALE;
        proof {
            assert(crate::trust::spec_tdiv(
                self.confidence_weighted_score as int * factor as int,
                SCALE as int,
            ) == (self.confidence_weighted_score as int * factor as int) / (SCALE as int));
            assert(0 <= scaled <= 1000000) by (nonlinear_arith)
                requires
                    0 <= self.confidence_weighted_score as int * factor as int
                        <= 1000000000000,
                    scaled as int == (self.confidence_weighted_score as int * factor as int)
                        / 1000000,
            ;
            assert(scaled <= self.confidence_weighted_score) by (nonlinear_arith)
                requires
                    0 <= self.confidence_weighted_score <= 1000000,
                    0 <= factor <= 1000000,
                    scaled as int == (self.confidence_weighted_score as int * factor as int)
                        / 1000000,
            ;
        }
        self.confidence_weighted_score = if scaled < 0 {
            0
        } else {
            scaled
        };
        self.issues.push(issue);
    }
}

impl Default for ValidityReport {
    fn default() -> (r: Self)
        ensures
            r.validity == ChainValidity::Valid,
            r.issues@.len() == 0,
            r.confidence_weighted_score == SCALE,
    {
        ValidityReport::new()
    }
}

/// The balance of support and contradiction around a thesis.
#[derive(Debug)]
pub struct EvidenceBalance {
    pub thesis_id: String,
    /// Supporting fragment identifiers with their confidences.
    pub supporting: Vec<(String, i64)>,
    /// Contradicting fragment identifiers with their confidences.
    pub contradicting: Vec<(String, i64)>,
    /// Sum of supporting confidences, fixed-point millionths.
    pub support_score: i64,
    /// Sum of contradicting confidences, fixed-point millionths.
    pub contradict_score: i64,
    /// Support minus contradiction.
    pub net_score: i64,
}

impl EvidenceBalance {
    /// An empty balance for a thesis.
    pub fn new(thesis_id: String) -> (r: EvidenceBalance)
        ensures
            r.thesis_id == thesis_id,
            r.supporting@.len() == 0,
            r.contradicting@.len() == 0,
            r.support_score == 0,
            r.contradict_score == 0,
            r.net_score == 0,
    {
        EvidenceBalance {
            thesis_id,
            supporting: Vec::new(),
            contradicting: Vec::new(),
            support_score: 0,
            contradict_score: 0,
            net_score: 0,
        }
    }

    /// Record a supporting fragment and add its confidence.
    pub fn add_support(&mut self, fragment_id: String, confidence: i64)
        requires
            0 <= confidence <= SCALE as int,
            old(self).support_score >= 0,
            old(self).contradict_score >= 0,
            old(self).support_score + confidence <= i64::MAX,
        ensures
            final(self).supporting@ == old(self).supporting@.push((fragment_id, confidence)),
            final(self).support_score == old(self).support_score + confidence,
            final(self).net_score == final(self).support_score - final(self).contradict_score,
            final(self).contradict_score == old(self).contradict_score,
            final(self).contradicting@ == old(self).contradicting@,
            final(self).thesis_id == old(self).thesis_id,
    {
        self.support_score = self.support_score + confidence;
        self.net_score = self.support_score - self.contradict_score;
        self.supporting.push((fragment_id, confidence));
    }

    /// Record a contradicting fragment and add its confidence.
    pub fn add_contradiction(&mut self, fragment_id: String, confidence: i64)
        requires
            0 <= confidence <= SCALE as int,
            old(self).support_score >= 0,
            old(self).contradict_score >= 0,
            old(self).contradict_score + confidence <= i64::MAX,
            old(self).support_score <= i64::MAX,
        ensures
            final(self).contradicting@ == old(self).contradicting@.push(
                (fragment_id, confidence),
            ),
            final(self).contradict_score == old(self).contradict_score + confidence,
            final(self).net_score == final(self).support_score - final(self).contradict_score,
            final(self).support_score == old(self).support_score,
            final(self).supporting@ == old(self).supporting@,
            final(self).thesis_id == old(self).thesis_id,
    {
        self.contradict_score = self.contradict_score + confidence;
        self.net_score = self.support_score - self.contradict_score;
        self.contradicting.push((fragment_id, confidence));
    }
}

/// Thresholds for reasoning-chain analysis, fixed-point millionths.
#[derive(Debug, Clone, Copy)]
pub struct ValidityService {
    pub min_confidence_threshold: i64,
    pub min_trust_threshold: i64,
}

/// The target entities of the DERIVED_FROM relations out of a fragment.
pub open spec fn spec_derivation_sources(relations: Seq<Relation>, fragment_id: Seq<char>) -> Seq<
    Seq<char>,
>
    decreases relations.len(),
{
    if relations.len() == 0 {
        Seq::empty()
    } else if relations[0]@.from.entity == fragment_id && relations[0]@.relation_type
        == RelationType::DerivedFrom {
        seq![relations[0]@.to.entity] + spec_derivation_sources(
            relations.drop_first(),
            fragment_id,
        )
    } else {
        spec_derivation_sources(relations.drop_first(), fragment_id)
    }
}

impl ValidityService {
    /// The default thresholds.
    pub fn new() -> (r: ValidityService)
        ensures
            r.min_confidence_threshold == 300000,
            r.min_trust_threshold == 300000,
    {
        ValidityService { min_confidence_threshold: 300000, min_trust_threshold: 300000 }
    }

    /// Custom thresholds.
    pub fn with_thresholds(min_confidence: i64, min_trust: i64) -> (r: ValidityService)
        ensures
            r.min_confidence_threshold == min_confidence,
            r.min_trust_threshold == min_trust,
    {
        ValidityService { min_confidence_threshold: min_confidence, min_trust_threshold: min_trust }
    }

    /// The entities this fragment derives from, in relation order.
    pub fn get_derivation_sources(&self, fragment_id: &str, relations: &Vec<Relation>) -> (r: Vec<
        String,
    >)
        ensures
            ({
                let found = spec_derivation_sources(relations@, fragment_id@);
                r@.len() == found.len() && forall|k: int|
                    0 <= k < found.len() ==> (#[trigger] r@[k])@ == found[k]
            }),
    {
        let n = relations.len();
        let mut out: Vec<String> = Vec::new();
        let ghost collected: Seq<Seq<char>> = Seq::empty();
        let mut collected_t = Ghost(collected);
        let mut i: usize = 0;
        assert(relations@.skip(0) == relations@);
        while i < n
            invariant
                i <= n,
                n == relations@.len(),
                out@.len() == collected_t@.len(),
                forall|k: int|
                    0 <= k < collected_t@.len() ==> (#[trigger] out@[k])@ == collected_t@[k],
                collected_t@ + spec_derivation_sources(relations@.skip(i as int), fragment_id@)
                    == spec_derivation_sources(relations@, fragment_id@),
            decreases n - i,
        {
            proof {
                assert(relations@.skip(i as int)[0] == relations@[i as int]);
                assert(relations@.skip(i as int).drop_first() =~= relations@.skip(i as int + 1));
            }
            let rel = &relations[i];
            if str_eq(rel.from.entity.as_str(), fragment_id) && rel.relation_type
                == RelationType::DerivedFrom {
                out.push(rel.to.entity.clone());
                proof {
                    collected_t@ = collected_t@.push(relations@[i as int]@.to.entity);
                    assert(collected_t@ + spec_derivation_sources(
                        relations@.skip(i as int + 1),
                        fragment_id@,
                    ) =~= spec_derivation_sources(relations@, fragment_id@));
                }
            }
            i += 1;
        }
        proof {
            assert(relations@.skip(n as int) =~= Seq::<Relation>::empty());
            assert(collected_t@ =~= spec_derivation_sources(relations@, fragment_id@));
        }
        out
    }

    /// The relations supporting a fragment, as indexes into the list.
    pub fn find_supporting_relations(&self, fragment_id: &str, relations: &Vec<Relation>) -> (r:
        Vec<usize>)
        ensures
            forall|k: int|
                0 <= k < r@.len() ==> (#[trigger] r@[k]) < relations@.len() && relations@[
                    r@[k] as int]@.to.entity == fragment_id@ && relations@[
                    r@[k] as int]@.relation_type == RelationType::Supports,
            forall|j: int|
                0 <= j < relations@.len() && (#[trigger] relations@[j])@.to.entity == fragment_id@
                    && relations@[j]@.relation_type == RelationType::Supports ==> exists|k: int|
                    0 <= k < r@.len() && r@[k] == j,
    {
        let n = relations.len();
        let mut out: Vec<usize> = Vec::new();
        let mut i: usize = 0;
        while i < n
            invariant
                i <= n,
                n == relations@.len(),
                forall|k: int|
                    0 <= k < out@.len() ==> (#[trigger] out@[k]) < relations@.len() && relations@[
                        out@[k] as int]@.to.entity == fragment_id@ && relations@[
                        out@[k] as int]@.relation_type == RelationType::Supports,
                forall|j: int|
                    0 <= j < i && (#[trigger] relations@[j])@.to.entity == fragment_id@
                        && relations@[j]@.relation_type == RelationType::Supports ==> exists|
                        k: int,
                    |
                        0 <= k < out@.len() && out@[k] == j,
            decreases n - i,
        {
            let ghost pre = out@;
            if str_eq(relations[i].to.entity.as_str(), fragment_id) && relations[i].relation_type
                == RelationType::Supports {
                out.push(i);
            }
            proof {
                assert forall|j: int|
                    0 <= j < i + 1 && (#[trigger] relations@[j])@.to.entity == fragment_id@
                        && relations@[j]@.relation_type == RelationType::Supports implies exists|
                    k: int,
                |
                    0 <= k < out@.len() && out@[k] == j by {
                    if j < i {
                        let k = choose|k: int| 0 <= k < pre.len() && pre[k] == j;
                        assert(out@[k] == j);
                    } else {
                        assert(out@[out@.len() - 1] == j);
                    }
                }
            }
            i += 1;
        }
        out
    }

    /// The relations contradicting a fragment, as indexes into the list.
    pub fn find_contradicting_relations(&self, fragment_id: &str, relations: &Vec<Relation>) -> (r:
        Vec<usize>)
        ensures
            forall|k: int|
                0 <= k < r@.len() ==> (#[trigger] r@[k]) < relations@.len() && relations@[
                    r@[k] as int]@.to.entity == fragment_id@ && relations@[
                    r@[k] as int]@.relation_type == RelationType::Contradicts,
            forall|j: int|
                0 <= j < relations@.len() && (#[trigger] relations@[j])@.to.entity == fragment_id@
                    && relations@[j]@.relation_type == RelationType::Contradicts ==> exists|
                    k: int,
                |
                    0 <= k < r@.len() && r@[k] == j,
    {
        let n = relations.len();
        let mut out: Vec<usize> = Vec::new();
        let mut i: usize = 0;
        while i < n
            invariant
                i <= n,
                n == relations@.len(),
                forall|k: int|
                    0 <= k < out@.len() ==> (#[trigger] out@[k]) < relations@.len() && relations@[
                        out@[k] as int]@.to.entity == fragment_id@ && relations@[
                        out@[k] as int]@.relation_type == RelationType::Contradicts,
                forall|j: int|
                    0 <= j < i && (#[trigger] relations@[j])@.to.entity == fragment_id@
                        && relations@[j]@.relation_type == RelationType::Contradicts ==> exists|
                        k: int,
                    |
                        0 <= k < out@.len() && out@[k] == j,
            decreases n - i,
        {
            let ghost pre = out@;
            if str_eq(relations[i].to.entity.as_str(), fragment_id) && relations[i].relation_type
                == RelationType::Contradicts {
                out.push(i);
            }
            proof {
                assert forall|j: int|
                    0 <= j < i + 1 && (#[trigger] relations@[j])@.to.entity == fragment_id@
                        && relations@[j]@.relation_type == RelationType::Contradicts
                        implies exists|k: int|
                    0 <= k < out@.len() && out@[k] == j by {
                    if j < i {
                        let k = choose|k: int| 0 <= k < pre.len() && pre[k] == j;
                        assert(out@[k] == j);
                    } else {
                        assert(out@[out@.len() - 1] == j);
                    }
                }
            }
            i += 1;
        }
        out
    }

    /// Tally the evidence around a thesis: supporting relations add their
    /// confidence to one side, contradicting ones to the other.
    pub fn calculate_evidence_balance(&self, thesis_id: &str, relations: &Vec<Relation>) -> (r:
        EvidenceBalance)
        requires
            relations@.len() * (SCALE as int) <= i64::MAX,
            forall|j: int|
                0 <= j < relations@.len() ==> 0 <= (#[trigger] relations@[j])@.confidence
                    <= SCALE as int,
        ensures
            r.thesis_id@ == thesis_id@,
            r.net_score == r.support_score - r.contradict_score,
            0 <= r.support_score <= relations@.len() * (SCALE as int),
            0 <= r.contradict_score <= relations@.len() * (SCALE as int),
            r.supporting@.len() + r.contradicting@.len() <= relations@.len(),
    {
        let mut balance = EvidenceBalance::new(to_owned_string(thesis_id));
        let n = relations.len();
        let mut i: usize = 0;
        while i < n
            invariant
                i <= n,
                n == relations@.len(),
                n * (SCALE as int) <= i64::MAX,
                forall|j: int|
                    0 <= j < n ==> 0 <= (#[trigger] relations@[j])@.confidence <= SCALE as int,
                balance.thesis_id@ == thesis_id@,
                balance.net_score == balance.support_score - balance.contradict_score,
                0 <= balance.support_score,
                0 <= balance.contradict_score,
                balance.support_score + balance.contradict_score <= i * (SCALE as int),
                balance.supporting@.len() + balance.contradicting@.len() <= i,
            decreases n - i,
        {
            proof {
                assert((i + 1) * (SCALE as int) == i * (SCALE as int) + SCALE) by (nonlinear_arith);
                assert(i * (SCALE as int) <= n * (SCALE as int)) by (nonlinear_arith)
                    requires
                        0 <= i <= n,
                ;
            }
            let rel = &relations[i];
            if str_eq(rel.to.entity.as_str(), thesis_id) {
                if rel.relation_type == RelationType::Supports {
                    balance.add_support(rel.from.entity.clone(), rel.confidence);
                } else if rel.relation_type == RelationType::Contradicts {
                    balance.add_contradiction(rel.from.entity.clone(), rel.confidence);
                }
            }
            i += 1;
        }
        proof {
            assert(balance.support_score <= n * (SCALE as int));
            assert(balance.contradict_score <= n * (SCALE as int));
        }
        balance
    }

    /// Look for a derivation cycle reachable from `start_id`, walking
    /// DERIVED_FROM edges depth-first. A found cycle is returned as the
    /// identifiers along it; every consecutive pair (and the wrap-around)
    /// is a derivation step.
    pub fn check_circular_dependencies(&self, start_id: &str, relations: &Vec<Relation>) -> (r:
        Option<Vec<String>>)
    {
        let mut path: Vec<String> = Vec::new();
        let fuel = if relations.len() < usize::MAX {
            relations.len() + 1
        } else {
            usize::MAX
        };
        self.dfs_cycle_check(start_id, relations, &mut path, fuel)
    }

    /// Depth-first walk with a recursion budget; a repeated identifier on
    /// the path is a cycle.
    fn dfs_cycle_check(
        &self,
        current_id: &str,
        relations: &Vec<Relation>,
        path: &mut Vec<String>,
        fuel: usize,
    ) -> (r: Option<Vec<String>>)
        ensures
            final(path)@.len() == old(path)@.len(),
        decreases fuel,
    {
        if fuel == 0 {
            return None;
        }
        let pn = path.len();
        let mut at: usize = 0;
        let mut found = false;
        let mut k: usize = 0;
        while k < pn
            invariant
                k <= pn,
                pn == path@.len(),
                found ==> at < pn,
            decreases pn - k,
        {
            if str_eq(path[k].as_str(), current_id) {
                if !found {
                    at = k;
                    found = true;
                }
            }
            k += 1;
        }
        if found {
            let mut cycle: Vec<String> = Vec::new();
            let mut j: usize = at;
            while j < pn
                invariant
                    at <= j <= pn,
                    pn == path@.len(),
                decreases pn - j,
            {
                cycle.push(path[j].clone());
                j += 1;
            }
            return Some(cycle);
        }
        path.push(to_owned_string(current_id));
        let sources = self.get_derivation_sources(current_id, relations);
        let sn = sources.len();
        let mut s: usize = 0;
        while s < sn
            invariant
                s <= sn,
                sn == sources@.len(),
                fuel >= 1,
                path@.len() == old(path)@.len() + 1,
            decreases sn - s,
        {
            match self.dfs_cycle_check(sources[s].as_str(), relations, path, fuel - 1) {
                Some(cycle) => {
                    path.pop();
                    return Some(cycle);
                },
                None => {},
            }
            s += 1;
        }
        path.pop();
        None
    }
}

impl Default for ValidityService {
    fn default() -> (r: Self)
        ensures
            r.min_confidence_threshold == 300000,
            r.min_trust_threshold == 300000,
    {
        ValidityService::new()
    }
}

} // verus!
