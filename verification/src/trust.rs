//! Trust paths and scores over the directed trust graph.
//!
//! Effective trust along a path is the product of its edge levels, damped
//! once per hop after the first. All levels are fixed-point millionths of
//! `[-1, 1]`; products divide by the scale at each step, truncating toward
//! zero.

use vstd::prelude::*;

use crate::address::{Address, AddressView};
use crate::agent::{clamp_fixed, spec_clamp};
use crate::codec::SCALE;

verus! {

/// Division truncating toward zero, as machine division does.
pub open spec fn spec_tdiv(a: int, b: int) -> int {
    if a >= 0 {
        a / b
    } else {
        -((-a) / b)
    }
}

/// One step of accumulation: the running product times an edge level,
/// rescaled, times the damping factor, rescaled. Both rescalings truncate
/// toward zero.
pub open spec fn spec_damp_step(cum: int, level: int, damping: int) -> int {
    spec_tdiv(spec_tdiv(cum * level, SCALE as int) * damping, SCALE as int)
}

/// The effective trust of a sequence of hop levels: the first level taken
/// as is, every later one folded in with damping.
pub open spec fn spec_effective_trust(levels: Seq<int>, damping: int) -> int
    decreases levels.len(),
{
    if levels.len() == 0 {
        0
    } else if levels.len() == 1 {
        levels[0]
    } else {
        spec_damp_step(spec_effective_trust(levels.drop_last(), damping), levels.last(), damping)
    }
}

/// Rescaling by the fixed-point unit keeps a bounded product in bounds.
pub proof fn lemma_tdiv_bound(a: int, bound: int)
    requires
        -(bound * 1000000) <= a <= bound * 1000000,
        bound >= 0,
    ensures
        -bound <= spec_tdiv(a, 1000000) <= bound,
{
    if a >= 0 {
        assert(a / 1000000 <= bound) by (nonlinear_arith)
            requires
                0 <= a <= bound * 1000000,
                bound >= 0,
        ;
        assert(a / 1000000 >= 0) by (nonlinear_arith)
            requires
                a >= 0,
        ;
    } else {
        assert((-a) / 1000000 <= bound) by (nonlinear_arith)
            requires
                0 <= -a <= bound * 1000000,
                bound >= 0,
        ;
        assert((-a) / 1000000 >= 0) by (nonlinear_arith)
            requires
                -a >= 0,
        ;
    }
}

/// A damped product of levels within `[-1, 1]` stays within `[-1, 1]`.
pub proof fn lemma_damp_step_bounded(cum: int, level: int, damping: int)
    requires
        -(SCALE as int) <= cum <= SCALE as int,
        -(SCALE as int) <= level <= SCALE as int,
        0 <= damping <= SCALE as int,
    ensures
        -(SCALE as int) <= spec_damp_step(cum, level, damping) <= SCALE as int,
{
    assert(-(1000000 * 1000000) <= cum * level <= 1000000 * 1000000) by (nonlinear_arith)
        requires
            -1000000 <= cum <= 1000000,
            -1000000 <= level <= 1000000,
    ;
    lemma_tdiv_bound(cum * level, 1000000);
    let q = spec_tdiv(cum * level, SCALE as int);
    assert(-(1000000 * 1000000) <= q * damping <= 1000000 * 1000000) by (nonlinear_arith)
        requires
            -1000000 <= q <= 1000000,
            0 <= damping <= 1000000,
    ;
    lemma_tdiv_bound(q * damping, 1000000);
}

/// The effective trust of levels within `[-1, 1]` stays within `[-1, 1]`.
pub proof fn lemma_effective_trust_bounded(levels: Seq<int>, damping: int)
    requires
        forall|i: int| 0 <= i < levels.len() ==> -(SCALE as int) <= #[trigger] levels[i]
            <= SCALE as int,
        0 <= damping <= SCALE as int,
    ensures
        -(SCALE as int) <= spec_effective_trust(levels, damping) <= SCALE as int,
    decreases levels.len(),
{
    if levels.len() > 1 {
        lemma_effective_trust_bounded(levels.drop_last(), damping);
        lemma_damp_step_bounded(
            spec_effective_trust(levels.drop_last(), damping),
            levels.last(),
            damping,
        );
    }
}

/// Truncating division of a possibly negative value by the scale, via
/// magnitudes.
fn tdiv_scale(a_neg: bool, a_mag: u64) -> (r: i64)
    requires
        a_mag <= 1000000000000,
    ensures
        r as int == spec_tdiv(
            if a_neg {
                -(a_mag as int)
            } else {
                a_mag as int
            },
            SCALE as int,
        ),
        -1000000 <= r <= 1000000,
{
    let q: u64 = a_mag / 1000000;
    assert(q <= 1000000) by (nonlinear_arith)
        requires
            a_mag <= 1000000000000,
            q == a_mag / 1000000,
    ;
    if a_neg {
        -(q as i64)
    } else {
        q as i64
    }
}

/// One step of the damped product.
pub fn damp_step(cum: i64, level: i64, damping: i64) -> (r: i64)
    requires
        -(SCALE as int) <= cum <= SCALE as int,
        -(SCALE as int) <= level <= SCALE as int,
        0 <= damping <= SCALE as int,
    ensures
        r == spec_damp_step(cum as int, level as int, damping as int),
        -(SCALE as int) <= r <= SCALE as int,
{
    let c_mag: u64 = if cum < 0 {
        (-cum) as u64
    } else {
        cum as u64
    };
    let l_mag: u64 = if level < 0 {
        (-level) as u64
    } else {
        level as u64
    };
    proof {
        assert(c_mag * l_mag <= 1000000000000) by (nonlinear_arith)
            requires
                c_mag <= 1000000,
                l_mag <= 1000000,
        ;
        assert(cum as int * level as int == if (cum < 0) != (level < 0) {
            -((c_mag * l_mag) as int)
        } else {
            (c_mag * l_mag) as int
        }) by (nonlinear_arith)
            requires
                c_mag as int == if cum < 0 { -(cum as int) } else { cum as int },
                l_mag as int == if level < 0 { -(level as int) } else { level as int },
        ;
    }
    let prod: i64 = tdiv_scale((cum < 0) != (level < 0), c_mag * l_mag);
    let p_mag: u64 = if prod < 0 {
        (-prod) as u64
    } else {
        prod as u64
    };
    proof {
        assert(p_mag * damping as u64 <= 1000000000000) by (nonlinear_arith)
            requires
                p_mag <= 1000000,
                0 <= damping <= 1000000,
        ;
        assert(prod as int * damping as int == if prod < 0 {
            -((p_mag * damping as u64) as int)
        } else {
            (p_mag * damping as u64) as int
        }) by (nonlinear_arith)
            requires
                p_mag as int == if prod < 0 { -(prod as int) } else { prod as int },
                damping >= 0,
        ;
    }
    let r = tdiv_scale(prod < 0, p_mag * (damping as u64));
    proof {
        if prod < 0 && p_mag == 0 {
            assert(false);
        }
    }
    r
}

/// A hop of a trust path.
#[derive(Debug)]
pub struct TrustPathHop {
    /// The agent reached by this hop.
    pub agent: Address,
    /// The edge's trust level, fixed-point millionths of `[-1, 1]`.
    pub trust_level: i64,
}

/// The mathematical value of a [`TrustPathHop`].
pub struct TrustPathHopView {
    pub agent: AddressView,
    pub trust_level: int,
}

impl View for TrustPathHop {
    type V = TrustPathHopView;

    open spec fn view(&self) -> TrustPathHopView {
        TrustPathHopView { agent: self.agent@, trust_level: self.trust_level as int }
    }
}

impl Clone for TrustPathHop {
    /// A copy with the same hop.
    fn clone(&self) -> (r: Self)
        ensures
            r@ == self@,
    {
        TrustPathHop { agent: self.agent.clone(), trust_level: self.trust_level }
    }
}

/// An element-wise copy of a hop list.
pub fn clone_hops(hs: &Vec<TrustPathHop>) -> (r: Vec<TrustPathHop>)
    ensures
        r@.len() == hs@.len(),
        forall|i: int| 0 <= i < hs@.len() ==> (#[trigger] r@[i])@ == hs@[i]@,
{
    let mut out: Vec<TrustPathHop> = Vec::new();
    let n = hs.len();
    let mut i: usize = 0;
    while i < n
        invariant
            i <= n,
            n == hs@.len(),
            out@.len() == i,
            forall|j: int| 0 <= j < i ==> (#[trigger] out@[j])@ == hs@[j]@,
        decreases n - i,
    {
        out.push(hs[i].clone());
        i += 1;
    }
    out
}

/// The mathematical value of a [`TrustPath`].
pub struct TrustPathView {
    pub from: AddressView,
    pub to: AddressView,
    pub hops: Seq<TrustPathHopView>,
    pub effective_trust: int,
    pub depth: int,
}

/// A path through the trust graph with its damped effective trust.
#[derive(Debug)]
pub struct TrustPath {
    pub from: Address,
    pub to: Address,
    pub hops: Vec<TrustPathHop>,
    /// Effective trust, fixed-point millionths of `[-1, 1]`.
    pub effective_trust: i64,
    pub depth: usize,
}

impl View for TrustPath {
    type V = TrustPathView;

    open spec fn view(&self) -> TrustPathView {
        TrustPathView {
            from: self.from@,
            to: self.to@,
            hops: Seq::new(self.hops@.len(), |i: int| self.hops@[i]@),
            effective_trust: self.effective_trust as int,
            depth: self.depth as int,
        }
    }
}

impl Clone for TrustPath {
    /// A copy with the same value.
    fn clone(&self) -> (r: Self)
        ensures
            r@ == self@,
    {
        let r = TrustPath {
            from: self.from.clone(),
            to: self.to.clone(),
            hops: clone_hops(&self.hops),
            effective_trust: self.effective_trust,
            depth: self.depth,
        };
        proof {
            assert(r@.hops =~= self@.hops);
        }
        r
    }
}

/// The levels of a hop sequence, in order.
pub open spec fn spec_hop_levels(hops: Seq<TrustPathHopView>) -> Seq<int> {
    hops.map_values(|h: TrustPathHopView| h.trust_level)
}

impl TrustPath {
    /// A path with no hops yet: no trust relationship found.
    pub fn empty(from: Address, to: Address) -> (r: TrustPath)
        ensures
            r@.from == from@,
            r@.to == to@,
            r@.hops.len() == 0,
            r@.effective_trust == 0,
            r@.depth == 0,
    {
        let r = TrustPath { from, to, hops: Vec::new(), effective_trust: 0, depth: 0 };
        proof {
            assert(r@.hops =~= Seq::<TrustPathHopView>::empty());
        }
        r
    }

    /// A single-hop path carrying the edge's level as its effective trust.
    pub fn direct(from: Address, to: Address, trust_level: i64) -> (r: TrustPath)
        ensures
            r@.from == from@,
            r@.to == to@,
            r@.hops.len() == 1,
            r@.hops[0].agent == to@,
            r@.hops[0].trust_level == trust_level as int,
            r@.effective_trust == trust_level as int,
            r@.depth == 1,
    {
        let mut hops: Vec<TrustPathHop> = Vec::new();
        hops.push(TrustPathHop { agent: to.clone(), trust_level });
        let r = TrustPath { from, to, hops, effective_trust: trust_level, depth: 1 };
        r
    }

    /// Extend the path by one hop: the level is clamped into `[-1, 1]`,
    /// folded into the effective trust (damped unless it is the first hop),
    /// and the depth follows the hop count.
    pub fn add_hop(&mut self, agent: Address, trust_level: i64, damping_factor: i64)
        requires
            0 <= damping_factor <= SCALE as int,
            -(SCALE as int) <= old(self).effective_trust <= SCALE as int,
            old(self).hops@.len() < usize::MAX,
        ensures
            final(self)@.hops == old(self)@.hops.push(
                TrustPathHopView {
                    agent: agent@,
                    trust_level: spec_clamp(trust_level as int, -(SCALE as int), SCALE as int),
                },
            ),
            final(self)@.effective_trust == if old(self)@.hops.len() == 0 {
                spec_clamp(trust_level as int, -(SCALE as int), SCALE as int)
            } else {
                spec_damp_step(
                    old(self)@.effective_trust,
                    spec_clamp(trust_level as int, -(SCALE as int), SCALE as int),
                    damping_factor as int,
                )
            },
            -(SCALE as int) <= final(self)@.effective_trust <= SCALE as int,
            final(self)@.depth == final(self)@.hops.len(),
            final(self)@.from == old(self)@.from,
            final(self)@.to == old(self)@.to,
    {
        let clamped = clamp_fixed(trust_level, -SCALE, SCALE);
        let new_trust: i64 = if self.hops.len() == 0 {
            clamped
        } else {
            damp_step(self.effective_trust, clamped, damping_factor)
        };
        self.hops.push(TrustPathHop { agent, trust_level: clamped });
        self.effective_trust = clamp_fixed(new_trust, -SCALE, SCALE);
        self.depth = self.hops.len();
        proof {
            assert(final(self)@.hops =~= old(self)@.hops.push(
                TrustPathHopView {
                    agent: agent@,
                    trust_level: spec_clamp(trust_level as int, -(SCALE as int), SCALE as int),
                },
            ));
        }
    }

    /// Whether no trust relationship was found.
    pub fn is_empty(&self) -> (r: bool)
        ensures
            r == (self@.hops.len() == 0),
    {
        self.hops.len() == 0
    }

    /// Whether the path carries positive trust.
    pub fn is_trusted(&self) -> (r: bool)
        ensures
            r == (self@.effective_trust > 0),
    {
        self.effective_trust > 0
    }

    /// Whether the path carries distrust.
    pub fn is_distrusted(&self) -> (r: bool)
        ensures
            r == (self@.effective_trust < 0),
    {
        self.effective_trust < 0
    }
}

/// The mathematical value of a [`TrustScore`].
pub struct TrustScoreView {
    pub entity: AddressView,
    pub viewer: AddressView,
    pub score: int,
    pub path_count: int,
    pub best_path: Option<TrustPathView>,
}

/// An entity's trust score from one viewer's perspective.
#[derive(Debug)]
pub struct TrustScore {
    pub entity: Address,
    pub viewer: Address,
    /// Score in fixed-point millionths, clamped into `[-1, 1]`.
    pub score: i64,
    pub path_count: usize,
    pub best_path: Option<TrustPath>,
}

impl View for TrustScore {
    type V = TrustScoreView;

    open spec fn view(&self) -> TrustScoreView {
        TrustScoreView {
            entity: self.entity@,
            viewer: self.viewer@,
            score: self.score as int,
            path_count: self.path_count as int,
            best_path: match self.best_path {
                Some(p) => Some(p@),
                None => None,
            },
        }
    }
}

impl Clone for TrustScore {
    /// A copy with the same value.
    fn clone(&self) -> (r: Self)
        ensures
            r@ == self@,
    {
        TrustScore {
            entity: self.entity.clone(),
            viewer: self.viewer.clone(),
            score: self.score,
            path_count: self.path_count,
            best_path: match &self.best_path {
                Some(p) => Some(p.clone()),
                None => None,
            },
        }
    }
}

impl TrustScore {
    /// A score clamped into `[-1, 1]`, without a best path yet.
    pub fn new(entity: Address, viewer: Address, score: i64, path_count: usize) -> (r: TrustScore)
        ensures
            r@.entity == entity@,
            r@.viewer == viewer@,
            r@.score == spec_clamp(score as int, -(SCALE as int), SCALE as int),
            r@.path_count == path_count as int,
            r@.best_path is None,
    {
        TrustScore {
            entity,
            viewer,
            score: clamp_fixed(score, -SCALE, SCALE),
            path_count,
            best_path: None,
        }
    }

    /// The same score carrying its best path.
    pub fn with_best_path(self, path: TrustPath) -> (r: TrustScore)
        ensures
            r@ == (TrustScoreView { best_path: Some(path@), ..self@ }),
    {
        TrustScore { best_path: Some(path), ..self }
    }

    /// The neutral score: no trust information at all.
    pub fn neutral(entity: Address, viewer: Address) -> (r: TrustScore)
        ensures
            r@.entity == entity@,
            r@.viewer == viewer@,
            r@.score == 0,
            r@.path_count == 0,
            r@.best_path is None,
    {
        TrustScore::new(entity, viewer, 0, 0)
    }
}

/// A request for the best trust path between two entities.
#[derive(Debug, Clone)]
pub struct TrustPathRequest {
    pub from: Address,
    pub to: Address,
    pub max_depth: u8,
}

/// A request for an entity's trust score from a viewer's perspective.
#[derive(Debug, Clone)]
pub struct TrustScoreRequest {
    pub entity: Address,
    pub viewer: Address,
}

/// The default bound on trust path depth.
pub fn default_max_depth() -> (r: u8)
    ensures
        r == 5,
{
    5
}

} // verus!
