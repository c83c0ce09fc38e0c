//! A stand-alone path finder and score calculator over explicit hop lists,
//! plus the self-trust shortcut. The full graph search lives in
//! [`crate::trust_service`].

use vstd::prelude::*;

use crate::address::Address;
use crate::codec::SCALE;
use crate::errors::HubResult;
use crate::trust::{spec_effective_trust, spec_hop_levels, TrustPath, TrustPathHop, TrustScore};

verus! {

/// Bounds and factors for stand-alone path evaluation.
#[derive(Debug, Clone, Copy)]
pub struct TrustPathConfig {
    pub max_depth: u8,
    /// Damping per hop after the first, fixed-point millionths of `[0, 1]`.
    pub damping_factor: i64,
    /// Minimum effective trust magnitude, fixed-point millionths.
    pub min_trust_threshold: i64,
}

impl TrustPathConfig {
    /// Factors lie within the unit interval.
    pub open spec fn wf(&self) -> bool {
        0 <= self.damping_factor <= SCALE as int && 0 <= self.min_trust_threshold <= SCALE as int
    }
}

impl Default for TrustPathConfig {
    fn default() -> (r: Self)
        ensures
            r.max_depth == 5,
            r.damping_factor == 800000,
            r.min_trust_threshold == 10000,
            r.wf(),
    {
        TrustPathConfig { max_depth: 5, damping_factor: 800000, min_trust_threshold: 10000 }
    }
}

/// Evaluates trust paths without a store: only the self-trust shortcut
/// resolves; everything else needs the graph search.
#[derive(Debug, Clone, Copy)]
pub struct TrustPathFinder {
    pub config: TrustPathConfig,
}

impl TrustPathFinder {
    /// A finder with the given bounds.
    pub fn new(config: TrustPathConfig) -> (r: TrustPathFinder)
        ensures
            r.config == config,
    {
        TrustPathFinder { config }
    }

    /// The bounds in use.
    pub fn config(&self) -> (r: &TrustPathConfig)
        ensures
            r == &self.config,
    {
        &self.config
    }

    /// The self path of full trust when both ends coincide; no other path
    /// can be found without a store.
    pub fn find_best_path(&self, from: &Address, to: &Address) -> (r: HubResult<Option<TrustPath>>)
        ensures
            match r {
                Ok(opt) => if from@ == to@ {
                    opt matches Some(p) && p@.from == from@ && p@.to == to@ && p@.effective_trust
                        == SCALE as int && p@.depth == 1
                } else {
                    opt is None
                },
                Err(_) => false,
            },
    {
        if *from == *to {
            Ok(Some(TrustPath::direct(from.clone(), to.clone(), SCALE)))
        } else {
            Ok(None)
        }
    }

    /// Every path the finder can produce: the self path or nothing.
    pub fn find_all_paths(&self, from: &Address, to: &Address) -> (r: HubResult<Vec<TrustPath>>)
        ensures
            match r {
                Ok(ps) => if from@ == to@ {
                    ps@.len() == 1
                } else {
                    ps@.len() == 0
                },
                Err(_) => false,
            },
    {
        match self.find_best_path(from, to) {
            Ok(Some(p)) => {
                let mut ps: Vec<TrustPath> = Vec::new();
                ps.push(p);
                Ok(ps)
            },
            Ok(None) => Ok(Vec::new()),
            Err(e) => Err(e),
        }
    }

    /// The damped product of an explicit hop list: the first level as is,
    /// every later one folded in with damping; zero for no hops.
    pub fn calculate_effective_trust(&self, hops: &Vec<TrustPathHop>) -> (r: i64)
        requires
            self.config.wf(),
            forall|i: int|
                0 <= i < hops@.len() ==> -(SCALE as int) <= (#[trigger] hops@[i]).trust_level
                    <= SCALE as int,
        ensures
            r == spec_effective_trust(
                spec_hop_levels(Seq::new(hops@.len(), |i: int| hops@[i]@)),
                self.config.damping_factor as int,
            ),
            -(SCALE as int) <= r <= SCALE as int,
    {
        let ghost hv = Seq::new(hops@.len(), |i: int| hops@[i]@);
        let n = hops.len();
        if n == 0 {
            proof {
                assert(spec_hop_levels(hv).len() == 0);
            }
            return 0;
        }
        let mut trust: i64 = hops[0].trust_level;
        let mut i: usize = 1;
        proof {
            assert(spec_hop_levels(hv.take(1)) =~= seq![hv[0].trust_level]);
        }
        while i < n
            invariant
                1 <= i <= n,
                n == hops@.len(),
                hv == Seq::new(hops@.len(), |k: int| hops@[k]@),
                self.config.wf(),
                forall|k: int|
                    0 <= k < hops@.len() ==> -(SCALE as int) <= (#[trigger] hops@[k]).trust_level
                        <= SCALE as int,
                -(SCALE as int) <= trust <= SCALE as int,
                trust == spec_effective_trust(
                    spec_hop_levels(hv.take(i as int)),
                    self.config.damping_factor as int,
                ),
            decreases n - i,
        {
            let level = hops[i].trust_level;
            let next = crate::trust::damp_step(trust, level, self.config.damping_factor);
            proof {
                assert(spec_hop_levels(hv.take(i as int + 1)).drop_last() =~= spec_hop_levels(
                    hv.take(i as int),
                ));
                assert(spec_hop_levels(hv.take(i as int + 1)).last() == level as int);
                assert(spec_hop_levels(hv.take(i as int + 1)).len() == i + 1);
            }
            trust = next;
            i += 1;
        }
        proof {
            assert(hv.take(n as int) =~= hv);
        }
        trust
    }
}

/// Scores entities through a path finder.
#[derive(Debug, Clone, Copy)]
pub struct TrustCalculator {
    pub path_finder: TrustPathFinder,
}

impl TrustCalculator {
    /// A calculator over the given finder.
    pub fn new(path_finder: TrustPathFinder) -> (r: TrustCalculator)
        ensures
            r.path_finder == path_finder,
    {
        TrustCalculator { path_finder }
    }

    /// The score from the best path the finder yields: full trust with one
    /// path for self queries, neutral otherwise.
    pub fn calculate_score(&self, entity: &Address, viewer: &Address) -> (r: HubResult<TrustScore>)
        ensures
            match r {
                Ok(s) => s@.entity == entity@ && s@.viewer == viewer@ && if viewer@ == entity@ {
                    s@.score == SCALE as int && s@.path_count == 1 && s@.best_path is Some
                } else {
                    s@.score == 0 && s@.path_count == 0 && s@.best_path is None
                },
                Err(_) => false,
            },
    {
        match self.path_finder.find_best_path(viewer, entity) {
            Ok(Some(path)) => {
                let eff = path.effective_trust;
                Ok(
                    TrustScore::new(entity.clone(), viewer.clone(), eff, 1).with_best_path(path),
                )
            },
            Ok(None) => Ok(TrustScore::neutral(entity.clone(), viewer.clone())),
            Err(e) => Err(e),
        }
    }

    /// The aggregate over all sources; with a single finder this is the
    /// single-path score.
    pub fn calculate_aggregated_score(&self, entity: &Address, viewer: &Address) -> (r: HubResult<
        TrustScore,
    >)
        ensures
            match r {
                Ok(s) => s@.entity == entity@ && s@.viewer == viewer@,
                Err(_) => false,
            },
    {
        self.calculate_score(entity, viewer)
    }
}

} // verus!
