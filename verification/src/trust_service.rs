//! The trust engine: bounded breadth-first search over the directed trust
//! graph embedded in agent records, with multiplicative damping and
//! threshold pruning.

use vstd::prelude::*;

use crate::address::{Address, AddressView, Domain};
use crate::codec::SCALE;
use crate::errors::{HubError, HubResult};
use crate::store::{spec_get, spec_has_key, EntityStore, HasUuid};
use crate::text::{str_eq, to_owned_string};
use crate::trust::{
    clone_hops, damp_step, spec_damp_step, spec_effective_trust, spec_hop_levels, TrustPath,
    TrustPathHop, TrustPathHopView, TrustScore,
};

verus! {

/// Bounds and factors for trust path search.
#[derive(Debug, Clone, Copy)]
pub struct TrustConfig {
    /// How many hops a path may have.
    pub max_depth: u8,
    /// Damping per hop after the first, fixed-point millionths of `[0, 1]`.
    pub damping_factor: i64,
    /// Paths whose running trust falls below this magnitude are pruned,
    /// fixed-point millionths of `[0, 1]`.
    pub min_trust_threshold: i64,
}

impl TrustConfig {
    /// Factors lie within the unit interval.
    pub open spec fn wf(&self) -> bool {
        0 <= self.damping_factor <= SCALE as int && 0 <= self.min_trust_threshold <= SCALE as int
    }
}

impl Default for TrustConfig {
    fn default() -> (r: Self)
        ensures
            r.max_depth == 5,
            r.damping_factor == 800000,
            r.min_trust_threshold == 10000,
            r.wf(),
    {
        TrustConfig { max_depth: 5, damping_factor: 800000, min_trust_threshold: 10000 }
    }
}

/// Whether the agent stored under `from_entity` records exactly this hop as
/// an outgoing edge.
#[verifier::opaque]
pub open spec fn spec_edge(store: EntityStore, from_entity: Seq<char>, hop: TrustPathHopView) -> bool {
    match spec_get(store.agents@, from_entity) {
        Some(a) => exists|k: int|
            0 <= k < a@.trust.trusts.len() && (#[trigger] a@.trust.trusts[k]).agent == hop.agent
                && a@.trust.trusts[k].trust == hop.trust_level,
        None => false,
    }
}

/// Whether the agent stored under `from_entity` records an edge toward the
/// entity `to_entity` whose level clears the threshold in magnitude.
pub open spec fn spec_direct_edge_to(
    store: EntityStore,
    from_entity: Seq<char>,
    to_entity: Seq<char>,
    threshold: int,
) -> bool {
    match spec_get(store.agents@, from_entity) {
        Some(a) => exists|k: int|
            0 <= k < a@.trust.trusts.len() && (#[trigger] a@.trust.trusts[k]).agent.entity
                == to_entity && (a@.trust.trusts[k].trust >= threshold || a@.trust.trusts[k].trust
                <= -threshold),
        None => false,
    }
}

/// Every threshold-clearing direct edge toward `to` has a recorded path
/// carrying exactly its level as effective trust.
pub open spec fn spec_covers_direct_edges(
    store: EntityStore,
    from: AddressView,
    to: AddressView,
    threshold: int,
    paths: Seq<TrustPath>,
) -> bool {
    match spec_get(store.agents@, from.entity) {
        Some(a) => forall|k: int|
            0 <= k < a@.trust.trusts.len() && (#[trigger] a@.trust.trusts[k]).agent.entity
                == to.entity && (a@.trust.trusts[k].trust >= threshold
                || a@.trust.trusts[k].trust <= -threshold) ==> exists|j: int|
                0 <= j < paths.len() && (#[trigger] paths[j])@.effective_trust
                    == a@.trust.trusts[k].trust,
        None => true,
    }
}

/// The returned effective trust is at least every threshold-clearing
/// direct edge's level toward `to`.
pub open spec fn spec_at_least_direct_edges(
    store: EntityStore,
    from: AddressView,
    to: AddressView,
    threshold: int,
    eff: int,
) -> bool {
    match spec_get(store.agents@, from.entity) {
        Some(a) => forall|k: int|
            0 <= k < a@.trust.trusts.len() && (#[trigger] a@.trust.trusts[k]).agent.entity
                == to.entity && (a@.trust.trusts[k].trust >= threshold
                || a@.trust.trusts[k].trust <= -threshold) ==> eff >= a@.trust.trusts[k].trust,
        None => true,
    }
}

/// An admissible walk from `from` to `to`: a well-formed hop sequence
/// within the depth bound that ends at `to`, never touches `to` earlier,
/// and whose running damped trust clears the threshold in magnitude at
/// every step, the last included.
pub open spec fn spec_admissible_walk(
    store: EntityStore,
    from: AddressView,
    to: AddressView,
    hops: Seq<TrustPathHopView>,
    damping: int,
    max_depth: int,
    threshold: int,
) -> bool {
    &&& spec_hops_wf(store, from, hops)
    &&& 1 <= hops.len() <= max_depth
    &&& hops[hops.len() - 1].agent.entity == to.entity
    &&& (forall|i: int| 0 <= i < hops.len() - 1 ==> (#[trigger] hops[i]).agent.entity != to.entity)
    &&& (forall|n: int|
        1 <= n <= hops.len() ==> {
            let prefix = spec_effective_trust(spec_hop_levels(#[trigger] hops.take(n)), damping);
            prefix >= threshold || prefix <= -threshold
        })
}

/// Some recorded path carries exactly the walk's damped product.
pub open spec fn spec_walk_covered(
    hops: Seq<TrustPathHopView>,
    damping: int,
    paths: Seq<TrustPath>,
) -> bool {
    exists|j: int|
        0 <= j < paths.len() && (#[trigger] paths[j])@.effective_trust == spec_effective_trust(
            spec_hop_levels(hops),
            damping,
        ) && (#[trigger] paths[j])@.depth == hops.len()
}

/// Every admissible walk of length at most `bound` has a recorded path
/// carrying exactly its damped product.
pub open spec fn spec_covers_walks_upto(
    store: EntityStore,
    from: AddressView,
    to: AddressView,
    damping: int,
    max_depth: int,
    threshold: int,
    paths: Seq<TrustPath>,
    bound: int,
) -> bool {
    forall|hops: Seq<TrustPathHopView>|
        #[trigger] spec_admissible_walk(store, from, to, hops, damping, max_depth, threshold)
            && hops.len() <= bound ==> spec_walk_covered(hops, damping, paths)
}

/// Every admissible walk's damped product appears among the results.
pub open spec fn spec_covers_walks(
    store: EntityStore,
    from: AddressView,
    to: AddressView,
    damping: int,
    max_depth: int,
    threshold: int,
    paths: Seq<TrustPath>,
) -> bool {
    forall|hops: Seq<TrustPathHopView>|
        #[trigger] spec_admissible_walk(store, from, to, hops, damping, max_depth, threshold)
            ==> spec_walk_covered(hops, damping, paths)
}

/// The value is at least every admissible walk's damped product.
pub open spec fn spec_at_least_walks(
    store: EntityStore,
    from: AddressView,
    to: AddressView,
    damping: int,
    max_depth: int,
    threshold: int,
    eff: int,
) -> bool {
    forall|hops: Seq<TrustPathHopView>|
        #[trigger] spec_admissible_walk(store, from, to, hops, damping, max_depth, threshold)
            ==> eff >= spec_effective_trust(spec_hop_levels(hops), damping)
}

/// An open walk prefix the search is still to extend: well-formed, every
/// hop an agent, never touching `to`, the running trust clearing the
/// threshold in magnitude at every step.
pub open spec fn spec_open_prefix(
    store: EntityStore,
    from: AddressView,
    to: AddressView,
    hops: Seq<TrustPathHopView>,
    damping: int,
    threshold: int,
) -> bool {
    &&& spec_hops_wf(store, from, hops)
    &&& hops.len() >= 1
    &&& (forall|i: int| 0 <= i < hops.len() ==> (#[trigger] hops[i]).agent.entity != to.entity)
    &&& (forall|i: int| 0 <= i < hops.len() ==> (#[trigger] hops[i]).agent.domain == Domain::Agent)
    &&& (forall|n: int|
        1 <= n <= hops.len() ==> {
            let prefix = spec_effective_trust(spec_hop_levels(#[trigger] hops.take(n)), damping);
            prefix >= threshold || prefix <= -threshold
        })
}

/// A well-formed hop sequence out of `from`: every hop is a stored edge of
/// its predecessor, no agent repeats, the start is never revisited, and
/// every hop but possibly the last is an agent address.
#[verifier::opaque]
pub open spec fn spec_hops_wf(
    store: EntityStore,
    from: AddressView,
    hops: Seq<TrustPathHopView>,
) -> bool {
    &&& hops.len() >= 1
    &&& spec_edge(store, from.entity, hops[0])
    &&& forall|i: int|
        1 <= i < hops.len() ==> #[trigger] spec_edge(store, hops[i - 1].agent.entity, hops[i])
    &&& forall|i: int, j: int|
        0 <= i < j < hops.len() ==> (#[trigger] hops[i]).agent != (#[trigger] hops[j]).agent
    &&& forall|i: int| 0 <= i < hops.len() ==> (#[trigger] hops[i]).agent.entity != from.entity
    &&& forall|i: int|
        0 <= i < hops.len() - 1 ==> (#[trigger] hops[i]).agent.domain == Domain::Agent
}

/// What any returned (non-self) trust path satisfies: it runs from `from`
/// to `to` along stored edges without revisiting anyone, its depth is its
/// hop count within the bound, and its effective trust is the damped
/// product of its hop levels.
#[verifier::opaque]
pub open spec fn spec_path_ok(
    store: EntityStore,
    from: AddressView,
    to: AddressView,
    p: crate::trust::TrustPathView,
    damping: int,
    max_depth: int,
) -> bool {
    &&& p.from == from
    &&& p.to == to
    &&& spec_hops_wf(store, from, p.hops)
    &&& p.hops[p.hops.len() - 1].agent.entity == to.entity
    &&& p.depth == p.hops.len()
    &&& 1 <= p.depth <= max_depth
    &&& p.effective_trust == spec_effective_trust(spec_hop_levels(p.hops), damping)
    &&& -(SCALE as int) <= p.effective_trust <= SCALE as int
}

/// The threshold bound on a returned path: its effective trust is at or
/// above the threshold in magnitude, and so was the running trust of every
/// proper prefix while the search built it.
pub open spec fn spec_path_threshold_ok(
    p: crate::trust::TrustPathView,
    damping: int,
    threshold: int,
) -> bool {
    &&& (p.effective_trust >= threshold || p.effective_trust <= -threshold)
    &&& forall|n: int|
        1 <= n < p.hops.len() ==> {
            let prefix = spec_effective_trust(
                spec_hop_levels(#[trigger] p.hops.take(n)),
                damping,
            );
            prefix >= threshold || prefix <= -threshold
        }
}

/// A search frontier entry: where the walk stands, how it got there, and
/// the running damped trust.
struct SearchState {
    addr: Address,
    hops: Vec<TrustPathHop>,
    cum: i64,
}


/// The mathematical value of a [`SearchState`].
struct SearchStateView {
    addr: AddressView,
    hops: Seq<TrustPathHopView>,
    cum: int,
}

impl View for SearchState {
    type V = SearchStateView;

    closed spec fn view(&self) -> SearchStateView {
        SearchStateView {
            addr: self.addr@,
            hops: Seq::new(self.hops@.len(), |i: int| self.hops@[i]@),
            cum: self.cum as int,
        }
    }
}

/// A frontier entry carries exactly this hop sequence.
spec fn spec_state_for(hops: Seq<TrustPathHopView>, sts: Seq<SearchState>) -> bool {
    exists|i: int| 0 <= i < sts.len() && (#[trigger] sts[i])@.hops == hops
}

/// A frontier entry below `bound` carries exactly this hop sequence.
spec fn spec_state_for_upto(hops: Seq<TrustPathHopView>, sts: Seq<SearchState>, bound: int) -> bool {
    exists|i: int| 0 <= i < bound && i < sts.len() && (#[trigger] sts[i])@.hops == hops
}

/// A one-hop extension the expansion step must consider: a stored edge of
/// the entry's endpoint toward a fresh agent other than the start, whose
/// running trust clears the threshold in magnitude at every step.
spec fn spec_ext_ok(
    store: EntityStore,
    from: AddressView,
    st: SearchStateView,
    hop: TrustPathHopView,
    damping: int,
    threshold: int,
) -> bool {
    &&& spec_edge(store, st.addr.entity, hop)
    &&& (forall|j: int| 0 <= j < st.hops.len() ==> (#[trigger] st.hops[j]).agent != hop.agent)
    &&& hop.agent.entity != from.entity
    &&& (forall|n: int|
        1 <= n <= st.hops.push(hop).len() ==> {
            let prefix = spec_effective_trust(
                spec_hop_levels(#[trigger] st.hops.push(hop).take(n)),
                damping,
            );
            prefix >= threshold || prefix <= -threshold
        })
}

/// Whether one of the first `bound` trust records matches the hop exactly.
spec fn spec_entry_upto(
    trusts: Seq<crate::agent::TrustView>,
    hop: TrustPathHopView,
    bound: int,
) -> bool {
    exists|k: int|
        0 <= k < bound && (#[trigger] trusts[k]).agent == hop.agent && trusts[k].trust
            == hop.trust_level
}

/// Splitting a threshold-clearing well-formed walk at its last hop yields
/// an extension the expansion step must consider.
#[verifier::rlimit(100)]
proof fn lemma_split_last(
    store: EntityStore,
    from: AddressView,
    w: Seq<TrustPathHopView>,
    st: SearchStateView,
    damping: int,
    threshold: int,
)
    requires
        spec_hops_wf(store, from, w),
        w.len() >= 1,
        forall|n: int|
            1 <= n <= w.len() ==> {
                let prefix = spec_effective_trust(spec_hop_levels(#[trigger] w.take(n)), damping);
                prefix >= threshold || prefix <= -threshold
            },
        st.hops == w.take(w.len() - 1),
        spec_state_ok(store, from, st, w.len() - 1, damping),
    ensures
        spec_ext_ok(store, from, st, w[w.len() - 1], damping, threshold),
        st.hops.push(w[w.len() - 1]) == w,
{
    reveal(spec_hops_wf);
    reveal(spec_state_ok);
    let m = w.len() - 1;
    let hop = w[m];
    assert(st.hops.len() == m);
    assert forall|i: int| 0 <= i < m implies #[trigger] st.hops[i] == w[i] by {}
    assert(st.hops.push(hop) =~= w);
    if m == 0 {
        assert(st.addr == from);
        assert(spec_edge(store, from.entity, w[0]));
    } else {
        assert(st.addr == st.hops[m - 1].agent);
        assert(st.hops[m - 1] == w[m - 1]);
        assert(spec_edge(store, w[m - 1].agent.entity, w[m]));
    }
    assert forall|j: int| 0 <= j < st.hops.len() implies (#[trigger] st.hops[j]).agent
        != hop.agent by {
        assert(st.hops[j] == w[j]);
        assert(w[j].agent != w[m].agent);
    }
    assert(hop.agent.entity != from.entity);
    assert forall|n: int| 1 <= n <= st.hops.push(hop).len() implies {
        let prefix = spec_effective_trust(
            spec_hop_levels(#[trigger] st.hops.push(hop).take(n)),
            damping,
        );
        prefix >= threshold || prefix <= -threshold
    } by {
        assert(st.hops.push(hop).take(n) =~= w.take(n));
        assert({
            let prefix = spec_effective_trust(spec_hop_levels(w.take(n)), damping);
            prefix >= threshold || prefix <= -threshold
        });
    }
}

/// Covered walks stay covered when every path value reappears.
proof fn lemma_covers_upto_preserved(
    store: EntityStore,
    from: AddressView,
    to: AddressView,
    damping: int,
    max_depth: int,
    threshold: int,
    bound: int,
    paths1: Seq<TrustPath>,
    paths2: Seq<TrustPath>,
)
    requires
        spec_covers_walks_upto(store, from, to, damping, max_depth, threshold, paths1, bound),
        forall|j: int| 0 <= j < paths1.len() ==> spec_into_output(#[trigger] paths1[j], paths2),
    ensures
        spec_covers_walks_upto(store, from, to, damping, max_depth, threshold, paths2, bound),
{
    assert forall|hops: Seq<TrustPathHopView>|
        #[trigger] spec_admissible_walk(store, from, to, hops, damping, max_depth, threshold)
            && hops.len() <= bound implies spec_walk_covered(hops, damping, paths2) by {
        assert(spec_walk_covered(hops, damping, paths1));
        let j = choose|j: int|
            0 <= j < paths1.len() && (#[trigger] paths1[j])@.effective_trust
                == spec_effective_trust(spec_hop_levels(hops), damping) && (
            #[trigger] paths1[j])@.depth == hops.len();
        assert(spec_into_output(paths1[j], paths2));
        let k = choose|k: int| 0 <= k < paths2.len() && (#[trigger] paths2[k])@ == paths1[j]@;
        assert(paths2[k]@.effective_trust == spec_effective_trust(spec_hop_levels(hops), damping));
        assert(paths2[k]@.depth == hops.len());
    }
}

/// A proper prefix of a walk that never touches `to` before its end is an
/// open prefix the search keeps exploring.
#[verifier::rlimit(100)]
proof fn lemma_open_take(
    store: EntityStore,
    from: AddressView,
    to: AddressView,
    hops: Seq<TrustPathHopView>,
    damping: int,
    threshold: int,
    n: int,
)
    requires
        spec_hops_wf(store, from, hops),
        forall|i: int|
            0 <= i < hops.len() - 1 ==> (#[trigger] hops[i]).agent.entity != to.entity,
        forall|n2: int|
            1 <= n2 <= hops.len() ==> {
                let prefix = spec_effective_trust(
                    spec_hop_levels(#[trigger] hops.take(n2)),
                    damping,
                );
                prefix >= threshold || prefix <= -threshold
            },
        1 <= n <= hops.len() - 1,
    ensures
        spec_open_prefix(store, from, to, hops.take(n), damping, threshold),
{
    let u = hops.take(n);
    assert(u.len() == n);
    assert forall|i: int| 0 <= i < n implies #[trigger] u[i] == hops[i] by {}
    assert(spec_hops_wf(store, from, u)) by {
        reveal(spec_hops_wf);
        assert(u[0] == hops[0]);
        assert forall|i: int| 1 <= i < u.len() implies spec_edge(
            store,
            u[i - 1].agent.entity,
            #[trigger] u[i],
        ) by {
            assert(spec_edge(store, hops[i - 1].agent.entity, hops[i]));
        }
    }
    assert forall|i: int| 0 <= i < u.len() implies (#[trigger] u[i]).agent.entity
        != to.entity by {
        assert(u[i] == hops[i]);
        assert(i < hops.len() - 1);
    }
    assert forall|i: int| 0 <= i < u.len() implies (#[trigger] u[i]).agent.domain
        == Domain::Agent by {
        reveal(spec_hops_wf);
        assert(u[i] == hops[i]);
        assert(i < hops.len() - 1);
    }
    assert forall|n2: int| 1 <= n2 <= u.len() implies {
        let prefix = spec_effective_trust(spec_hop_levels(#[trigger] u.take(n2)), damping);
        prefix >= threshold || prefix <= -threshold
    } by {
        assert(u.take(n2) =~= hops.take(n2));
        assert({
            let prefix = spec_effective_trust(spec_hop_levels(hops.take(n2)), damping);
            prefix >= threshold || prefix <= -threshold
        });
    }
}

/// A frontier entry at the given depth is sound: its hop list is a
/// well-formed walk of that length ending at `addr` (all agents), and the
/// running trust is the damped product so far.
#[verifier::opaque]
spec fn spec_state_ok(
    store: EntityStore,
    from: AddressView,
    st: SearchStateView,
    depth: int,
    damping: int,
) -> bool {
    &&& st.hops.len() == depth
    &&& -(SCALE as int) <= st.cum <= SCALE as int
    &&& if depth == 0 {
        st.addr == from && st.cum == SCALE as int
    } else {
        &&& spec_hops_wf(store, from, st.hops)
        &&& st.addr == st.hops[depth - 1].agent
        &&& (forall|i: int|
            0 <= i < st.hops.len() ==> (#[trigger] st.hops[i]).agent.domain == Domain::Agent)
        &&& st.cum == spec_effective_trust(spec_hop_levels(st.hops), damping)
    }
}

/// The pruning invariant over a frontier entry: every nonempty proper
/// prefix of its walk (including the walk itself) kept the running trust
/// at or above the threshold in magnitude — except possibly the entry's own
/// full product, which the filter checks before expansion.
spec fn spec_state_prefixes_ok(st: SearchStateView, damping: int, threshold: int) -> bool {
    forall|n: int|
        1 <= n < st.hops.len() ==> {
            let prefix = spec_effective_trust(spec_hop_levels(#[trigger] st.hops.take(n)), damping);
            prefix >= threshold || prefix <= -threshold
        }
}

/// Pushing one hop onto a walk whose own running trust passed the filter
/// keeps every proper prefix of the longer walk at or above the threshold.
proof fn lemma_prefixes_after_push(
    hops: Seq<TrustPathHopView>,
    hop: TrustPathHopView,
    cum: int,
    damping: int,
    threshold: int,
)
    requires
        forall|n: int|
            1 <= n < hops.len() ==> {
                let prefix = spec_effective_trust(spec_hop_levels(#[trigger] hops.take(n)), damping);
                prefix >= threshold || prefix <= -threshold
            },
        hops.len() >= 1 ==> cum == spec_effective_trust(spec_hop_levels(hops), damping),
        cum >= threshold || cum <= -threshold,
    ensures
        forall|n: int|
            1 <= n < hops.push(hop).len() ==> {
                let prefix = spec_effective_trust(
                    spec_hop_levels(#[trigger] hops.push(hop).take(n)),
                    damping,
                );
                prefix >= threshold || prefix <= -threshold
            },
{
    assert forall|n: int| 1 <= n < hops.push(hop).len() implies {
        let prefix = spec_effective_trust(spec_hop_levels(#[trigger] hops.push(hop).take(n)), damping);
        prefix >= threshold || prefix <= -threshold
    } by {
        if n < hops.len() {
            assert(hops.push(hop).take(n) =~= hops.take(n));
        } else {
            assert(hops.push(hop).take(n) =~= hops);
        }
    }
}

/// Folding the first level into the full starting trust yields that level.
proof fn lemma_step_first(w: int)
    requires
        -(SCALE as int) <= w <= SCALE as int,
    ensures
        spec_damp_step(SCALE as int, w, SCALE as int) == w,
{
    if w >= 0 {
        assert((w * 1000000) / 1000000 == w) by (nonlinear_arith)
            requires
                w >= 0,
        ;
    } else {
        assert((-w * 1000000) / 1000000 == -w) by (nonlinear_arith)
            requires
                w < 0,
        ;
        assert(crate::trust::spec_tdiv(w * 1000000, 1000000) == w);
    }
}

/// The trust engine over a store of agents.
#[derive(Debug)]
pub struct TrustService {
    pub store: EntityStore,
    pub config: TrustConfig,
}

impl TrustService {
    /// A trust engine reading the given store.
    pub fn new(store: EntityStore, config: TrustConfig) -> (r: TrustService)
        ensures
            r.store == store,
            r.config == config,
    {
        TrustService { store, config }
    }

    /// The underlying store.
    pub fn store(&self) -> (r: &EntityStore)
        ensures
            r == &self.store,
    {
        &self.store
    }

    /// Expand one frontier entry: walk its agent's outgoing edges, record a
    /// completed path for each edge reaching `to`, and queue every other
    /// agent target. Entries below the trust threshold are pruned.
    #[verifier::rlimit(100)]
    fn expand_state(
        &self,
        st: &SearchState,
        from: &Address,
        to: &Address,
        paths: &mut Vec<TrustPath>,
        next: &mut Vec<SearchState>,
    )
        requires
            self.store.wf(),
            self.config.wf(),
            spec_state_ok(
                self.store,
                from@,
                st@,
                st@.hops.len() as int,
                self.config.damping_factor as int,
            ),
            -(SCALE as int) <= st@.cum <= SCALE as int,
            st@.hops.len() + 1 <= self.config.max_depth as int,
            spec_state_prefixes_ok(
                st@,
                self.config.damping_factor as int,
                self.config.min_trust_threshold as int,
            ),
        ensures
            final(paths)@.len() >= old(paths)@.len(),
            forall|k: int|
                0 <= k < old(paths)@.len() ==> final(paths)@[k] == #[trigger] old(paths)@[k],
            forall|k: int|
                old(paths)@.len() <= k < final(paths)@.len() ==> spec_path_ok(
                    self.store,
                    from@,
                    to@,
                    (#[trigger] final(paths)@[k])@,
                    self.config.damping_factor as int,
                    self.config.max_depth as int,
                ) && spec_path_threshold_ok(
                    (#[trigger] final(paths)@[k])@,
                    self.config.damping_factor as int,
                    self.config.min_trust_threshold as int,
                ) && (#[trigger] final(paths)@[k])@.depth == st@.hops.len() + 1,
            final(next)@.len() >= old(next)@.len(),
            forall|k: int|
                0 <= k < old(next)@.len() ==> final(next)@[k] == #[trigger] old(next)@[k],
            forall|k: int|
                old(next)@.len() <= k < final(next)@.len() ==> spec_state_ok(
                    self.store,
                    from@,
                    (#[trigger] final(next)@[k])@,
                    st@.hops.len() + 1 as int,
                    self.config.damping_factor as int,
                ) && spec_state_prefixes_ok(
                    (#[trigger] final(next)@[k])@,
                    self.config.damping_factor as int,
                    self.config.min_trust_threshold as int,
                ),
            st@.hops.len() == 0 && to@.entity != from@.entity && spec_direct_edge_to(
                self.store,
                from@.entity,
                to@.entity,
                self.config.min_trust_threshold as int,
            ) && self.config.min_trust_threshold < SCALE ==> final(paths)@.len() > 0,
            st@.hops.len() == 0 && to@.entity != from@.entity ==> spec_covers_direct_edges(
                self.store,
                from@,
                to@,
                self.config.min_trust_threshold as int,
                final(paths)@,
            ),
            forall|hop: TrustPathHopView|
                #[trigger] spec_ext_ok(
                    self.store,
                    from@,
                    st@,
                    hop,
                    self.config.damping_factor as int,
                    self.config.min_trust_threshold as int,
                ) && hop.agent.entity == to@.entity ==> spec_walk_covered(
                    st@.hops.push(hop),
                    self.config.damping_factor as int,
                    final(paths)@,
                ),
            forall|hop: TrustPathHopView|
                #[trigger] spec_ext_ok(
                    self.store,
                    from@,
                    st@,
                    hop,
                    self.config.damping_factor as int,
                    self.config.min_trust_threshold as int,
                ) && hop.agent.entity != to@.entity && hop.agent.domain == Domain::Agent
                    ==> spec_state_for(st@.hops.push(hop), final(next)@),
    {
        proof {
            reveal(spec_state_ok);
        }
        let cum_abs: i64 = if st.cum < 0 {
            -st.cum
        } else {
            st.cum
        };
        if cum_abs < self.config.min_trust_threshold {
            proof {
                if st@.hops.len() == 0 {
                    assert(st@.cum == SCALE as int);
                }
                let damping = self.config.damping_factor as int;
                let threshold = self.config.min_trust_threshold as int;
                assert forall|hop: TrustPathHopView|
                    #[trigger] spec_ext_ok(
                        self.store,
                        from@,
                        st@,
                        hop,
                        damping,
                        threshold,
                    ) implies false by {
                    let w = st@.hops.push(hop);
                    let nlen = st@.hops.len() as int;
                    assert(w.take(nlen) =~= st@.hops);
                    if nlen == 0 {
                        assert(st@.cum == SCALE as int);
                    } else {
                        assert(st@.cum == spec_effective_trust(spec_hop_levels(st@.hops), damping));
                        assert({
                            let prefix = spec_effective_trust(
                                spec_hop_levels(w.take(nlen)),
                                damping,
                            );
                            prefix >= threshold || prefix <= -threshold
                        });
                    }
                }
            }
            return ;
        }
        let agent = match self.store.get_agent(st.addr.entity.as_str()) {
            Some(a) => a,
            None => {
                proof {
                    if st@.hops.len() == 0 {
                        assert(st@.addr == from@);
                        assert(spec_get(self.store.agents@, from@.entity) is None);
                    }
                    assert forall|hop: TrustPathHopView|
                        #[trigger] spec_ext_ok(
                            self.store,
                            from@,
                            st@,
                            hop,
                            self.config.damping_factor as int,
                            self.config.min_trust_threshold as int,
                        ) implies false by {
                        reveal(spec_edge);
                    }
                }
                return ;
            },
        };
        let ghost stored_agent = spec_get(self.store.agents@, st@.addr.entity)->Some_0;
        proof {
            crate::store::lemma_get_has_key(self.store.agents@, st@.addr.entity);
            let i = choose|i: int|
                0 <= i < self.store.agents@.len() && self.store.agents@[i] == stored_agent;
            assert(crate::agent::trust_store_wf(self.store.agents@[i]@.trust));
            assert(crate::agent::trust_store_wf(agent@.trust));
        }
        let n = agent.trust.trusts.len();
        let mut k: usize = 0;
        while k < n
            invariant
                k <= n,
                self.store.wf(),
                self.config.wf(),
                spec_state_ok(
                    self.store,
                    from@,
                    st@,
                    st@.hops.len() as int,
                    self.config.damping_factor as int,
                ),
                st@.hops.len() + 1 <= self.config.max_depth as int,
                n == agent.trust.trusts@.len(),
                agent@ == stored_agent@,
                spec_get(self.store.agents@, st@.addr.entity) == Some(stored_agent),
                crate::agent::trust_store_wf(agent@.trust),
                -(SCALE as int) <= st@.cum <= SCALE as int,
                st@.cum >= self.config.min_trust_threshold as int || st@.cum <= -(
                self.config.min_trust_threshold as int),
                spec_state_prefixes_ok(
                    st@,
                    self.config.damping_factor as int,
                    self.config.min_trust_threshold as int,
                ),
                paths@.len() >= old(paths)@.len(),
                next@.len() >= old(next)@.len(),
                paths@.len() - old(paths)@.len() <= k,
                next@.len() - old(next)@.len() <= k,
                forall|j: int|
                    0 <= j < old(paths)@.len() ==> paths@[j] == #[trigger] old(paths)@[j],
                forall|j: int|
                    old(paths)@.len() <= j < paths@.len() ==> spec_path_ok(
                        self.store,
                        from@,
                        to@,
                        (#[trigger] paths@[j])@,
                        self.config.damping_factor as int,
                        self.config.max_depth as int,
                    ) && spec_path_threshold_ok(
                        (#[trigger] paths@[j])@,
                        self.config.damping_factor as int,
                        self.config.min_trust_threshold as int,
                    ) && (#[trigger] paths@[j])@.depth == st@.hops.len() + 1,
                forall|j: int| 0 <= j < old(next)@.len() ==> next@[j] == #[trigger] old(next)@[j],
                forall|j: int|
                    old(next)@.len() <= j < next@.len() ==> spec_state_ok(
                        self.store,
                        from@,
                        (#[trigger] next@[j])@,
                        st@.hops.len() + 1 as int,
                        self.config.damping_factor as int,
                    ) && spec_state_prefixes_ok(
                        (#[trigger] next@[j])@,
                        self.config.damping_factor as int,
                        self.config.min_trust_threshold as int,
                    ),
                st@.hops.len() == 0 && to@.entity != from@.entity && (exists|k2: int|
                    0 <= k2 < k && (#[trigger] agent@.trust.trusts[k2]).agent.entity
                        == to@.entity && (agent@.trust.trusts[k2].trust
                        >= self.config.min_trust_threshold as int || agent@.trust.trusts[k2].trust
                        <= -(self.config.min_trust_threshold as int)))
                    ==> paths@.len() > old(paths)@.len(),
                st@.hops.len() == 0 && to@.entity != from@.entity ==> forall|k2: int|
                    0 <= k2 < k && (#[trigger] agent@.trust.trusts[k2]).agent.entity == to@.entity
                        && (agent@.trust.trusts[k2].trust
                        >= self.config.min_trust_threshold as int || agent@.trust.trusts[k2].trust
                        <= -(self.config.min_trust_threshold as int)) ==> exists|j: int|
                        0 <= j < paths@.len() && (#[trigger] paths@[j])@.effective_trust
                            == agent@.trust.trusts[k2].trust,
                forall|hop: TrustPathHopView|
                    #[trigger] spec_ext_ok(
                        self.store,
                        from@,
                        st@,
                        hop,
                        self.config.damping_factor as int,
                        self.config.min_trust_threshold as int,
                    ) && hop.agent.entity == to@.entity && spec_entry_upto(
                        agent@.trust.trusts,
                        hop,
                        k as int,
                    ) ==> spec_walk_covered(
                        st@.hops.push(hop),
                        self.config.damping_factor as int,
                        paths@,
                    ),
                forall|hop: TrustPathHopView|
                    #[trigger] spec_ext_ok(
                        self.store,
                        from@,
                        st@,
                        hop,
                        self.config.damping_factor as int,
                        self.config.min_trust_threshold as int,
                    ) && hop.agent.entity != to@.entity && hop.agent.domain == Domain::Agent
                        && spec_entry_upto(agent@.trust.trusts, hop, k as int)
                        ==> spec_state_for(st@.hops.push(hop), next@),
            decreases n - k,
        {
            let ghost paths_at_top = paths@;
            let ghost next_at_top = next@;
            let trust_level = agent.trust.trusts[k].trust;
            let trustee = &agent.trust.trusts[k].agent;
            proof {
                assert(agent@.trust.trusts[k as int].agent == trustee@);
                assert(agent@.trust.trusts[k as int].trust == trust_level as int);
            }
            let mut in_path = false;
            let hn = st.hops.len();
            let mut h: usize = 0;
            while h < hn
                invariant
                    h <= hn,
                    hn == st.hops@.len(),
                    st@.hops.len() == hn,
                    in_path ==> exists|j: int|
                        0 <= j < hn && (#[trigger] st@.hops[j]).agent == trustee@,
                    !in_path ==> forall|j: int|
                        0 <= j < h ==> (#[trigger] st@.hops[j]).agent != trustee@,
                decreases hn - h,
            {
                if st.hops[h].agent == *trustee {
                    proof {
                        assert(st@.hops[h as int].agent == trustee@);
                    }
                    in_path = true;
                    h = hn;
                } else {
                    h += 1;
                }
            }
            if !in_path && !str_eq(trustee.entity.as_str(), from.entity.as_str()) {
                let damping: i64 = if st.hops.len() == 0 {
                    SCALE
                } else {
                    self.config.damping_factor
                };
                let new_cum = damp_step(st.cum, trust_level, damping);
                let mut new_hops = clone_hops(&st.hops);
                new_hops.push(TrustPathHop { agent: trustee.clone(), trust_level });
                let ghost new_hop_v = TrustPathHopView {
                    agent: trustee@,
                    trust_level: trust_level as int,
                };
                let ghost new_hops_v = st@.hops.push(new_hop_v);
                proof {
                    assert(Seq::new(new_hops@.len(), |i: int| new_hops@[i]@) =~= new_hops_v);
                    reveal(spec_edge);
                    assert(spec_edge(self.store, st@.addr.entity, new_hop_v));
                    lemma_extend_state(
                        self.store,
                        from@,
                        st@,
                        new_hop_v,
                        self.config.damping_factor as int,
                        new_cum as int,
                    );
                    assert(st@.hops.len() >= 1 ==> st@.cum == spec_effective_trust(
                        spec_hop_levels(st@.hops),
                        self.config.damping_factor as int,
                    )) by {
                        reveal(spec_state_ok);
                    }
                    lemma_prefixes_after_push(
                        st@.hops,
                        new_hop_v,
                        st@.cum,
                        self.config.damping_factor as int,
                        self.config.min_trust_threshold as int,
                    );
                }
                if str_eq(trustee.entity.as_str(), to.entity.as_str()) {
                    let nc_abs: i64 = if new_cum < 0 {
                        -new_cum
                    } else {
                        new_cum
                    };
                    if nc_abs >= self.config.min_trust_threshold {
                        let depth = new_hops.len();
                        let p = TrustPath {
                            from: from.clone(),
                            to: to.clone(),
                            hops: new_hops,
                            effective_trust: new_cum,
                            depth,
                        };
                        proof {
                            assert(p@.hops =~= new_hops_v);
                            lemma_completed_path(
                                self.store,
                                from@,
                                to@,
                                p@,
                                new_hops_v,
                                self.config.damping_factor as int,
                                self.config.max_depth as int,
                            );
                        }
                        paths.push(p);
                        proof {
                            if st@.hops.len() == 0 {
                                assert(st@.cum == SCALE as int) by {
                                    reveal(spec_state_ok);
                                }
                                lemma_step_first(trust_level as int);
                                assert(paths@[paths@.len() - 1]@.effective_trust
                                    == trust_level as int);
                            }
                        }
                    } else {
                        proof {
                            if st@.hops.len() == 0 {
                                assert(st@.cum == SCALE as int) by {
                                    reveal(spec_state_ok);
                                }
                                lemma_step_first(trust_level as int);
                            }
                        }
                    }
                } else if trustee.domain == Domain::Agent {
                    let ns = SearchState { addr: trustee.clone(), hops: new_hops, cum: new_cum };
                    proof {
                        reveal(spec_state_ok);
                        assert(ns@.hops =~= new_hops_v);
                        lemma_next_state(
                            self.store,
                            from@,
                            ns@,
                            st@.hops,
                            new_hop_v,
                            self.config.damping_factor as int,
                        );
                    }
                    next.push(ns);
                }
            }
            proof {
                if st@.hops.len() == 0 && to@.entity != from@.entity {
                    assert forall|k2: int|
                        0 <= k2 < k + 1 && (#[trigger] agent@.trust.trusts[k2]).agent.entity
                            == to@.entity && (agent@.trust.trusts[k2].trust
                            >= self.config.min_trust_threshold as int
                            || agent@.trust.trusts[k2].trust <= -(
                        self.config.min_trust_threshold as int)) implies exists|j: int|
                        0 <= j < paths@.len() && (#[trigger] paths@[j])@.effective_trust
                            == agent@.trust.trusts[k2].trust by {
                        if k2 < k {
                            let j = choose|j: int|
                                0 <= j < paths_at_top.len() && (
                                #[trigger] paths_at_top[j])@.effective_trust
                                    == agent@.trust.trusts[k2].trust;
                            assert(paths@[j] == paths_at_top[j]);
                        }
                    }
                }
                let damping = self.config.damping_factor as int;
                let threshold = self.config.min_trust_threshold as int;
                assert forall|hop: TrustPathHopView|
                    #[trigger] spec_ext_ok(self.store, from@, st@, hop, damping, threshold)
                        && hop.agent.entity == to@.entity && spec_entry_upto(
                        agent@.trust.trusts,
                        hop,
                        k + 1,
                    ) implies spec_walk_covered(st@.hops.push(hop), damping, paths@) by {
                    if spec_entry_upto(agent@.trust.trusts, hop, k as int) {
                        assert(spec_walk_covered(st@.hops.push(hop), damping, paths_at_top));
                        let j = choose|j: int|
                            0 <= j < paths_at_top.len() && (
                            #[trigger] paths_at_top[j])@.effective_trust == spec_effective_trust(
                                spec_hop_levels(st@.hops.push(hop)),
                                damping,
                            ) && (#[trigger] paths_at_top[j])@.depth == st@.hops.push(hop).len();
                        assert(paths@[j] == paths_at_top[j]);
                    } else {
                        let k2 = choose|k2: int|
                            0 <= k2 < k + 1 && (#[trigger] agent@.trust.trusts[k2]).agent
                                == hop.agent && agent@.trust.trusts[k2].trust == hop.trust_level;
                        assert(k2 == k);
                        assert(hop.agent == trustee@);
                        assert(hop.trust_level == trust_level as int);
                        assert(hop == TrustPathHopView {
                            agent: trustee@,
                            trust_level: trust_level as int,
                        });
                        let w = st@.hops.push(hop);
                        assert(w.take(w.len() as int) =~= w);
                        assert({
                            let prefix = spec_effective_trust(
                                spec_hop_levels(w.take(w.len() as int)),
                                damping,
                            );
                            prefix >= threshold || prefix <= -threshold
                        });
                        assert(spec_walk_covered(w, damping, paths@)) by {
                            assert(paths@[paths@.len() - 1]@.effective_trust
                                == spec_effective_trust(spec_hop_levels(w), damping));
                            assert(paths@[paths@.len() - 1]@.depth == w.len());
                        }
                    }
                }
                assert forall|hop: TrustPathHopView|
                    #[trigger] spec_ext_ok(self.store, from@, st@, hop, damping, threshold)
                        && hop.agent.entity != to@.entity && hop.agent.domain == Domain::Agent
                        && spec_entry_upto(agent@.trust.trusts, hop, k + 1) implies spec_state_for(
                        st@.hops.push(hop),
                        next@,
                    ) by {
                    if spec_entry_upto(agent@.trust.trusts, hop, k as int) {
                        assert(spec_state_for(st@.hops.push(hop), next_at_top));
                        let i2 = choose|i2: int|
                            0 <= i2 < next_at_top.len() && (#[trigger] next_at_top[i2])@.hops
                                == st@.hops.push(hop);
                        assert(next@[i2] == next_at_top[i2]);
                    } else {
                        let k2 = choose|k2: int|
                            0 <= k2 < k + 1 && (#[trigger] agent@.trust.trusts[k2]).agent
                                == hop.agent && agent@.trust.trusts[k2].trust == hop.trust_level;
                        assert(k2 == k);
                        assert(hop.agent == trustee@);
                        assert(hop.trust_level == trust_level as int);
                        assert(hop == TrustPathHopView {
                            agent: trustee@,
                            trust_level: trust_level as int,
                        });
                        assert(spec_state_for(st@.hops.push(hop), next@)) by {
                            assert(next@[next@.len() - 1]@.hops == st@.hops.push(hop));
                        }
                    }
                }
            }
            k += 1;
        }
        proof {
            let damping = self.config.damping_factor as int;
            let threshold = self.config.min_trust_threshold as int;
            assert forall|hop: TrustPathHopView|
                #[trigger] spec_ext_ok(self.store, from@, st@, hop, damping, threshold) implies
                spec_entry_upto(agent@.trust.trusts, hop, n as int) by {
                reveal(spec_edge);
            }
        }
    }
}

/// Appending a stored edge of the walk's endpoint keeps the walk
/// well-formed, provided the new agent is fresh and differs from the start.
#[verifier::rlimit(50)]
proof fn lemma_hops_wf_extend(
    store: EntityStore,
    from: AddressView,
    hops: Seq<TrustPathHopView>,
    endpoint: AddressView,
    hop: TrustPathHopView,
)
    requires
        hops.len() == 0 ==> endpoint == from,
        hops.len() > 0 ==> spec_hops_wf(store, from, hops) && endpoint == hops[hops.len()
            - 1].agent && (forall|i: int|
            0 <= i < hops.len() ==> (#[trigger] hops[i]).agent.domain == Domain::Agent),
        spec_edge(store, endpoint.entity, hop),
        forall|j: int| 0 <= j < hops.len() ==> (#[trigger] hops[j]).agent != hop.agent,
        hop.agent.entity != from.entity,
    ensures
        spec_hops_wf(store, from, hops.push(hop)),
{
    reveal(spec_hops_wf);
    let new = hops.push(hop);
    assert(new[new.len() - 1] == hop);
    if hops.len() == 0 {
        assert(spec_edge(store, from.entity, new[0]));
    } else {
        assert(new[0] == hops[0]);
        assert forall|i: int| 1 <= i < new.len() implies spec_edge(
            store,
            new[i - 1].agent.entity,
            #[trigger] new[i],
        ) by {
            if i < hops.len() {
                assert(new[i] == hops[i]);
                assert(new[i - 1] == hops[i - 1]);
                assert(spec_edge(store, hops[i - 1].agent.entity, hops[i]));
            } else {
                assert(new[i] == hop);
                assert(new[i - 1] == hops[hops.len() - 1]);
            }
        }
    }
}

/// Extending a sound frontier entry by a stored, fresh edge gives a
/// well-formed walk whose damped product is the newly folded trust.
proof fn lemma_extend_state(
    store: EntityStore,
    from: AddressView,
    st: SearchStateView,
    hop: TrustPathHopView,
    damping: int,
    new_cum: int,
)
    requires
        spec_state_ok(store, from, st, st.hops.len() as int, damping),
        spec_edge(store, st.addr.entity, hop),
        forall|j: int| 0 <= j < st.hops.len() ==> (#[trigger] st.hops[j]).agent != hop.agent,
        hop.agent.entity != from.entity,
        -(SCALE as int) <= hop.trust_level <= SCALE as int,
        new_cum == spec_damp_step(
            st.cum,
            hop.trust_level,
            if st.hops.len() == 0 {
                SCALE as int
            } else {
                damping
            },
        ),
        -(SCALE as int) <= new_cum <= SCALE as int,
    ensures
        spec_hops_wf(store, from, st.hops.push(hop)),
        new_cum == spec_effective_trust(spec_hop_levels(st.hops.push(hop)), damping),
{
    reveal(spec_state_ok);
    lemma_hops_wf_extend(store, from, st.hops, st.addr, hop);
    let new_hops = st.hops.push(hop);
    assert(spec_hop_levels(new_hops) =~= spec_hop_levels(st.hops).push(hop.trust_level));
    if st.hops.len() == 0 {
        lemma_step_first(hop.trust_level);
        assert(spec_hop_levels(new_hops).len() == 1);
        assert(spec_hop_levels(new_hops)[0] == hop.trust_level);
    } else {
        assert(spec_hop_levels(new_hops).drop_last() =~= spec_hop_levels(st.hops));
        assert(spec_hop_levels(new_hops).last() == hop.trust_level);
    }
}

/// A completed walk ending at the target is a sound returned path.
proof fn lemma_completed_path(
    store: EntityStore,
    from: AddressView,
    to: AddressView,
    p: crate::trust::TrustPathView,
    hops: Seq<TrustPathHopView>,
    damping: int,
    max_depth: int,
)
    requires
        p.from == from,
        p.to == to,
        p.hops == hops,
        spec_hops_wf(store, from, hops),
        hops[hops.len() - 1].agent.entity == to.entity,
        p.depth == hops.len(),
        1 <= hops.len() <= max_depth,
        p.effective_trust == spec_effective_trust(spec_hop_levels(hops), damping),
        -(SCALE as int) <= p.effective_trust <= SCALE as int,
    ensures
        spec_path_ok(store, from, to, p, damping, max_depth),
{
    reveal(spec_path_ok);
}

/// A queued agent target is a sound frontier entry one hop deeper.
proof fn lemma_next_state(
    store: EntityStore,
    from: AddressView,
    ns: SearchStateView,
    old_hops: Seq<TrustPathHopView>,
    hop: TrustPathHopView,
    damping: int,
)
    requires
        ns.hops == old_hops.push(hop),
        ns.addr == hop.agent,
        hop.agent.domain == Domain::Agent,
        spec_hops_wf(store, from, ns.hops),
        forall|i: int|
            0 <= i < old_hops.len() ==> (#[trigger] old_hops[i]).agent.domain == Domain::Agent,
        ns.cum == spec_effective_trust(spec_hop_levels(ns.hops), damping),
        -(SCALE as int) <= ns.cum <= SCALE as int,
    ensures
        spec_state_ok(store, from, ns, old_hops.len() + 1 as int, damping),
{
    reveal(spec_state_ok);
    assert(ns.hops[ns.hops.len() - 1] == hop);
    assert forall|i: int|
        0 <= i < ns.hops.len() implies (#[trigger] ns.hops[i]).agent.domain
        == Domain::Agent by {
        if i < old_hops.len() {
            assert(ns.hops[i] == old_hops[i]);
        }
    }
}

} // verus!

// The search driver and the queries built on it.

verus! {

/// Whether a path's value occurs in a source list.
pub open spec fn spec_from_input(x: TrustPath, src: Seq<TrustPath>) -> bool {
    exists|j: int| 0 <= j < src.len() && x@ == (#[trigger] src[j])@
}

/// Whether a path's value occurs among the first `bound` entries of a list.
pub open spec fn spec_from_prefix(x: TrustPath, src: Seq<TrustPath>, bound: int) -> bool {
    exists|j: int| 0 <= j < bound && x@ == (#[trigger] src[j])@
}

/// Whether a path's value occurs in an output list.
pub open spec fn spec_into_output(x: TrustPath, outs: Seq<TrustPath>) -> bool {
    exists|k: int| 0 <= k < outs.len() && (#[trigger] outs[k])@ == x@
}

/// Insertion sort by effective trust, descending and stable.
/// One stable-insertion step keeps every inserted value drawn from the
/// input, every earlier input present, and the descending order.
#[verifier::rlimit(100)]
proof fn lemma_sorter_step_order(
    paths: Seq<TrustPath>,
    before: Seq<TrustPath>,
    out: Seq<TrustPath>,
    i: int,
    pj: int,
    p: TrustPath,
)
    requires
        0 <= i < paths.len(),
        0 <= pj <= before.len(),
        out == before.take(pj) + seq![p] + before.skip(pj),
        p@ == paths[i]@,
        forall|a: int, b: int|
            0 <= a < b < before.len() ==> (#[trigger] before[a]).effective_trust >= (
            #[trigger] before[b]).effective_trust,
        forall|a: int|
            0 <= a < pj ==> (#[trigger] before[a]).effective_trust >= p.effective_trust,
        pj < before.len() ==> before[pj].effective_trust < p.effective_trust,
        forall|k: int| 0 <= k < before.len() ==> spec_from_input(#[trigger] before[k], paths),
        forall|j: int| 0 <= j < i ==> spec_into_output(#[trigger] paths[j], before),
    ensures
        forall|k: int| 0 <= k < out.len() ==> spec_from_input(#[trigger] out[k], paths),
        forall|j: int| 0 <= j < i + 1 ==> spec_into_output(#[trigger] paths[j], out),
        forall|a: int, b: int|
            0 <= a < b < out.len() ==> (#[trigger] out[a]).effective_trust >= (
            #[trigger] out[b]).effective_trust,
{
    assert(out.len() == before.len() + 1);
    assert(out[pj] == p);
    assert forall|k: int| 0 <= k < out.len() && k != pj implies #[trigger] out[k] == if k < pj {
        before[k]
    } else {
        before[k - 1]
    } by {}
    assert forall|k: int|
        0 <= k < out.len() implies spec_from_input(#[trigger] out[k], paths) by {
        if k == pj {
            assert(out[k]@ == paths[i]@);
        }
    }
    assert forall|j: int| 0 <= j < i + 1 implies spec_into_output(#[trigger] paths[j], out) by {
        if j < i {
            assert(spec_into_output(paths[j], before));
            let k0 = choose|k0: int| 0 <= k0 < before.len() && (#[trigger] before[k0])@ == paths[j]@;
            if k0 < pj {
                assert(out[k0] == before[k0]);
            } else {
                assert(out[k0 + 1] == before[k0]);
            }
        } else {
            assert(out[pj]@ == paths[j]@);
        }
    }
}

/// One stable-insertion step keeps provenance from the input prefix and,
/// on depth-ordered input, the depth order of equally trusted entries.
#[verifier::rlimit(100)]
proof fn lemma_sorter_step_depth(
    paths: Seq<TrustPath>,
    before: Seq<TrustPath>,
    out: Seq<TrustPath>,
    i: int,
    pj: int,
    p: TrustPath,
    mono: bool,
)
    requires
        0 <= i < paths.len(),
        0 <= pj <= before.len(),
        out == before.take(pj) + seq![p] + before.skip(pj),
        p@ == paths[i]@,
        mono == (forall|c: int, d: int|
            0 <= c < d < paths.len() ==> (#[trigger] paths[c])@.depth <= (
            #[trigger] paths[d])@.depth),
        forall|k: int| 0 <= k < before.len() ==> spec_from_prefix(#[trigger] before[k], paths, i),
        forall|a: int, b: int|
            0 <= a < b < before.len() ==> (#[trigger] before[a]).effective_trust >= (
            #[trigger] before[b]).effective_trust,
        forall|a: int|
            0 <= a < pj ==> (#[trigger] before[a]).effective_trust >= p.effective_trust,
        pj < before.len() ==> before[pj].effective_trust < p.effective_trust,
        mono ==> forall|a: int, b: int|
            0 <= a < b < before.len() && (#[trigger] before[a]).effective_trust == (
            #[trigger] before[b]).effective_trust ==> before[a]@.depth <= before[b]@.depth,
    ensures
        forall|k: int| 0 <= k < out.len() ==> spec_from_prefix(#[trigger] out[k], paths, i + 1),
        mono ==> forall|a: int, b: int|
            0 <= a < b < out.len() && (#[trigger] out[a]).effective_trust == (
            #[trigger] out[b]).effective_trust ==> out[a]@.depth <= out[b]@.depth,
{
    assert(out.len() == before.len() + 1);
    assert(out[pj] == p);
    assert forall|k: int| 0 <= k < out.len() && k != pj implies #[trigger] out[k] == if k < pj {
        before[k]
    } else {
        before[k - 1]
    } by {}
    assert forall|k: int|
        0 <= k < out.len() implies spec_from_prefix(#[trigger] out[k], paths, i + 1) by {
        if k == pj {
            assert(out[k]@ == paths[i]@);
        } else {
            let k0 = if k < pj {
                k
            } else {
                k - 1
            };
            assert(spec_from_prefix(before[k0], paths, i));
            let j2 = choose|j2: int| 0 <= j2 < i && before[k0]@ == (#[trigger] paths[j2])@;
            assert(out[k]@ == paths[j2]@);
        }
    }
    if mono {
        assert forall|a: int, b: int|
            0 <= a < b < out.len() && (#[trigger] out[a]).effective_trust == (
        #[trigger] out[b]).effective_trust implies out[a]@.depth <= out[b]@.depth by {
            if b < pj {
                assert(out[a] == before[a] && out[b] == before[b]);
            } else if a < pj && b == pj {
                assert(out[a] == before[a]);
                assert(spec_from_prefix(before[a], paths, i));
                let j2 = choose|j2: int| 0 <= j2 < i && before[a]@ == (#[trigger] paths[j2])@;
                assert(paths[j2]@.depth <= paths[i]@.depth);
                assert(out[b]@ == paths[i]@);
            } else if a == pj && b > pj {
                assert(out[b] == before[b - 1]);
                assert(pj < before.len());
                assert(before[pj].effective_trust < p.effective_trust);
                if b - 1 > pj {
                    assert(before[pj].effective_trust >= before[b - 1].effective_trust);
                }
                assert(false);
            } else if a < pj && b > pj {
                assert(out[a] == before[a]);
                assert(out[b] == before[b - 1]);
            } else {
                assert(out[a] == before[a - 1]);
                assert(out[b] == before[b - 1]);
            }
        }
    }
}

#[verifier::rlimit(100)]
fn sort_paths_desc(paths: Vec<TrustPath>) -> (r: Vec<TrustPath>)
    ensures
        r@.len() == paths@.len(),
        forall|k: int| 0 <= k < r@.len() ==> spec_from_input(#[trigger] r@[k], paths@),
        forall|j: int| 0 <= j < paths@.len() ==> spec_into_output(#[trigger] paths@[j], r@),
        forall|a: int, b: int|
            0 <= a < b < r@.len() ==> (#[trigger] r@[a]).effective_trust >= (
            #[trigger] r@[b]).effective_trust,
        (forall|c: int, d: int|
            0 <= c < d < paths@.len() ==> (#[trigger] paths@[c])@.depth <= (
            #[trigger] paths@[d])@.depth) ==> forall|a: int, b: int|
            0 <= a < b < r@.len() && (#[trigger] r@[a]).effective_trust == (
            #[trigger] r@[b]).effective_trust ==> r@[a]@.depth <= r@[b]@.depth,
{
    let ghost mono = forall|c: int, d: int|
        0 <= c < d < paths@.len() ==> (#[trigger] paths@[c])@.depth <= (
        #[trigger] paths@[d])@.depth;
    let mut out: Vec<TrustPath> = Vec::new();
    let n = paths.len();
    let mut i: usize = 0;
    while i < n
        invariant
            i <= n,
            n == paths@.len(),
            out@.len() == i,
            mono == (forall|c: int, d: int|
                0 <= c < d < paths@.len() ==> (#[trigger] paths@[c])@.depth <= (
                #[trigger] paths@[d])@.depth),
            forall|k: int| 0 <= k < out@.len() ==> spec_from_input(#[trigger] out@[k], paths@),
            forall|k: int|
                0 <= k < out@.len() ==> spec_from_prefix(#[trigger] out@[k], paths@, i as int),
            forall|j: int| 0 <= j < i ==> spec_into_output(#[trigger] paths@[j], out@),
            forall|a: int, b: int|
                0 <= a < b < out@.len() ==> (#[trigger] out@[a]).effective_trust >= (
                #[trigger] out@[b]).effective_trust,
            mono ==> forall|a: int, b: int|
                0 <= a < b < out@.len() && (#[trigger] out@[a]).effective_trust == (
                #[trigger] out@[b]).effective_trust ==> out@[a]@.depth <= out@[b]@.depth,
        decreases n - i,
    {
        let p = paths[i].clone();
        let m = out.len();
        let mut j: usize = 0;
        while j < m && out[j].effective_trust >= p.effective_trust
            invariant
                j <= m,
                m == out@.len(),
                forall|a: int|
                    0 <= a < j ==> (#[trigger] out@[a]).effective_trust >= p.effective_trust,
            decreases m - j,
        {
            j += 1;
        }
        let ghost before = out@;
        let ghost pj = j as int;
        out.insert(j, p);
        proof {
            assert(out@ =~= before.take(pj) + seq![p] + before.skip(pj));
            lemma_sorter_step_order(paths@, before, out@, i as int, pj, p);
            lemma_sorter_step_depth(paths@, before, out@, i as int, pj, p, mono);
        }
        i += 1;
    }
    out
}

/// Witnesses of direct-edge coverage survive when the path list only
/// grows or is rearranged without changing values.
proof fn lemma_covers_preserved(
    store: EntityStore,
    from: AddressView,
    to: AddressView,
    threshold: int,
    paths1: Seq<TrustPath>,
    paths2: Seq<TrustPath>,
)
    requires
        spec_covers_direct_edges(store, from, to, threshold, paths1),
        forall|j: int| 0 <= j < paths1.len() ==> spec_into_output(#[trigger] paths1[j], paths2),
    ensures
        spec_covers_direct_edges(store, from, to, threshold, paths2),
{
    match spec_get(store.agents@, from.entity) {
        Some(a) => {
            assert forall|k: int|
                0 <= k < a@.trust.trusts.len() && (#[trigger] a@.trust.trusts[k]).agent.entity
                    == to.entity && (a@.trust.trusts[k].trust >= threshold
                    || a@.trust.trusts[k].trust <= -threshold) implies exists|j: int|
                0 <= j < paths2.len() && (#[trigger] paths2[j])@.effective_trust
                    == a@.trust.trusts[k].trust by {
                let j0 = choose|j0: int|
                    0 <= j0 < paths1.len() && (#[trigger] paths1[j0])@.effective_trust
                        == a@.trust.trusts[k].trust;
                assert(spec_into_output(paths1[j0], paths2));
                let k2 = choose|k2: int|
                    0 <= k2 < paths2.len() && (#[trigger] paths2[k2])@ == paths1[j0]@;
                assert(paths2[k2]@.effective_trust == a@.trust.trusts[k].trust);
            }
        },
        None => {},
    }
}

impl TrustService {
    /// Every trust path from `from` to `to`, highest effective trust
    /// first.
    ///
    /// A self query yields the one synthetic path of full trust. Otherwise
    /// the search starts from an agent address and explores stored edges
    /// breadth-first up to the configured depth, pruning below the trust
    /// threshold; every returned path is a sound walk of the stored graph,
    /// and when a direct edge to the target exists at least one path comes
    /// back.
    pub fn find_all_paths(&self, from: &Address, to: &Address) -> (r: HubResult<Vec<TrustPath>>)
        requires
            self.store.wf(),
            self.config.wf(),
        ensures
            r is Err <==> (from@ != to@ && from@.domain != Domain::Agent),
            match r {
                Ok(paths) => {
                    &&& (from@ == to@ ==> paths@.len() == 1 && paths@[0]@.from == from@
                        && paths@[0]@.to == to@ && paths@[0]@.effective_trust == SCALE as int
                        && paths@[0]@.depth == 1)
                    &&& (from@ != to@ ==> forall|k: int|
                        0 <= k < paths@.len() ==> spec_path_ok(
                            self.store,
                            from@,
                            to@,
                            (#[trigger] paths@[k])@,
                            self.config.damping_factor as int,
                            self.config.max_depth as int,
                        ) && spec_path_threshold_ok(
                            (#[trigger] paths@[k])@,
                            self.config.damping_factor as int,
                            self.config.min_trust_threshold as int,
                        ))
                    &&& (forall|a: int, b: int|
                        0 <= a < b < paths@.len() ==> (#[trigger] paths@[a]).effective_trust >= (
                        #[trigger] paths@[b]).effective_trust)
                    &&& (forall|a: int, b: int|
                        0 <= a < b < paths@.len() && (#[trigger] paths@[a]).effective_trust == (
                        #[trigger] paths@[b]).effective_trust ==> paths@[a]@.depth
                            <= paths@[b]@.depth)
                    &&& ((from@ != to@ && from@.domain == Domain::Agent
                        && self.config.max_depth >= 1 && self.config.min_trust_threshold < SCALE
                        && to@.entity != from@.entity && spec_direct_edge_to(
                        self.store,
                        from@.entity,
                        to@.entity,
                        self.config.min_trust_threshold as int,
                    )) ==> paths@.len() > 0)
                    &&& ((from@ != to@ && from@.domain == Domain::Agent
                        && self.config.max_depth >= 1 && to@.entity != from@.entity)
                        ==> spec_covers_direct_edges(
                        self.store,
                        from@,
                        to@,
                        self.config.min_trust_threshold as int,
                        paths@,
                    ))
                    &&& ((from@ != to@ && from@.domain == Domain::Agent
                        && self.config.max_depth >= 1 && to@.entity != from@.entity)
                        ==> spec_covers_walks(
                        self.store,
                        from@,
                        to@,
                        self.config.damping_factor as int,
                        self.config.max_depth as int,
                        self.config.min_trust_threshold as int,
                        paths@,
                    ))
                },
                Err(e) => e matches HubError::ValidationError(m) && m@
                    == "Trust paths must start from an agent"@,
            },
    {
        if *from == *to {
            let mut paths: Vec<TrustPath> = Vec::new();
            paths.push(TrustPath::direct(from.clone(), to.clone(), SCALE));
            return Ok(paths);
        }
        if !(from.domain == Domain::Agent) {
            return Err(
                HubError::ValidationError(
                    to_owned_string("Trust paths must start from an agent"),
                ),
            );
        }
        let mut paths: Vec<TrustPath> = Vec::new();
        let mut frontier: Vec<SearchState> = Vec::new();
        frontier.push(SearchState { addr: from.clone(), hops: Vec::new(), cum: SCALE });
        proof {
            reveal(spec_state_ok);
            assert(frontier@[0]@.hops =~= Seq::<TrustPathHopView>::empty());
        }
        let ghost premise = from@.domain == Domain::Agent && self.config.max_depth >= 1
            && self.config.min_trust_threshold < SCALE && to@.entity != from@.entity
            && spec_direct_edge_to(
            self.store,
            from@.entity,
            to@.entity,
            self.config.min_trust_threshold as int,
        );
        let ghost reach = from@.domain == Domain::Agent && self.config.max_depth >= 1
            && to@.entity != from@.entity;
        let mut depth: u8 = 0;
        while depth < self.config.max_depth && frontier.len() > 0
            invariant
                self.store.wf(),
                self.config.wf(),
                depth <= self.config.max_depth,
                premise == (from@.domain == Domain::Agent && self.config.max_depth >= 1
                    && self.config.min_trust_threshold < SCALE && to@.entity != from@.entity
                    && spec_direct_edge_to(
                    self.store,
                    from@.entity,
                    to@.entity,
                    self.config.min_trust_threshold as int,
                )),
                forall|k: int|
                    0 <= k < frontier@.len() ==> spec_state_ok(
                        self.store,
                        from@,
                        (#[trigger] frontier@[k])@,
                        depth as int,
                        self.config.damping_factor as int,
                    ) && spec_state_prefixes_ok(
                        (#[trigger] frontier@[k])@,
                        self.config.damping_factor as int,
                        self.config.min_trust_threshold as int,
                    ),
                forall|k: int|
                    0 <= k < paths@.len() ==> spec_path_ok(
                        self.store,
                        from@,
                        to@,
                        (#[trigger] paths@[k])@,
                        self.config.damping_factor as int,
                        self.config.max_depth as int,
                    ) && spec_path_threshold_ok(
                        (#[trigger] paths@[k])@,
                        self.config.damping_factor as int,
                        self.config.min_trust_threshold as int,
                    ),
                premise && depth == 0 ==> frontier@.len() > 0 && frontier@[0]@.hops.len() == 0,
                premise && depth >= 1 ==> paths@.len() > 0,
                reach == (from@.domain == Domain::Agent && self.config.max_depth >= 1
                    && to@.entity != from@.entity),
                reach && depth == 0 ==> frontier@.len() > 0,
                reach && depth >= 1 ==> spec_covers_direct_edges(
                    self.store,
                    from@,
                    to@,
                    self.config.min_trust_threshold as int,
                    paths@,
                ),
                reach && depth == 0 ==> frontier@[0]@.hops
                    == Seq::<TrustPathHopView>::empty(),
                reach ==> forall|u: Seq<TrustPathHopView>|
                    #[trigger] spec_open_prefix(
                        self.store,
                        from@,
                        to@,
                        u,
                        self.config.damping_factor as int,
                        self.config.min_trust_threshold as int,
                    ) && u.len() == depth as int ==> spec_state_for(u, frontier@),
                reach ==> spec_covers_walks_upto(
                    self.store,
                    from@,
                    to@,
                    self.config.damping_factor as int,
                    self.config.max_depth as int,
                    self.config.min_trust_threshold as int,
                    paths@,
                    depth as int,
                ),
                forall|a: int, b: int|
                    0 <= a < b < paths@.len() ==> (#[trigger] paths@[a])@.depth <= (
                    #[trigger] paths@[b])@.depth,
                forall|k: int| 0 <= k < paths@.len() ==> (#[trigger] paths@[k])@.depth
                    <= depth as int,
            decreases self.config.max_depth - depth,
        {
            let mut next: Vec<SearchState> = Vec::new();
            let fl = frontier.len();
            let mut i: usize = 0;
            while i < fl
                invariant
                    i <= fl,
                    self.store.wf(),
                    self.config.wf(),
                    depth < self.config.max_depth,
                    fl == frontier@.len(),
                    premise == (from@.domain == Domain::Agent && self.config.max_depth >= 1
                        && self.config.min_trust_threshold < SCALE && to@.entity != from@.entity
                        && spec_direct_edge_to(
                    self.store,
                    from@.entity,
                    to@.entity,
                    self.config.min_trust_threshold as int,
                )),
                    forall|k: int|
                        0 <= k < frontier@.len() ==> spec_state_ok(
                            self.store,
                            from@,
                            (#[trigger] frontier@[k])@,
                            depth as int,
                            self.config.damping_factor as int,
                        ) && spec_state_prefixes_ok(
                            (#[trigger] frontier@[k])@,
                            self.config.damping_factor as int,
                            self.config.min_trust_threshold as int,
                        ),
                    forall|k: int|
                        0 <= k < paths@.len() ==> spec_path_ok(
                            self.store,
                            from@,
                            to@,
                            (#[trigger] paths@[k])@,
                            self.config.damping_factor as int,
                            self.config.max_depth as int,
                        ) && spec_path_threshold_ok(
                            (#[trigger] paths@[k])@,
                            self.config.damping_factor as int,
                            self.config.min_trust_threshold as int,
                        ),
                    forall|k: int|
                        0 <= k < next@.len() ==> spec_state_ok(
                            self.store,
                            from@,
                            (#[trigger] next@[k])@,
                            depth + 1 as int,
                            self.config.damping_factor as int,
                        ) && spec_state_prefixes_ok(
                            (#[trigger] next@[k])@,
                            self.config.damping_factor as int,
                            self.config.min_trust_threshold as int,
                        ),
                    premise && depth == 0 && i == 0 ==> frontier@[0]@.hops.len() == 0,
                    premise && depth == 0 && i > 0 ==> paths@.len() > 0,
                    premise && depth >= 1 ==> paths@.len() > 0,
                    reach == (from@.domain == Domain::Agent && self.config.max_depth >= 1
                        && to@.entity != from@.entity),
                    reach && (depth > 0 || i > 0) ==> spec_covers_direct_edges(
                        self.store,
                        from@,
                        to@,
                        self.config.min_trust_threshold as int,
                        paths@,
                    ),
                    reach && depth == 0 ==> frontier@[0]@.hops
                        == Seq::<TrustPathHopView>::empty(),
                    reach ==> forall|u: Seq<TrustPathHopView>|
                        #[trigger] spec_open_prefix(
                            self.store,
                            from@,
                            to@,
                            u,
                            self.config.damping_factor as int,
                            self.config.min_trust_threshold as int,
                        ) && u.len() == depth as int ==> spec_state_for(u, frontier@),
                    reach ==> spec_covers_walks_upto(
                        self.store,
                        from@,
                        to@,
                        self.config.damping_factor as int,
                        self.config.max_depth as int,
                        self.config.min_trust_threshold as int,
                        paths@,
                        depth as int,
                    ),
                    reach ==> forall|w: Seq<TrustPathHopView>|
                        #[trigger] spec_admissible_walk(
                            self.store,
                            from@,
                            to@,
                            w,
                            self.config.damping_factor as int,
                            self.config.max_depth as int,
                            self.config.min_trust_threshold as int,
                        ) && w.len() == depth + 1 && spec_state_for_upto(
                            w.take(depth as int),
                            frontier@,
                            i as int,
                        ) ==> spec_walk_covered(
                            w,
                            self.config.damping_factor as int,
                            paths@,
                        ),
                    reach ==> forall|u: Seq<TrustPathHopView>|
                        #[trigger] spec_open_prefix(
                            self.store,
                            from@,
                            to@,
                            u,
                            self.config.damping_factor as int,
                            self.config.min_trust_threshold as int,
                        ) && u.len() == depth + 1 && spec_state_for_upto(
                            u.take(depth as int),
                            frontier@,
                            i as int,
                        ) ==> spec_state_for(u, next@),
                    forall|a: int, b: int|
                        0 <= a < b < paths@.len() ==> (#[trigger] paths@[a])@.depth <= (
                        #[trigger] paths@[b])@.depth,
                    forall|k: int| 0 <= k < paths@.len() ==> (#[trigger] paths@[k])@.depth
                        <= depth + 1,
                decreases fl - i,
            {
                assert(frontier@[i as int]@.hops.len() == depth as int && -(SCALE as int)
                    <= frontier@[i as int]@.cum <= SCALE as int) by {
                    reveal(spec_state_ok);
                }
                let ghost pre_paths = paths@;
                let ghost pre_next = next@;
                self.expand_state(&frontier[i], from, to, &mut paths, &mut next);
                proof {
                    assert forall|j: int|
                        0 <= j < pre_paths.len() implies spec_into_output(
                        #[trigger] pre_paths[j],
                        paths@,
                    ) by {
                        assert(paths@[j] == pre_paths[j]);
                    }
                    assert forall|k: int|
                        0 <= k < paths@.len() implies (#[trigger] paths@[k])@.depth
                        <= depth + 1 by {
                        if k < pre_paths.len() {
                            assert(paths@[k] == pre_paths[k]);
                        } else {
                            assert(paths@[k]@.depth == frontier@[i as int]@.hops.len() + 1);
                        }
                    }
                    assert forall|a: int, b: int|
                        0 <= a < b < paths@.len() implies (#[trigger] paths@[a])@.depth <= (
                    #[trigger] paths@[b])@.depth by {
                        if b < pre_paths.len() {
                            assert(paths@[a] == pre_paths[a]);
                            assert(paths@[b] == pre_paths[b]);
                        } else if a < pre_paths.len() {
                            assert(paths@[a] == pre_paths[a]);
                            assert(pre_paths[a]@.depth <= depth + 1);
                            assert(paths@[b]@.depth == frontier@[i as int]@.hops.len() + 1);
                        } else {
                            assert(paths@[a]@.depth == frontier@[i as int]@.hops.len() + 1);
                            assert(paths@[b]@.depth == frontier@[i as int]@.hops.len() + 1);
                        }
                    }
                    if reach {
                        if depth == 0 && i == 0 {
                            assert(spec_covers_direct_edges(
                                self.store,
                                from@,
                                to@,
                                self.config.min_trust_threshold as int,
                                paths@,
                            ));
                        } else {
                            lemma_covers_preserved(
                                self.store,
                                from@,
                                to@,
                                self.config.min_trust_threshold as int,
                                pre_paths,
                                paths@,
                            );
                        }
                        let damping = self.config.damping_factor as int;
                        let threshold = self.config.min_trust_threshold as int;
                        let maxd = self.config.max_depth as int;
                        let ghost stv = frontier@[i as int]@;
                        lemma_covers_upto_preserved(
                            self.store,
                            from@,
                            to@,
                            damping,
                            maxd,
                            threshold,
                            depth as int,
                            pre_paths,
                            paths@,
                        );
                        assert forall|w: Seq<TrustPathHopView>|
                            #[trigger] spec_admissible_walk(
                                self.store,
                                from@,
                                to@,
                                w,
                                damping,
                                maxd,
                                threshold,
                            ) && w.len() == depth + 1 && spec_state_for_upto(
                                w.take(depth as int),
                                frontier@,
                                i + 1,
                            ) implies spec_walk_covered(w, damping, paths@) by {
                            if spec_state_for_upto(w.take(depth as int), frontier@, i as int) {
                                assert(spec_walk_covered(w, damping, pre_paths));
                                let j = choose|j: int|
                                    0 <= j < pre_paths.len() && (
                                    #[trigger] pre_paths[j])@.effective_trust
                                        == spec_effective_trust(spec_hop_levels(w), damping) && (
                                    #[trigger] pre_paths[j])@.depth == w.len();
                                assert(paths@[j] == pre_paths[j]);
                            } else {
                                let i2 = choose|i2: int|
                                    0 <= i2 < i + 1 && i2 < frontier@.len() && (
                                    #[trigger] frontier@[i2])@.hops == w.take(depth as int);
                                assert(i2 == i);
                                assert(stv.hops == w.take(w.len() - 1));
                                lemma_split_last(self.store, from@, w, stv, damping, threshold);
                                assert(w[w.len() - 1].agent.entity == to@.entity);
                                assert(spec_walk_covered(
                                    stv.hops.push(w[w.len() - 1]),
                                    damping,
                                    paths@,
                                ));
                            }
                        }
                        assert forall|u: Seq<TrustPathHopView>|
                            #[trigger] spec_open_prefix(
                                self.store,
                                from@,
                                to@,
                                u,
                                damping,
                                threshold,
                            ) && u.len() == depth + 1 && spec_state_for_upto(
                                u.take(depth as int),
                                frontier@,
                                i + 1,
                            ) implies spec_state_for(u, next@) by {
                            if spec_state_for_upto(u.take(depth as int), frontier@, i as int) {
                                assert(spec_state_for(u, pre_next));
                                let i3 = choose|i3: int|
                                    0 <= i3 < pre_next.len() && (#[trigger] pre_next[i3])@.hops
                                        == u;
                                assert(next@[i3] == pre_next[i3]);
                            } else {
                                let i2 = choose|i2: int|
                                    0 <= i2 < i + 1 && i2 < frontier@.len() && (
                                    #[trigger] frontier@[i2])@.hops == u.take(depth as int);
                                assert(i2 == i);
                                assert(stv.hops == u.take(u.len() - 1));
                                lemma_split_last(self.store, from@, u, stv, damping, threshold);
                                assert(u[u.len() - 1].agent.entity != to@.entity);
                                assert(u[u.len() - 1].agent.domain == Domain::Agent);
                                assert(spec_state_for(stv.hops.push(u[u.len() - 1]), next@));
                            }
                        }
                    }
                    assert forall|k: int| 0 <= k < paths@.len() implies spec_path_ok(
                        self.store,
                        from@,
                        to@,
                        (#[trigger] paths@[k])@,
                        self.config.damping_factor as int,
                        self.config.max_depth as int,
                    ) && spec_path_threshold_ok(
                        (#[trigger] paths@[k])@,
                        self.config.damping_factor as int,
                        self.config.min_trust_threshold as int,
                    ) by {
                        if k < pre_paths.len() {
                            assert(paths@[k] == pre_paths[k]);
                            assert(spec_path_ok(
                                self.store,
                                from@,
                                to@,
                                pre_paths[k]@,
                                self.config.damping_factor as int,
                                self.config.max_depth as int,
                            ));
                            assert(spec_path_threshold_ok(
                                pre_paths[k]@,
                                self.config.damping_factor as int,
                                self.config.min_trust_threshold as int,
                            ));
                        }
                    }
                    assert forall|k: int| 0 <= k < next@.len() implies spec_state_ok(
                        self.store,
                        from@,
                        (#[trigger] next@[k])@,
                        depth + 1 as int,
                        self.config.damping_factor as int,
                    ) && spec_state_prefixes_ok(
                        (#[trigger] next@[k])@,
                        self.config.damping_factor as int,
                        self.config.min_trust_threshold as int,
                    ) by {
                        if k < pre_next.len() {
                            assert(next@[k] == pre_next[k]);
                            assert(spec_state_ok(
                                self.store,
                                from@,
                                pre_next[k]@,
                                depth + 1 as int,
                                self.config.damping_factor as int,
                            ));
                            assert(spec_state_prefixes_ok(
                                pre_next[k]@,
                                self.config.damping_factor as int,
                                self.config.min_trust_threshold as int,
                            ));
                        } else {
                            assert(spec_state_ok(
                                self.store,
                                from@,
                                next@[k]@,
                                frontier@[i as int]@.hops.len() + 1 as int,
                                self.config.damping_factor as int,
                            ));
                        }
                    }
                }
                i += 1;
            }
            proof {
                if reach {
                    let damping = self.config.damping_factor as int;
                    let threshold = self.config.min_trust_threshold as int;
                    let maxd = self.config.max_depth as int;
                    assert forall|w: Seq<TrustPathHopView>|
                        #[trigger] spec_admissible_walk(
                            self.store,
                            from@,
                            to@,
                            w,
                            damping,
                            maxd,
                            threshold,
                        ) && w.len() <= depth + 1 implies spec_walk_covered(
                        w,
                        damping,
                        paths@,
                    ) by {
                        if w.len() == depth + 1 {
                            if depth == 0 {
                                assert(frontier@[0]@.hops == w.take(0));
                            } else {
                                lemma_open_take(
                                    self.store,
                                    from@,
                                    to@,
                                    w,
                                    damping,
                                    threshold,
                                    depth as int,
                                );
                                assert(spec_state_for(w.take(depth as int), frontier@));
                                let ix = choose|ix: int|
                                    0 <= ix < frontier@.len() && (#[trigger] frontier@[ix])@.hops
                                        == w.take(depth as int);
                            }
                            assert(spec_state_for_upto(
                                w.take(depth as int),
                                frontier@,
                                fl as int,
                            ));
                        }
                    }
                    assert forall|u: Seq<TrustPathHopView>|
                        #[trigger] spec_open_prefix(
                            self.store,
                            from@,
                            to@,
                            u,
                            damping,
                            threshold,
                        ) && u.len() == depth + 1 implies spec_state_for(u, next@) by {
                        if depth == 0 {
                            assert(frontier@[0]@.hops == u.take(0));
                        } else {
                            lemma_open_take(
                                self.store,
                                from@,
                                to@,
                                u,
                                damping,
                                threshold,
                                depth as int,
                            );
                            assert(spec_state_for(u.take(depth as int), frontier@));
                            let ix = choose|ix: int|
                                0 <= ix < frontier@.len() && (#[trigger] frontier@[ix])@.hops
                                    == u.take(depth as int);
                        }
                        assert(spec_state_for_upto(u.take(depth as int), frontier@, fl as int));
                    }
                }
            }
            frontier = next;
            depth = depth + 1;
        }
        proof {
            if reach {
                let damping = self.config.damping_factor as int;
                let threshold = self.config.min_trust_threshold as int;
                let maxd = self.config.max_depth as int;
                assert forall|w: Seq<TrustPathHopView>|
                    #[trigger] spec_admissible_walk(
                        self.store,
                        from@,
                        to@,
                        w,
                        damping,
                        maxd,
                        threshold,
                    ) && w.len() <= maxd implies spec_walk_covered(w, damping, paths@) by {
                    if w.len() > depth as int {
                        assert(frontier@.len() == 0);
                        assert(depth >= 1);
                        lemma_open_take(
                            self.store,
                            from@,
                            to@,
                            w,
                            damping,
                            threshold,
                            depth as int,
                        );
                        assert(spec_state_for(w.take(depth as int), frontier@));
                        let ix = choose|ix: int|
                            0 <= ix < frontier@.len() && (#[trigger] frontier@[ix])@.hops
                                == w.take(depth as int);
                        assert(false);
                    }
                }
            }
        }
        let ghost pre = paths@;
        let sorted = sort_paths_desc(paths);
        proof {
            if reach {
                lemma_covers_preserved(
                    self.store,
                    from@,
                    to@,
                    self.config.min_trust_threshold as int,
                    pre,
                    sorted@,
                );
                lemma_covers_upto_preserved(
                    self.store,
                    from@,
                    to@,
                    self.config.damping_factor as int,
                    self.config.max_depth as int,
                    self.config.min_trust_threshold as int,
                    self.config.max_depth as int,
                    pre,
                    sorted@,
                );
                assert forall|w: Seq<TrustPathHopView>|
                    #[trigger] spec_admissible_walk(
                        self.store,
                        from@,
                        to@,
                        w,
                        self.config.damping_factor as int,
                        self.config.max_depth as int,
                        self.config.min_trust_threshold as int,
                    ) implies spec_walk_covered(
                    w,
                    self.config.damping_factor as int,
                    sorted@,
                ) by {
                    assert(w.len() <= self.config.max_depth as int);
                }
            }
            assert forall|k: int| 0 <= k < sorted@.len() implies spec_path_ok(
                self.store,
                from@,
                to@,
                (#[trigger] sorted@[k])@,
                self.config.damping_factor as int,
                self.config.max_depth as int,
            ) && spec_path_threshold_ok(
                (#[trigger] sorted@[k])@,
                self.config.damping_factor as int,
                self.config.min_trust_threshold as int,
            ) by {
                assert(spec_from_input(sorted@[k], pre));
                let j = choose|j: int| 0 <= j < pre.len() && sorted@[k]@ == (#[trigger] pre[j])@;
                assert(spec_path_ok(
                    self.store,
                    from@,
                    to@,
                    pre[j]@,
                    self.config.damping_factor as int,
                    self.config.max_depth as int,
                ));
                assert(spec_path_threshold_ok(
                    pre[j]@,
                    self.config.damping_factor as int,
                    self.config.min_trust_threshold as int,
                ));
            }
        }
        Ok(sorted)
    }
}

} // verus!

// Queries built on the path search.

verus! {

/// The level of the first edge toward an entity, if the list has one.
pub open spec fn spec_direct_trust(trusts: Seq<crate::agent::TrustView>, to_entity: Seq<char>) -> Option<int>
    decreases trusts.len(),
{
    if trusts.len() == 0 {
        None
    } else if trusts[0].agent.entity == to_entity {
        Some(trusts[0].trust)
    } else {
        spec_direct_trust(trusts.drop_first(), to_entity)
    }
}

impl TrustService {
    /// The best trust path from `from` to `to`: the synthetic full-trust
    /// path when they coincide, otherwise a maximal-trust path among the
    /// bounded search's results, shortest first among ties.
    pub fn find_best_path(&self, from: &Address, to: &Address) -> (r: HubResult<Option<TrustPath>>)
        requires
            self.store.wf(),
            self.config.wf(),
        ensures
            r is Err <==> (from@ != to@ && from@.domain != Domain::Agent),
            match r {
                Ok(opt) => {
                    &&& (from@ == to@ ==> (opt matches Some(p) && p@.from == from@ && p@.to
                        == to@ && p@.effective_trust == SCALE as int && p@.depth == 1
                        && p@.hops.len() == 1 && p@.hops[0].agent == to@
                        && p@.hops[0].trust_level == SCALE as int))
                    &&& (match opt {
                        Some(p) => from@ != to@ ==> spec_path_ok(
                            self.store,
                            from@,
                            to@,
                            p@,
                            self.config.damping_factor as int,
                            self.config.max_depth as int,
                        ) && spec_path_threshold_ok(
                            p@,
                            self.config.damping_factor as int,
                            self.config.min_trust_threshold as int,
                        ),
                        None => from@ != to@,
                    })
                    &&& ((from@ != to@ && from@.domain == Domain::Agent
                        && self.config.max_depth >= 1 && self.config.min_trust_threshold < SCALE
                        && to@.entity != from@.entity && spec_direct_edge_to(
                        self.store,
                        from@.entity,
                        to@.entity,
                        self.config.min_trust_threshold as int,
                    )) ==> opt is Some)
                    &&& ((from@ != to@ && from@.domain == Domain::Agent
                        && self.config.max_depth >= 1 && to@.entity != from@.entity) ==> match opt {
                        Some(p) => spec_at_least_direct_edges(
                            self.store,
                            from@,
                            to@,
                            self.config.min_trust_threshold as int,
                            p@.effective_trust,
                        ),
                        None => !spec_direct_edge_to(
                            self.store,
                            from@.entity,
                            to@.entity,
                            self.config.min_trust_threshold as int,
                        ),
                    })
                    &&& ((from@ != to@ && from@.domain == Domain::Agent
                        && self.config.max_depth >= 1 && to@.entity != from@.entity) ==> match opt {
                        Some(p) => spec_at_least_walks(
                            self.store,
                            from@,
                            to@,
                            self.config.damping_factor as int,
                            self.config.max_depth as int,
                            self.config.min_trust_threshold as int,
                            p@.effective_trust,
                        ),
                        None => forall|w: Seq<TrustPathHopView>|
                            !(#[trigger] spec_admissible_walk(
                                self.store,
                                from@,
                                to@,
                                w,
                                self.config.damping_factor as int,
                                self.config.max_depth as int,
                                self.config.min_trust_threshold as int,
                            )),
                    })
                    &&& ((from@ != to@ && from@.domain == Domain::Agent
                        && self.config.max_depth >= 1 && to@.entity != from@.entity) ==> match opt {
                        Some(p) => forall|w: Seq<TrustPathHopView>|
                            #[trigger] spec_admissible_walk(
                                self.store,
                                from@,
                                to@,
                                w,
                                self.config.damping_factor as int,
                                self.config.max_depth as int,
                                self.config.min_trust_threshold as int,
                            ) && spec_effective_trust(
                                spec_hop_levels(w),
                                self.config.damping_factor as int,
                            ) == p@.effective_trust ==> p@.depth <= w.len(),
                        None => true,
                    })
                },
                Err(e) => e matches HubError::ValidationError(m) && m@
                    == "Trust paths must start from an agent"@,
            },
    {
        if *from == *to {
            return Ok(Some(TrustPath::direct(from.clone(), to.clone(), SCALE)));
        }
        let ghost reach = from@.domain == Domain::Agent && self.config.max_depth >= 1
            && to@.entity != from@.entity;
        let paths = match self.find_all_paths(from, to) {
            Ok(ps) => ps,
            Err(e) => {
                return Err(e);
            },
        };
        let n = paths.len();
        let mut best: Option<TrustPath> = None;
        let mut i: usize = 0;
        while i < n
            invariant
                i <= n,
                n == paths@.len(),
                self.store.wf(),
                self.config.wf(),
                from@ != to@,
                forall|a: int, b: int|
                    0 <= a < b < paths@.len() ==> (#[trigger] paths@[a]).effective_trust >= (
                    #[trigger] paths@[b]).effective_trust,
                forall|k: int|
                    0 <= k < paths@.len() ==> spec_path_ok(
                        self.store,
                        from@,
                        to@,
                        (#[trigger] paths@[k])@,
                        self.config.damping_factor as int,
                        self.config.max_depth as int,
                    ) && spec_path_threshold_ok(
                        (#[trigger] paths@[k])@,
                        self.config.damping_factor as int,
                        self.config.min_trust_threshold as int,
                    ),
                match best {
                    Some(b) => i > 0 && n > 0 && b@ == paths@[0]@ && spec_path_ok(
                        self.store,
                        from@,
                        to@,
                        b@,
                        self.config.damping_factor as int,
                        self.config.max_depth as int,
                    ) && spec_path_threshold_ok(
                        b@,
                        self.config.damping_factor as int,
                        self.config.min_trust_threshold as int,
                    ) && (forall|j: int|
                        0 <= j < i ==> b@.effective_trust >= (
                        #[trigger] paths@[j])@.effective_trust),
                    None => i == 0 || n == 0,
                },
            decreases n - i,
        {
            match &best {
                None => {
                    best = Some(paths[i].clone());
                },
                Some(b) => {
                    if paths[i].effective_trust > b.effective_trust {
                        best = Some(paths[i].clone());
                    }
                },
            }
            i += 1;
        }
        proof {
            if reach {
                let damping = self.config.damping_factor as int;
                let threshold = self.config.min_trust_threshold as int;
                let maxd = self.config.max_depth as int;
                match &best {
                    Some(b) => {
                        assert forall|w: Seq<TrustPathHopView>|
                            #[trigger] spec_admissible_walk(
                                self.store,
                                from@,
                                to@,
                                w,
                                damping,
                                maxd,
                                threshold,
                            ) implies b@.effective_trust >= spec_effective_trust(
                            spec_hop_levels(w),
                            damping,
                        ) by {
                            assert(spec_walk_covered(w, damping, paths@));
                            let j = choose|j: int|
                                0 <= j < paths@.len() && (#[trigger] paths@[j])@.effective_trust
                                    == spec_effective_trust(spec_hop_levels(w), damping) && (
                                #[trigger] paths@[j])@.depth == w.len();
                            assert(b@.effective_trust >= paths@[j]@.effective_trust);
                        }
                        assert forall|w: Seq<TrustPathHopView>|
                            #[trigger] spec_admissible_walk(
                                self.store,
                                from@,
                                to@,
                                w,
                                damping,
                                maxd,
                                threshold,
                            ) && spec_effective_trust(spec_hop_levels(w), damping)
                            == b@.effective_trust implies b@.depth <= w.len() by {
                            assert(spec_walk_covered(w, damping, paths@));
                            let j = choose|j: int|
                                0 <= j < paths@.len() && (#[trigger] paths@[j])@.effective_trust
                                    == spec_effective_trust(spec_hop_levels(w), damping) && (
                                #[trigger] paths@[j])@.depth == w.len();
                            assert(b@ == paths@[0]@);
                            if j > 0 {
                                assert(paths@[0].effective_trust == paths@[j].effective_trust);
                                assert(paths@[0]@.depth <= paths@[j]@.depth);
                            }
                        }
                    },
                    None => {
                        assert(paths@.len() == 0);
                        assert forall|w: Seq<TrustPathHopView>|
                            !(#[trigger] spec_admissible_walk(
                                self.store,
                                from@,
                                to@,
                                w,
                                damping,
                                maxd,
                                threshold,
                            )) by {
                            if spec_admissible_walk(
                                self.store,
                                from@,
                                to@,
                                w,
                                damping,
                                maxd,
                                threshold,
                            ) {
                                assert(spec_walk_covered(w, damping, paths@));
                                let j = choose|j: int|
                                    0 <= j < paths@.len() && (
                                    #[trigger] paths@[j])@.effective_trust
                                        == spec_effective_trust(spec_hop_levels(w), damping) && (
                                    #[trigger] paths@[j])@.depth == w.len();
                                assert(false);
                            }
                        }
                    },
                }
                match spec_get(self.store.agents@, from@.entity) {
                    Some(a) => {
                        match &best {
                            Some(b) => {
                                assert forall|k: int|
                                    0 <= k < a@.trust.trusts.len() && (
                                    #[trigger] a@.trust.trusts[k]).agent.entity == to@.entity && (
                                    a@.trust.trusts[k].trust
                                        >= self.config.min_trust_threshold as int
                                        || a@.trust.trusts[k].trust <= -(
                                    self.config.min_trust_threshold as int)) implies b@
                                    .effective_trust >= a@.trust.trusts[k].trust by {
                                    let j0 = choose|j0: int|
                                        0 <= j0 < paths@.len() && (
                                        #[trigger] paths@[j0])@.effective_trust == a@.trust.trusts[k].trust;
                                    assert(b@.effective_trust >= paths@[j0]@.effective_trust);
                                }
                            },
                            None => {
                                assert(paths@.len() == 0);
                                if spec_direct_edge_to(
                                    self.store,
                                    from@.entity,
                                    to@.entity,
                                    self.config.min_trust_threshold as int,
                                ) {
                                    let k0 = choose|k0: int|
                                        0 <= k0 < a@.trust.trusts.len() && (
                                        #[trigger] a@.trust.trusts[k0]).agent.entity == to@.entity
                                            && (a@.trust.trusts[k0].trust
                                            >= self.config.min_trust_threshold as int
                                            || a@.trust.trusts[k0].trust <= -(
                                        self.config.min_trust_threshold as int));
                                    assert(exists|j: int|
                                        0 <= j < paths@.len() && (
                                        #[trigger] paths@[j])@.effective_trust == a@.trust.trusts[k0].trust);
                                    assert(false);
                                }
                            },
                        }
                    },
                    None => {},
                }
            }
        }
        Ok(best)
    }

    /// The trust score of `entity` from `viewer`'s perspective: the best
    /// path's effective trust with a path count of one, or the neutral
    /// zero score when no path exists.
    pub fn calculate_trust_score(&self, entity: &Address, viewer: &Address) -> (r: HubResult<
        TrustScore,
    >)
        requires
            self.store.wf(),
            self.config.wf(),
        ensures
            r is Err <==> (viewer@ != entity@ && viewer@.domain != Domain::Agent),
            match r {
                Ok(s) => {
                    &&& s@.entity == entity@
                    &&& s@.viewer == viewer@
                    &&& -(SCALE as int) <= s@.score <= SCALE as int
                    &&& match s@.best_path {
                        Some(p) => s@.path_count == 1 && s@.score == crate::agent::spec_clamp(
                            p.effective_trust,
                            -(SCALE as int),
                            SCALE as int,
                        ) && (viewer@ != entity@ ==> spec_path_ok(
                            self.store,
                            viewer@,
                            entity@,
                            p,
                            self.config.damping_factor as int,
                            self.config.max_depth as int,
                        )),
                        None => s@.path_count == 0 && s@.score == 0 && viewer@ != entity@,
                    }
                    &&& (viewer@ == entity@ ==> s@.score == SCALE as int && s@.path_count == 1)
                },
                Err(e) => e matches HubError::ValidationError(m) && m@
                    == "Trust paths must start from an agent"@,
            },
    {
        match self.find_best_path(viewer, entity) {
            Err(e) => Err(e),
            Ok(Some(path)) => {
                let eff = path.effective_trust;
                proof {
                    if viewer@ != entity@ {
                        reveal(spec_path_ok);
                    }
                }
                Ok(
                    TrustScore::new(entity.clone(), viewer.clone(), eff, 1).with_best_path(path),
                )
            },
            Ok(None) => Ok(TrustScore::neutral(entity.clone(), viewer.clone())),
        }
    }

    /// The trust level `from` records directly for `to`, if any; only
    /// agents record trust.
    pub fn get_direct_trust(&self, from: &Address, to: &Address) -> (r: HubResult<Option<i64>>)
        ensures
            match r {
                Ok(opt) => {
                    &&& (from@.domain != Domain::Agent ==> opt is None)
                    &&& (from@.domain == Domain::Agent ==> match spec_get(
                        self.store.agents@,
                        from@.entity,
                    ) {
                        Some(a) => match spec_direct_trust(a@.trust.trusts, to@.entity) {
                            Some(level) => opt matches Some(l) && l as int == level,
                            None => opt is None,
                        },
                        None => opt is None,
                    })
                },
                Err(_) => false,
            },
    {
        if !(from.domain == Domain::Agent) {
            return Ok(None);
        }
        let agent = match self.store.get_agent(from.entity.as_str()) {
            Some(a) => a,
            None => {
                return Ok(None);
            },
        };
        let n = agent.trust.trusts.len();
        let mut i: usize = 0;
        assert(agent@.trust.trusts.skip(0) == agent@.trust.trusts);
        while i < n
            invariant
                i <= n,
                n == agent.trust.trusts@.len(),
                agent@.trust.trusts.len() == n,
                from@.domain == Domain::Agent,
                (spec_get(self.store.agents@, from@.entity) matches Some(st) && st@ == agent@),
                spec_direct_trust(agent@.trust.trusts, to@.entity) == spec_direct_trust(
                    agent@.trust.trusts.skip(i as int),
                    to@.entity,
                ),
            decreases n - i,
        {
            proof {
                assert(agent@.trust.trusts.skip(i as int)[0] == agent@.trust.trusts[i as int]);
                assert(agent@.trust.trusts.skip(i as int).drop_first() =~= agent@.trust.trusts.skip(
                    i as int + 1,
                ));
            }
            if str_eq(agent.trust.trusts[i].agent.entity.as_str(), to.entity.as_str()) {
                return Ok(Some(agent.trust.trusts[i].trust));
            }
            i += 1;
        }
        proof {
            assert(agent@.trust.trusts.skip(n as int)
                =~= Seq::<crate::agent::TrustView>::empty());
        }
        Ok(None)
    }
}

/// A node of an exported trust graph.
#[derive(Debug)]
pub struct TrustGraphNode {
    pub address: Address,
    pub description: String,
    pub depth: u8,
}

/// An edge of an exported trust graph.
#[derive(Debug)]
pub struct TrustGraphEdge {
    pub from: Address,
    pub to: Address,
    /// Trust level in fixed-point millionths of `[-1, 1]`.
    pub trust_level: i64,
}

/// A trust graph cut out around a center for visualization.
#[derive(Debug)]
pub struct TrustGraph {
    pub nodes: Vec<TrustGraphNode>,
    pub edges: Vec<TrustGraphEdge>,
}

/// Whether the graph already carries a node for the entity.
pub open spec fn spec_has_graph_node(nodes: Seq<TrustGraphNode>, entity: Seq<char>) -> bool {
    exists|k: int| 0 <= k < nodes.len() && (#[trigger] nodes[k]).address@.entity == entity
}

/// Whether a frontier carries an address with the entity.
pub open spec fn spec_frontier_has(frontier: Seq<Address>, entity: Seq<char>) -> bool {
    exists|k: int| 0 <= k < frontier.len() && (#[trigger] frontier[k])@.entity == entity
}

/// Whether the edge list carries this stored edge of `from`.
pub open spec fn spec_graph_has_edge(
    edges: Seq<TrustGraphEdge>,
    from: AddressView,
    tv: crate::agent::TrustView,
) -> bool {
    exists|m: int|
        0 <= m < edges.len() && (#[trigger] edges[m]).from@ == from && edges[m].to@ == tv.agent
            && edges[m].trust_level as int == tv.trust
}

/// Every node's full stored edge set appears in the edge list.
pub open spec fn spec_graph_edges_complete(
    store: EntityStore,
    nodes: Seq<TrustGraphNode>,
    edges: Seq<TrustGraphEdge>,
) -> bool {
    forall|k: int|
        0 <= k < nodes.len() ==> match spec_get(store.agents@, (#[trigger] nodes[k]).address@.entity) {
            Some(a) => forall|t: int|
                0 <= t < a@.trust.trusts.len() ==> spec_graph_has_edge(
                    edges,
                    nodes[k].address@,
                    #[trigger] a@.trust.trusts[t],
                ),
            None => false,
        }
}

/// Every stored agent the node points at appears among the nodes.
pub open spec fn spec_node_targets_settled(
    store: EntityStore,
    nodes: Seq<TrustGraphNode>,
    node: TrustGraphNode,
) -> bool {
    match spec_get(store.agents@, node.address@.entity) {
        Some(a) => forall|t: int|
            0 <= t < a@.trust.trusts.len() && (#[trigger] a@.trust.trusts[t]).agent.domain
                == Domain::Agent && spec_has_key(store.agents@, a@.trust.trusts[t].agent.entity)
                ==> spec_has_graph_node(nodes, a@.trust.trusts[t].agent.entity),
        None => false,
    }
}

/// Every stored agent the node points at appears among the nodes or waits
/// in the frontier.
pub open spec fn spec_node_targets_pending(
    store: EntityStore,
    nodes: Seq<TrustGraphNode>,
    frontier: Seq<Address>,
    node: TrustGraphNode,
) -> bool {
    match spec_get(store.agents@, node.address@.entity) {
        Some(a) => forall|t: int|
            0 <= t < a@.trust.trusts.len() && (#[trigger] a@.trust.trusts[t]).agent.domain
                == Domain::Agent && spec_has_key(store.agents@, a@.trust.trusts[t].agent.entity)
                ==> (spec_has_graph_node(nodes, a@.trust.trusts[t].agent.entity)
                || spec_frontier_has(frontier, a@.trust.trusts[t].agent.entity)),
        None => false,
    }
}

/// A node set extended at the end keeps every membership fact.
proof fn lemma_has_node_preserved(
    nodes1: Seq<TrustGraphNode>,
    nodes2: Seq<TrustGraphNode>,
    entity: Seq<char>,
)
    requires
        nodes2.len() >= nodes1.len(),
        forall|k: int| 0 <= k < nodes1.len() ==> #[trigger] nodes2[k] == nodes1[k],
        spec_has_graph_node(nodes1, entity),
    ensures
        spec_has_graph_node(nodes2, entity),
{
    let k = choose|k: int|
        0 <= k < nodes1.len() && (#[trigger] nodes1[k]).address@.entity == entity;
    assert(nodes2[k] == nodes1[k]);
}

/// A frontier extended at the end keeps every membership fact.
proof fn lemma_frontier_has_preserved(f1: Seq<Address>, f2: Seq<Address>, entity: Seq<char>)
    requires
        f2.len() >= f1.len(),
        forall|k: int| 0 <= k < f1.len() ==> #[trigger] f2[k] == f1[k],
        spec_frontier_has(f1, entity),
    ensures
        spec_frontier_has(f2, entity),
{
    let k = choose|k: int| 0 <= k < f1.len() && (#[trigger] f1[k])@.entity == entity;
    assert(f2[k] == f1[k]);
}

/// Pending targets stay pending when nodes and frontier only grow.
proof fn lemma_pending_preserved(
    store: EntityStore,
    nodes1: Seq<TrustGraphNode>,
    nodes2: Seq<TrustGraphNode>,
    f1: Seq<Address>,
    f2: Seq<Address>,
    node: TrustGraphNode,
)
    requires
        spec_node_targets_pending(store, nodes1, f1, node),
        nodes2.len() >= nodes1.len(),
        forall|k: int| 0 <= k < nodes1.len() ==> #[trigger] nodes2[k] == nodes1[k],
        f2.len() >= f1.len(),
        forall|k: int| 0 <= k < f1.len() ==> #[trigger] f2[k] == f1[k],
    ensures
        spec_node_targets_pending(store, nodes2, f2, node),
{
    match spec_get(store.agents@, node.address@.entity) {
        Some(a) => {
            assert forall|t: int|
                0 <= t < a@.trust.trusts.len() && (#[trigger] a@.trust.trusts[t]).agent.domain
                    == Domain::Agent && spec_has_key(
                    store.agents@,
                    a@.trust.trusts[t].agent.entity,
                ) implies (spec_has_graph_node(nodes2, a@.trust.trusts[t].agent.entity)
                || spec_frontier_has(f2, a@.trust.trusts[t].agent.entity)) by {
                if spec_has_graph_node(nodes1, a@.trust.trusts[t].agent.entity) {
                    lemma_has_node_preserved(nodes1, nodes2, a@.trust.trusts[t].agent.entity);
                } else {
                    lemma_frontier_has_preserved(f1, f2, a@.trust.trusts[t].agent.entity);
                }
            }
        },
        None => {},
    }
}

impl TrustService {
    /// The trust graph within `max_depth` hops of a center.
    ///
    /// Every node is a stored agent carrying its description, node entities
    /// never repeat, and every edge is a stored edge of its source node.
    /// Completeness: the center (when stored) is among the nodes; every
    /// node's whole stored edge set is among the edges; and for every node
    /// short of the depth bound, each of its stored agent targets is itself
    /// among the nodes.
    pub fn build_trust_graph(&self, center: &Address, max_depth: u8) -> (r: HubResult<TrustGraph>)
        requires
            self.store.wf(),
        ensures
            match r {
                Ok(g) => {
                    &&& forall|k: int|
                        0 <= k < g.nodes@.len() ==> match spec_get(
                            self.store.agents@,
                            (#[trigger] g.nodes@[k]).address@.entity,
                        ) {
                            Some(a) => g.nodes@[k].description@ == a@.description
                                && g.nodes@[k].depth <= max_depth,
                            None => false,
                        }
                    &&& (forall|k1: int, k2: int|
                        0 <= k1 < k2 < g.nodes@.len() ==> (
                        #[trigger] g.nodes@[k1]).address@.entity != (
                        #[trigger] g.nodes@[k2]).address@.entity)
                    &&& forall|k: int|
                        0 <= k < g.edges@.len() ==> spec_edge(
                            self.store,
                            (#[trigger] g.edges@[k]).from@.entity,
                            crate::trust::TrustPathHopView {
                                agent: g.edges@[k].to@,
                                trust_level: g.edges@[k].trust_level as int,
                            },
                        )
                    &&& (spec_has_key(self.store.agents@, center@.entity)
                        ==> spec_has_graph_node(g.nodes@, center@.entity))
                    &&& spec_graph_edges_complete(self.store, g.nodes@, g.edges@)
                    &&& forall|k: int|
                        0 <= k < g.nodes@.len() && (#[trigger] g.nodes@[k]).depth < max_depth
                            ==> spec_node_targets_settled(self.store, g.nodes@, g.nodes@[k])
                },
                Err(_) => false,
            },
    {
        let mut nodes: Vec<TrustGraphNode> = Vec::new();
        let mut edges: Vec<TrustGraphEdge> = Vec::new();
        let mut frontier: Vec<Address> = Vec::new();
        frontier.push(center.clone());
        let mut depth: u8 = 0;
        loop
            invariant_except_break
                depth == 0 ==> nodes@.len() == 0 && frontier@.len() == 1 && frontier@[0]@
                    == center@,
                depth > 0 ==> (spec_has_key(self.store.agents@, center@.entity)
                    ==> spec_has_graph_node(nodes@, center@.entity)),
                forall|k: int|
                    0 <= k < nodes@.len() ==> match spec_get(
                        self.store.agents@,
                        (#[trigger] nodes@[k]).address@.entity,
                    ) {
                        Some(a) => nodes@[k].description@ == a@.description && nodes@[k].depth
                            <= max_depth && nodes@[k].depth < depth,
                        None => false,
                    },
                forall|k: int|
                    0 <= k < nodes@.len() ==> spec_node_targets_pending(
                        self.store,
                        nodes@,
                        frontier@,
                        #[trigger] nodes@[k],
                    ),
            invariant
                depth <= max_depth,
                self.store.wf(),
                forall|k1: int, k2: int|
                    0 <= k1 < k2 < nodes@.len() ==> (#[trigger] nodes@[k1]).address@.entity != (
                    #[trigger] nodes@[k2]).address@.entity,
                forall|k: int|
                    0 <= k < edges@.len() ==> spec_edge(
                        self.store,
                        (#[trigger] edges@[k]).from@.entity,
                        crate::trust::TrustPathHopView {
                            agent: edges@[k].to@,
                            trust_level: edges@[k].trust_level as int,
                        },
                    ),
                spec_graph_edges_complete(self.store, nodes@, edges@),
            ensures
                depth <= max_depth,
                spec_has_key(self.store.agents@, center@.entity) ==> spec_has_graph_node(
                    nodes@,
                    center@.entity,
                ),
                forall|k: int|
                    0 <= k < nodes@.len() ==> match spec_get(
                        self.store.agents@,
                        (#[trigger] nodes@[k]).address@.entity,
                    ) {
                        Some(a) => nodes@[k].description@ == a@.description && nodes@[k].depth
                            <= max_depth,
                        None => false,
                    },
                forall|k1: int, k2: int|
                    0 <= k1 < k2 < nodes@.len() ==> (#[trigger] nodes@[k1]).address@.entity != (
                    #[trigger] nodes@[k2]).address@.entity,
                forall|k: int|
                    0 <= k < edges@.len() ==> spec_edge(
                        self.store,
                        (#[trigger] edges@[k]).from@.entity,
                        crate::trust::TrustPathHopView {
                            agent: edges@[k].to@,
                            trust_level: edges@[k].trust_level as int,
                        },
                    ),
                spec_graph_edges_complete(self.store, nodes@, edges@),
                forall|k: int|
                    0 <= k < nodes@.len() && (#[trigger] nodes@[k]).depth < max_depth
                        ==> spec_node_targets_settled(self.store, nodes@, nodes@[k]),
            decreases max_depth - depth,
        {
            let mut next: Vec<Address> = Vec::new();
            let fl = frontier.len();
            let mut i: usize = 0;
            while i < fl
                invariant
                    i <= fl,
                    fl == frontier@.len(),
                    depth <= max_depth,
                    self.store.wf(),
                    depth == 0 ==> fl == 1 && frontier@[0]@ == center@,
                    depth > 0 ==> (spec_has_key(self.store.agents@, center@.entity)
                        ==> spec_has_graph_node(nodes@, center@.entity)),
                    forall|j: int|
                        0 <= j < i && spec_has_key(
                            self.store.agents@,
                            (#[trigger] frontier@[j])@.entity,
                        ) ==> spec_has_graph_node(nodes@, frontier@[j]@.entity),
                    forall|k: int|
                        0 <= k < nodes@.len() ==> match spec_get(
                            self.store.agents@,
                            (#[trigger] nodes@[k]).address@.entity,
                        ) {
                            Some(a) => nodes@[k].description@ == a@.description && nodes@[k].depth
                                <= max_depth && nodes@[k].depth <= depth,
                            None => false,
                        },
                    forall|k1: int, k2: int|
                        0 <= k1 < k2 < nodes@.len() ==> (#[trigger] nodes@[k1]).address@.entity
                            != (#[trigger] nodes@[k2]).address@.entity,
                    forall|k: int|
                        0 <= k < edges@.len() ==> spec_edge(
                            self.store,
                            (#[trigger] edges@[k]).from@.entity,
                            crate::trust::TrustPathHopView {
                                agent: edges@[k].to@,
                                trust_level: edges@[k].trust_level as int,
                            },
                        ),
                    spec_graph_edges_complete(self.store, nodes@, edges@),
                    forall|k: int|
                        0 <= k < nodes@.len() && (#[trigger] nodes@[k]).depth < depth
                            ==> spec_node_targets_pending(
                            self.store,
                            nodes@,
                            frontier@,
                            nodes@[k],
                        ),
                    forall|k: int|
                        0 <= k < nodes@.len() && (#[trigger] nodes@[k]).depth == depth
                            ==> spec_node_targets_pending(self.store, nodes@, next@, nodes@[k]),
                decreases fl - i,
            {
                let current = &frontier[i];
                let ghost pre_nodes = nodes@;
                let ghost pre_layer_next = next@;
                let mut seen = false;
                let nn = nodes.len();
                let mut v: usize = 0;
                while v < nn
                    invariant
                        v <= nn,
                        nn == nodes@.len(),
                        seen ==> exists|k: int|
                            0 <= k < nodes@.len() && (#[trigger] nodes@[k]).address@.entity
                                == current@.entity,
                        !seen ==> forall|k: int|
                            0 <= k < v ==> (#[trigger] nodes@[k]).address@.entity
                                != current@.entity,
                    decreases nn - v,
                {
                    if str_eq(nodes[v].address.entity.as_str(), current.entity.as_str()) {
                        proof {
                            assert(nodes@[v as int].address@.entity == current@.entity);
                        }
                        seen = true;
                        v = nn;
                    } else {
                        v += 1;
                    }
                }
                if !seen {
                    match self.store.get_agent(current.entity.as_str()) {
                        Some(agent) => {
                            let ghost pre_next = next@;
                            let tn = agent.trust.trusts.len();
                            let mut t: usize = 0;
                            while t < tn
                                invariant
                                    t <= tn,
                                    tn == agent.trust.trusts@.len(),
                                    self.store.wf(),
                                    spec_get(self.store.agents@, current@.entity) matches Some(st)
                                        && st@ == agent@,
                                    next@.len() >= pre_next.len(),
                                    forall|m: int|
                                        0 <= m < pre_next.len() ==> (#[trigger] next@[m])
                                            == pre_next[m],
                                    forall|k: int|
                                        0 <= k < edges@.len() ==> spec_edge(
                                            self.store,
                                            (#[trigger] edges@[k]).from@.entity,
                                            crate::trust::TrustPathHopView {
                                                agent: edges@[k].to@,
                                                trust_level: edges@[k].trust_level as int,
                                            },
                                        ),
                                    spec_graph_edges_complete(self.store, nodes@, edges@),
                                    forall|t2: int|
                                        0 <= t2 < t ==> spec_graph_has_edge(
                                            edges@,
                                            current@,
                                            #[trigger] agent@.trust.trusts[t2],
                                        ),
                                    forall|t2: int|
                                        0 <= t2 < t && (
                                        #[trigger] agent@.trust.trusts[t2]).agent.domain
                                            == Domain::Agent ==> spec_frontier_has(
                                            next@,
                                            agent@.trust.trusts[t2].agent.entity,
                                        ),
                                decreases tn - t,
                            {
                                let trustee = &agent.trust.trusts[t].agent;
                                let level = agent.trust.trusts[t].trust;
                                proof {
                                    reveal(spec_edge);
                                    assert(agent@.trust.trusts[t as int].agent == trustee@);
                                }
                                let ghost pre_edges = edges@;
                                edges.push(
                                    TrustGraphEdge {
                                        from: current.clone(),
                                        to: trustee.clone(),
                                        trust_level: level,
                                    },
                                );
                                proof {
                                    assert(edges@[edges@.len() - 1].from@ == current@);
                                    assert forall|k: int|
                                        0 <= k < nodes@.len() implies match spec_get(
                                        self.store.agents@,
                                        (#[trigger] nodes@[k]).address@.entity,
                                    ) {
                                        Some(a) => forall|t2: int|
                                            0 <= t2 < a@.trust.trusts.len()
                                                ==> spec_graph_has_edge(
                                                edges@,
                                                nodes@[k].address@,
                                                #[trigger] a@.trust.trusts[t2],
                                            ),
                                        None => false,
                                    } by {
                                        match spec_get(
                                            self.store.agents@,
                                            nodes@[k].address@.entity,
                                        ) {
                                            Some(a) => {
                                                assert forall|t2: int|
                                                    0 <= t2 < a@.trust.trusts.len()
                                                        implies spec_graph_has_edge(
                                                    edges@,
                                                    nodes@[k].address@,
                                                    #[trigger] a@.trust.trusts[t2],
                                                ) by {
                                                    let m = choose|m: int|
                                                        0 <= m < pre_edges.len() && (
                                                        #[trigger] pre_edges[m]).from@
                                                            == nodes@[k].address@
                                                            && pre_edges[m].to@
                                                            == a@.trust.trusts[t2].agent
                                                            && pre_edges[m].trust_level as int
                                                            == a@.trust.trusts[t2].trust;
                                                    assert(edges@[m] == pre_edges[m]);
                                                }
                                            },
                                            None => {},
                                        }
                                    }
                                }
                                let ghost next_before = next@;
                                if trustee.domain == Domain::Agent {
                                    next.push(trustee.clone());
                                    proof {
                                        assert(next@[next@.len() - 1]@.entity == trustee@.entity);
                                    }
                                }
                                proof {
                                    assert forall|t2: int|
                                        0 <= t2 < t + 1 && (
                                        #[trigger] agent@.trust.trusts[t2]).agent.domain
                                            == Domain::Agent implies spec_frontier_has(
                                        next@,
                                        agent@.trust.trusts[t2].agent.entity,
                                    ) by {
                                        if t2 < t {
                                            lemma_frontier_has_preserved(
                                                next_before,
                                                next@,
                                                agent@.trust.trusts[t2].agent.entity,
                                            );
                                        } else {
                                            assert(next@[next@.len() - 1]@.entity
                                                == trustee@.entity);
                                        }
                                    }
                                    assert forall|t2: int|
                                        0 <= t2 < t + 1 implies spec_graph_has_edge(
                                        edges@,
                                        current@,
                                        #[trigger] agent@.trust.trusts[t2],
                                    ) by {
                                        if t2 < t {
                                            let m = choose|m: int|
                                                0 <= m < pre_edges.len() && (
                                                #[trigger] pre_edges[m]).from@ == current@
                                                    && pre_edges[m].to@
                                                    == agent@.trust.trusts[t2].agent
                                                    && pre_edges[m].trust_level as int
                                                    == agent@.trust.trusts[t2].trust;
                                            assert(edges@[m] == pre_edges[m]);
                                        } else {
                                            assert(edges@[edges@.len() - 1].to@
                                                == agent@.trust.trusts[t2].agent);
                                        }
                                    }
                                }
                                t += 1;
                            }
                            let node = TrustGraphNode {
                                address: current.clone(),
                                description: agent.description.clone(),
                                depth,
                            };
                            proof {
                                assert(node.address@ == current@);
                            }
                            nodes.push(node);
                            proof {
                                assert(nodes@[nodes@.len() - 1].address@.entity
                                    == current@.entity);
                                assert(spec_node_targets_pending(
                                    self.store,
                                    nodes@,
                                    next@,
                                    nodes@[nodes@.len() - 1],
                                ));
                                // the earlier nodes keep their pending facts
                                // as nodes and queue only grew
                                assert forall|k: int|
                                    0 <= k < nodes@.len() && (#[trigger] nodes@[k]).depth < depth
                                        implies spec_node_targets_pending(
                                    self.store,
                                    nodes@,
                                    frontier@,
                                    nodes@[k],
                                ) by {
                                    assert(nodes@[k] == pre_nodes[k]);
                                    lemma_pending_preserved(
                                        self.store,
                                        pre_nodes,
                                        nodes@,
                                        frontier@,
                                        frontier@,
                                        pre_nodes[k],
                                    );
                                }
                                assert forall|k: int|
                                    0 <= k < nodes@.len() && (#[trigger] nodes@[k]).depth == depth
                                        implies spec_node_targets_pending(
                                    self.store,
                                    nodes@,
                                    next@,
                                    nodes@[k],
                                ) by {
                                    if k < pre_nodes.len() {
                                        assert(nodes@[k] == pre_nodes[k]);
                                        lemma_pending_preserved(
                                            self.store,
                                            pre_nodes,
                                            nodes@,
                                            pre_layer_next,
                                            next@,
                                            pre_nodes[k],
                                        );
                                    }
                                }
                                if depth > 0 && spec_has_key(
                                    self.store.agents@,
                                    center@.entity,
                                ) {
                                    lemma_has_node_preserved(pre_nodes, nodes@, center@.entity);
                                }
                                // the processed frontier entries stay settled
                                assert forall|j: int|
                                    0 <= j < i + 1 && spec_has_key(
                                        self.store.agents@,
                                        (#[trigger] frontier@[j])@.entity,
                                    ) implies spec_has_graph_node(
                                    nodes@,
                                    frontier@[j]@.entity,
                                ) by {
                                    if j < i {
                                        lemma_has_node_preserved(
                                            pre_nodes,
                                            nodes@,
                                            frontier@[j]@.entity,
                                        );
                                    } else {
                                        assert(nodes@[nodes@.len() - 1].address@.entity
                                            == current@.entity);
                                    }
                                }
                            }
                        },
                        None => {
                            proof {
                                crate::store::lemma_get_has_key(
                                    self.store.agents@,
                                    current@.entity,
                                );
                                assert(!spec_has_key(self.store.agents@, current@.entity));
                            }
                        },
                    }
                } else {
                    proof {
                        assert(spec_has_graph_node(nodes@, current@.entity));
                    }
                }
                i += 1;
            }
            proof {
                // the whole frontier is settled: every stored entity in it
                // is now a node, so pending targets of earlier layers are
                // settled too
                assert forall|k: int|
                    0 <= k < nodes@.len() && (#[trigger] nodes@[k]).depth < depth
                        implies spec_node_targets_settled(self.store, nodes@, nodes@[k]) by {
                    match spec_get(self.store.agents@, nodes@[k].address@.entity) {
                        Some(a) => {
                            assert forall|t: int|
                                0 <= t < a@.trust.trusts.len() && (
                                #[trigger] a@.trust.trusts[t]).agent.domain == Domain::Agent
                                    && spec_has_key(
                                    self.store.agents@,
                                    a@.trust.trusts[t].agent.entity,
                                ) implies spec_has_graph_node(
                                nodes@,
                                a@.trust.trusts[t].agent.entity,
                            ) by {
                                if !spec_has_graph_node(nodes@, a@.trust.trusts[t].agent.entity) {
                                    let j = choose|j: int|
                                        0 <= j < frontier@.len() && (
                                        #[trigger] frontier@[j])@.entity
                                            == a@.trust.trusts[t].agent.entity;
                                    assert(spec_has_graph_node(nodes@, frontier@[j]@.entity));
                                }
                            }
                        },
                        None => {},
                    }
                }
            }
            proof {
                if spec_has_key(self.store.agents@, center@.entity) {
                    if depth == 0 {
                        assert(spec_has_graph_node(nodes@, frontier@[0]@.entity));
                    }
                }
            }
            if depth >= max_depth {
                break ;
            }
            if next.len() == 0 {
                proof {
                    assert forall|k: int|
                        0 <= k < nodes@.len() && (#[trigger] nodes@[k]).depth == depth
                            implies spec_node_targets_settled(self.store, nodes@, nodes@[k]) by {
                        assert(spec_node_targets_pending(
                            self.store,
                            nodes@,
                            next@,
                            nodes@[k],
                        ));
                    }
                }
                break ;
            }
            frontier = next;
            depth = depth + 1;
            proof {
                assert forall|k: int|
                    0 <= k < nodes@.len() implies spec_node_targets_pending(
                    self.store,
                    nodes@,
                    frontier@,
                    #[trigger] nodes@[k],
                ) by {
                    if nodes@[k].depth < depth - 1 {
                        assert(spec_node_targets_settled(self.store, nodes@, nodes@[k]));
                    } else {
                        assert(spec_node_targets_pending(
                            self.store,
                            nodes@,
                            frontier@,
                            nodes@[k],
                        ));
                    }
                }
            }
        }
        Ok(TrustGraph { nodes, edges })
    }
}

} // verus!
