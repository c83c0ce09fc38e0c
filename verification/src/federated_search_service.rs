//! The federated search coordinator: local search first, then — when the
//! caller asked for federation and the local page falls short — a merge of
//! peer answers, deduplicated, ranked, and cut to the page size. The peer
//! HTTP calls run outside; their replies are handed in.

use vstd::prelude::*;

use crate::entity_service::EntityService;
use crate::federation::{
    federated_search_merge, spec_fragment_views, spec_local_views, spec_merge_replies,
    spec_reply_sources, spec_result_views, spec_results_nodup, spec_results_sorted,
    spec_source_views, FederatedSearchResponse, PeerReply, SearchSourceView,
};
use crate::store::{lemma_search_nodup, lemma_sorted_nodup, spec_search};

verus! {

/// Whether federation is needed after the local pass, and how many more
/// results are wanted from peers.
pub fn federation_plan(
    local_count: usize,
    limit: usize,
    federate: bool,
    min_results: Option<usize>,
) -> (r: (bool, usize))
    ensures
        ({
            let min = match min_results {
                Some(m) => m as int,
                None => limit as int,
            };
            &&& r.0 == (federate && (local_count as int) < min)
            &&& r.1 == if min - local_count >= 0 {
                min - local_count
            } else {
                0
            }
        }),
{
    let min = match min_results {
        Some(m) => m,
        None => limit,
    };
    let need = federate && local_count < min;
    let remaining = if min >= local_count {
        min - local_count
    } else {
        0
    };
    (need, remaining)
}

/// A federated search over this hub's store and the peers' replies.
///
/// The local page is searched first (its size clamped to 100). Without the
/// federation flag, or when the local page already meets the minimum, or
/// with no peers to ask, the answer holds exactly the local results tagged
/// with this hub at full relevance, with the single local source entry.
/// Otherwise the successful peers' fragments are merged in exactly per
/// [`spec_merge_replies`] — unseen identifiers only, each tagged with its
/// peer at relevance 0.9 — the sources list the local count and then each
/// successful peer's reply count, and the whole is cut to the page size.
/// Locals in search order followed by remote entries in merge order is the
/// stable relevance-descending order.
pub fn search(
    entity_service: &EntityService,
    local_hub_id: &str,
    query: &str,
    limit: usize,
    federate: bool,
    min_results: Option<usize>,
    peer_replies: Vec<PeerReply>,
) -> (r: FederatedSearchResponse)
    requires
        entity_service.store.wf(),
    ensures
        spec_results_nodup(r.results@),
        spec_results_sorted(r.results@),
        r.total == r.results@.len(),
        r.federated ==> r.results@.len() <= limit,
        ({
            let capped = if limit <= 100 {
                limit as int
            } else {
                100
            };
            let found = spec_search(entity_service.store.fragments@, query@, capped);
            let locals = spec_local_views(spec_fragment_views(found), local_hub_id@);
            let min = match min_results {
                Some(m) => m as int,
                None => limit as int,
            };
            &&& (r.federated <==> (federate && found.len() < min && peer_replies@.len() > 0))
            &&& (r.federated ==> ({
                let merged = spec_merge_replies(locals, peer_replies@);
                &&& spec_result_views(r.results@) == if merged.len() <= limit {
                    merged
                } else {
                    merged.subrange(0, limit as int)
                }
                &&& spec_source_views(r.sources@) == seq![
                    SearchSourceView { hub_id: local_hub_id@, count: found.len() as int },
                ] + spec_reply_sources(peer_replies@)
            }))
            &&& (!r.federated ==> spec_result_views(r.results@) == locals && spec_source_views(
                r.sources@,
            ) == seq![SearchSourceView { hub_id: local_hub_id@, count: found.len() as int }])
        }),
{
    let local_results = entity_service.search_fragments(query, limit);
    let ghost capped: int = if limit <= 100 {
        limit as int
    } else {
        100
    };
    let ghost found = spec_search(entity_service.store.fragments@, query@, capped);
    proof {
        lemma_sorted_nodup(entity_service.store.fragments@);
        lemma_search_nodup(entity_service.store.fragments@, query@, capped);
        assert forall|a: int, b: int|
            0 <= a < b < local_results@.len() implies (#[trigger] local_results@[a])@.uuid != (
        #[trigger] local_results@[b])@.uuid by {
            assert(local_results@[a]@ == found[a]@);
            assert(local_results@[b]@ == found[b]@);
            assert(found[a].uuid@ != found[b].uuid@);
        }
        assert(spec_fragment_views(local_results@) =~= spec_fragment_views(found));
    }
    let min = match min_results {
        Some(m) => m,
        None => limit,
    };
    let effective_min = if federate {
        min
    } else {
        0
    };
    let mut response = federated_search_merge(
        local_results,
        local_hub_id,
        effective_min,
        peer_replies,
    );
    if response.federated {
        let ghost pre = response.results@;
        if response.results.len() > limit {
            response.results.truncate(limit);
            proof {
                assert(response.results@ =~= pre.subrange(0, limit as int));
                assert(spec_result_views(response.results@) =~= spec_result_views(pre).subrange(
                    0,
                    limit as int,
                ));
                assert forall|a: int, b: int|
                    0 <= a < b < response.results@.len() implies (#[trigger] response.results@[
                    a]).fragment@.uuid != (#[trigger] response.results@[b]).fragment@.uuid by {
                    assert(response.results@[a] == pre[a]);
                    assert(response.results@[b] == pre[b]);
                }
                assert forall|a: int, b: int|
                    0 <= a < b < response.results@.len() implies (#[trigger] response.results@[
                    a]).relevance_score >= (#[trigger] response.results@[b]).relevance_score by {
                    assert(response.results@[a] == pre[a]);
                    assert(response.results@[b] == pre[b]);
                }
            }
        }
        response.total = response.results.len();
    }
    response
}

} // verus!
