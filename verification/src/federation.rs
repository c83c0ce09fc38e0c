//! Federated search: merging local results with peer hubs' answers.
//!
//! The merge is pinned exactly: local fragments come first, in order, at
//! full relevance and tagged with this hub; then, peer by peer in reply
//! order, each successful peer's fragments whose identifiers were not seen
//! before, tagged with that peer and relevance 0.9. Because every local
//! entry outranks every remote one, that order *is* the stable
//! relevance-descending order. The HTTP fan-out itself runs outside and
//! hands each peer's reply in.

use vstd::prelude::*;

use crate::codec::SCALE;
use crate::fragment::{Fragment, FragmentView};
use crate::text::{str_eq, to_owned_string};

verus! {

/// The relevance tag of a remote result, fixed-point millionths.
pub const REMOTE_RELEVANCE: i64 = 900_000;

/// The mathematical value of a [`SearchResult`].
pub struct SearchResultView {
    pub fragment: FragmentView,
    pub source_hub_id: Seq<char>,
    pub relevance_score: int,
}

/// One search result with where it came from.
#[derive(Debug)]
pub struct SearchResult {
    pub fragment: Fragment,
    pub source_hub_id: String,
    /// Relevance in fixed-point millionths: local results carry 1, remote
    /// ones 0.9.
    pub relevance_score: i64,
}

impl View for SearchResult {
    type V = SearchResultView;

    open spec fn view(&self) -> SearchResultView {
        SearchResultView {
            fragment: self.fragment@,
            source_hub_id: self.source_hub_id@,
            relevance_score: self.relevance_score as int,
        }
    }
}

impl Clone for SearchResult {
    /// A copy with the same value.
    fn clone(&self) -> (r: Self)
        ensures
            r@ == self@,
    {
        SearchResult {
            fragment: self.fragment.clone(),
            source_hub_id: self.source_hub_id.clone(),
            relevance_score: self.relevance_score,
        }
    }
}

/// How many results one hub contributed.
#[derive(Debug)]
pub struct SearchSource {
    pub hub_id: String,
    pub count: usize,
}

/// The mathematical value of a [`SearchSource`]: hub identifier and count.
pub struct SearchSourceView {
    pub hub_id: Seq<char>,
    pub count: int,
}

impl View for SearchSource {
    type V = SearchSourceView;

    open spec fn view(&self) -> SearchSourceView {
        SearchSourceView { hub_id: self.hub_id@, count: self.count as int }
    }
}

/// A federated search's merged answer.
#[derive(Debug)]
pub struct FederatedSearchResponse {
    pub results: Vec<SearchResult>,
    pub sources: Vec<SearchSource>,
    pub federated: bool,
    pub total: usize,
}

/// One peer's reply: its fragments, or nothing if the call failed.
#[derive(Debug)]
pub struct PeerReply {
    pub hub_id: String,
    pub fragments: Option<Vec<Fragment>>,
}

/// The values of a result list.
pub open spec fn spec_result_views(rs: Seq<SearchResult>) -> Seq<SearchResultView> {
    rs.map_values(|r: SearchResult| r@)
}

/// The values of a source list.
pub open spec fn spec_source_views(ss: Seq<SearchSource>) -> Seq<SearchSourceView> {
    ss.map_values(|s: SearchSource| s@)
}

/// The values of a fragment list.
pub open spec fn spec_fragment_views(fs: Seq<Fragment>) -> Seq<FragmentView> {
    fs.map_values(|f: Fragment| f@)
}

/// Local fragments as results: in order, tagged with this hub at full
/// relevance.
pub open spec fn spec_local_views(fvs: Seq<FragmentView>, hub: Seq<char>) -> Seq<
    SearchResultView,
> {
    Seq::new(
        fvs.len(),
        |i: int|
            SearchResultView {
                fragment: fvs[i],
                source_hub_id: hub,
                relevance_score: SCALE as int,
            },
    )
}

/// Whether some accumulated result already carries the identifier.
pub open spec fn spec_acc_has_uuid(acc: Seq<SearchResultView>, uuid: Seq<char>) -> bool {
    exists|k: int| 0 <= k < acc.len() && (#[trigger] acc[k]).fragment.uuid == uuid
}

/// Appending one peer's fragments: in reply order, each fragment whose
/// identifier is not yet present is added, tagged with the peer at remote
/// relevance; the rest are dropped.
pub open spec fn spec_append_peer(
    acc: Seq<SearchResultView>,
    hub: Seq<char>,
    fvs: Seq<FragmentView>,
) -> Seq<SearchResultView>
    decreases fvs.len(),
{
    if fvs.len() == 0 {
        acc
    } else if spec_acc_has_uuid(acc, fvs[0].uuid) {
        spec_append_peer(acc, hub, fvs.drop_first())
    } else {
        spec_append_peer(
            acc.push(
                SearchResultView {
                    fragment: fvs[0],
                    source_hub_id: hub,
                    relevance_score: REMOTE_RELEVANCE as int,
                },
            ),
            hub,
            fvs.drop_first(),
        )
    }
}

/// The whole merge: every successful peer's fragments appended in reply
/// order, failed peers skipped.
pub open spec fn spec_merge_replies(
    acc: Seq<SearchResultView>,
    replies: Seq<PeerReply>,
) -> Seq<SearchResultView>
    decreases replies.len(),
{
    if replies.len() == 0 {
        acc
    } else {
        match replies[0].fragments {
            Some(fs) => spec_merge_replies(
                spec_append_peer(acc, replies[0].hub_id@, spec_fragment_views(fs@)),
                replies.drop_first(),
            ),
            None => spec_merge_replies(acc, replies.drop_first()),
        }
    }
}

/// The source entries: one per successful peer, in reply order, counting
/// the reply as given (before deduplication).
pub open spec fn spec_reply_sources(replies: Seq<PeerReply>) -> Seq<SearchSourceView>
    decreases replies.len(),
{
    if replies.len() == 0 {
        Seq::empty()
    } else {
        match replies[0].fragments {
            Some(fs) => seq![
                SearchSourceView { hub_id: replies[0].hub_id@, count: fs@.len() as int },
            ] + spec_reply_sources(replies.drop_first()),
            None => spec_reply_sources(replies.drop_first()),
        }
    }
}

/// No two results carry the same fragment identifier.
pub open spec fn spec_results_nodup(rs: Seq<SearchResult>) -> bool {
    forall|a: int, b: int|
        0 <= a < b < rs.len() ==> (#[trigger] rs[a]).fragment@.uuid != (
        #[trigger] rs[b]).fragment@.uuid
}

/// No two fragments carry the same identifier.
pub open spec fn spec_fragments_nodup(fs: Seq<Fragment>) -> bool {
    forall|a: int, b: int|
        0 <= a < b < fs.len() ==> (#[trigger] fs[a])@.uuid != (#[trigger] fs[b])@.uuid
}

/// Results are ordered by weakly decreasing relevance.
pub open spec fn spec_results_sorted(rs: Seq<SearchResult>) -> bool {
    forall|a: int, b: int|
        0 <= a < b < rs.len() ==> (#[trigger] rs[a]).relevance_score >= (
        #[trigger] rs[b]).relevance_score
}

/// Whether some result already carries the fragment identifier.
fn contains_uuid(rs: &Vec<SearchResult>, uuid: &str) -> (r: bool)
    ensures
        r == spec_acc_has_uuid(spec_result_views(rs@), uuid@),
{
    let n = rs.len();
    let mut k: usize = 0;
    while k < n
        invariant
            k <= n,
            n == rs@.len(),
            forall|j: int| 0 <= j < k ==> (#[trigger] rs@[j]).fragment@.uuid != uuid@,
        decreases n - k,
    {
        if str_eq(rs[k].fragment.uuid.as_str(), uuid) {
            assert(spec_result_views(rs@)[k as int].fragment.uuid == uuid@);
            return true;
        }
        k += 1;
    }
    proof {
        if spec_acc_has_uuid(spec_result_views(rs@), uuid@) {
            let k0 = choose|k0: int|
                0 <= k0 < spec_result_views(rs@).len() && (#[trigger] spec_result_views(
                    rs@,
                )[k0]).fragment.uuid == uuid@;
            assert(rs@[k0].fragment@.uuid == uuid@);
        }
    }
    false
}

/// Tag local fragments as results of this hub at full relevance.
fn tag_local_results(local: &Vec<Fragment>, local_hub_id: &str) -> (r: Vec<SearchResult>)
    ensures
        spec_result_views(r@) == spec_local_views(spec_fragment_views(local@), local_hub_id@),
        spec_fragments_nodup(local@) ==> spec_results_nodup(r@),
        forall|k: int|
            0 <= k < r@.len() ==> (#[trigger] r@[k]).relevance_score == SCALE as int,
{
    let n = local.len();
    let mut out: Vec<SearchResult> = Vec::new();
    let mut i: usize = 0;
    while i < n
        invariant
            i <= n,
            n == local@.len(),
            out@.len() == i,
            forall|k: int|
                0 <= k < i ==> (#[trigger] out@[k]).fragment@ == local@[k]@ && out@[
                    k].relevance_score == SCALE as int && out@[k].source_hub_id@ == local_hub_id@,
        decreases n - i,
    {
        out.push(
            SearchResult {
                fragment: local[i].clone(),
                source_hub_id: to_owned_string(local_hub_id),
                relevance_score: SCALE,
            },
        );
        i += 1;
    }
    proof {
        assert(spec_result_views(out@) =~= spec_local_views(
            spec_fragment_views(local@),
            local_hub_id@,
        ));
    }
    out
}

/// Append one peer's fragments, skipping every identifier already present;
/// deduplication is preserved and the appended entries are exactly
/// [`spec_append_peer`]'s.
fn merge_peer(results: &mut Vec<SearchResult>, hub_id: &str, fragments: &Vec<Fragment>)
    requires
        spec_results_nodup(old(results)@),
    ensures
        spec_result_views(final(results)@) == spec_append_peer(
            spec_result_views(old(results)@),
            hub_id@,
            spec_fragment_views(fragments@),
        ),
        spec_results_nodup(final(results)@),
        final(results)@.len() >= old(results)@.len(),
        forall|k: int|
            0 <= k < old(results)@.len() ==> (#[trigger] final(results)@[k]) == old(results)@[k],
        forall|k: int|
            old(results)@.len() <= k < final(results)@.len()
                ==> (#[trigger] final(results)@[k]).relevance_score == REMOTE_RELEVANCE as int
                && final(results)@[k].source_hub_id@ == hub_id@,
{
    let n = fragments.len();
    let ghost fvs = spec_fragment_views(fragments@);
    let mut i: usize = 0;
    assert(fvs.skip(0) == fvs);
    while i < n
        invariant
            i <= n,
            n == fragments@.len(),
            fvs == spec_fragment_views(fragments@),
            fvs.len() == n,
            spec_results_nodup(results@),
            results@.len() >= old(results)@.len(),
            forall|k: int|
                0 <= k < old(results)@.len() ==> (#[trigger] results@[k]) == old(results)@[k],
            forall|k: int|
                old(results)@.len() <= k < results@.len() ==> (#[trigger] results@[
                    k]).relevance_score == REMOTE_RELEVANCE as int && results@[k].source_hub_id@
                    == hub_id@,
            spec_append_peer(spec_result_views(old(results)@), hub_id@, fvs) == spec_append_peer(
                spec_result_views(results@),
                hub_id@,
                fvs.skip(i as int),
            ),
        decreases n - i,
    {
        proof {
            assert(fvs.skip(i as int)[0] == fvs[i as int]);
            assert(fvs[i as int] == fragments@[i as int]@);
            assert(fvs.skip(i as int).drop_first() =~= fvs.skip(i as int + 1));
        }
        let frag = &fragments[i];
        if !contains_uuid(results, frag.uuid.as_str()) {
            let ghost pre = results@;
            results.push(
                SearchResult {
                    fragment: frag.clone(),
                    source_hub_id: to_owned_string(hub_id),
                    relevance_score: REMOTE_RELEVANCE,
                },
            );
            proof {
                assert(spec_result_views(results@) =~= spec_result_views(pre).push(
                    SearchResultView {
                        fragment: fvs[i as int],
                        source_hub_id: hub_id@,
                        relevance_score: REMOTE_RELEVANCE as int,
                    },
                ));
                assert forall|a: int, b: int|
                    0 <= a < b < results@.len() implies (#[trigger] results@[a]).fragment@.uuid
                    != (#[trigger] results@[b]).fragment@.uuid by {
                    if b < pre.len() {
                        assert(results@[a] == pre[a] && results@[b] == pre[b]);
                    } else {
                        if a < pre.len() {
                            assert(results@[a] == pre[a]);
                            assert(results@[b].fragment@.uuid == frag@.uuid);
                            assert(!spec_acc_has_uuid(spec_result_views(pre), frag@.uuid));
                            assert(spec_result_views(pre)[a].fragment.uuid == pre[
                                a].fragment@.uuid);
                        }
                    }
                }
            }
        }
        i += 1;
    }
    proof {
        assert(fvs.skip(n as int) =~= Seq::<FragmentView>::empty());
    }
}

/// The federated search merge.
///
/// Local results come first at full relevance, tagged with this hub. If
/// they already meet the minimum, or no peers are available, the answer is
/// not federated and holds exactly the tagged local results with the one
/// local source entry. Otherwise each successful peer's fragments are
/// appended per [`spec_merge_replies`] — counted as given, only previously
/// unseen identifiers kept, tagged with the peer at relevance 0.9 — and the
/// sources list the local count first and then each successful peer's reply
/// count. No two results ever share a fragment identifier, and the order
/// (locals in order, then remote entries in merge order) is the stable
/// relevance-descending order.
pub fn federated_search_merge(
    local_results: Vec<Fragment>,
    local_hub_id: &str,
    min_results: usize,
    peer_replies: Vec<PeerReply>,
) -> (r: FederatedSearchResponse)
    requires
        spec_fragments_nodup(local_results@),
    ensures
        spec_results_nodup(r.results@),
        spec_results_sorted(r.results@),
        r.total == r.results@.len(),
        r.federated <==> (local_results@.len() < min_results && peer_replies@.len() > 0),
        r.federated ==> spec_result_views(r.results@) == spec_merge_replies(
            spec_local_views(spec_fragment_views(local_results@), local_hub_id@),
            peer_replies@,
        ),
        r.federated ==> spec_source_views(r.sources@) == seq![
            SearchSourceView { hub_id: local_hub_id@, count: local_results@.len() as int },
        ] + spec_reply_sources(peer_replies@),
        !r.federated ==> spec_result_views(r.results@) == spec_local_views(
            spec_fragment_views(local_results@),
            local_hub_id@,
        ),
        !r.federated ==> spec_source_views(r.sources@) == seq![
            SearchSourceView { hub_id: local_hub_id@, count: local_results@.len() as int },
        ],
{
    let local_count = local_results.len();
    let mut results = tag_local_results(&local_results, local_hub_id);
    let mut sources: Vec<SearchSource> = Vec::new();
    sources.push(SearchSource { hub_id: to_owned_string(local_hub_id), count: local_count });
    proof {
        assert(spec_source_views(sources@) =~= seq![
            SearchSourceView { hub_id: local_hub_id@, count: local_results@.len() as int },
        ]);
    }
    if local_count >= min_results || peer_replies.len() == 0 {
        let total = results.len();
        return FederatedSearchResponse { results, sources, federated: false, total };
    }
    let ghost locals_tagged = spec_result_views(results@);
    proof {
        assert(spec_result_views(results@).len() == results@.len());
        assert(results@.len() == local_results@.len());
    }
    let pn = peer_replies.len();
    let mut p: usize = 0;
    assert(peer_replies@.skip(0) == peer_replies@);
    while p < pn
        invariant
            p <= pn,
            pn == peer_replies@.len(),
            local_count == local_results@.len(),
            spec_results_nodup(results@),
            results@.len() >= local_count,
            locals_tagged == spec_local_views(
                spec_fragment_views(local_results@),
                local_hub_id@,
            ),
            forall|k: int|
                0 <= k < local_count ==> (#[trigger] results@[k]).relevance_score == SCALE as int,
            forall|k: int|
                local_count <= k < results@.len() ==> (#[trigger] results@[k]).relevance_score
                    == REMOTE_RELEVANCE as int,
            spec_merge_replies(locals_tagged, peer_replies@) == spec_merge_replies(
                spec_result_views(results@),
                peer_replies@.skip(p as int),
            ),
            spec_source_views(sources@) == seq![
                SearchSourceView { hub_id: local_hub_id@, count: local_results@.len() as int },
            ] + spec_reply_sources(peer_replies@.take(p as int)),
        decreases pn - p,
    {
        proof {
            assert(peer_replies@.skip(p as int)[0] == peer_replies@[p as int]);
            assert(peer_replies@.skip(p as int).drop_first() =~= peer_replies@.skip(p as int + 1));
            assert(peer_replies@.take(p as int + 1).drop_last() =~= peer_replies@.take(p as int));
            assert(peer_replies@.take(p as int + 1).last() == peer_replies@[p as int]);
        }
        let ghost pre_results = results@;
        let ghost pre_sources = sources@;
        match &peer_replies[p].fragments {
            Some(fragments) => {
                merge_peer(&mut results, peer_replies[p].hub_id.as_str(), fragments);
                sources.push(
                    SearchSource {
                        hub_id: peer_replies[p].hub_id.clone(),
                        count: fragments.len(),
                    },
                );
                proof {
                    lemma_reply_sources_snoc(peer_replies@, p as int);
                    assert(spec_source_views(sources@) =~= spec_source_views(pre_sources).push(
                        SearchSourceView {
                            hub_id: peer_replies@[p as int].hub_id@,
                            count: peer_replies@[p as int].fragments->Some_0@.len() as int,
                        },
                    ));
                }
            },
            None => {
                proof {
                    lemma_reply_sources_snoc(peer_replies@, p as int);
                }
            },
        }
        p += 1;
    }
    proof {
        assert(peer_replies@.skip(pn as int) =~= Seq::<PeerReply>::empty());
        assert(peer_replies@.take(pn as int) =~= peer_replies@);
        assert(spec_results_sorted(results@));
    }
    let total = results.len();
    FederatedSearchResponse { results, sources, federated: true, total }
}

/// One more processed reply extends the source list by its entry (if it
/// succeeded) and nothing else.
proof fn lemma_reply_sources_snoc(replies: Seq<PeerReply>, p: int)
    requires
        0 <= p < replies.len(),
    ensures
        spec_reply_sources(replies.take(p + 1)) == match replies[p].fragments {
            Some(fs) => spec_reply_sources(replies.take(p)).push(
                SearchSourceView { hub_id: replies[p].hub_id@, count: fs@.len() as int },
            ),
            None => spec_reply_sources(replies.take(p)),
        },
    decreases p,
{
    let a = replies.take(p + 1);
    let b = replies.take(p);
    if p == 0 {
        assert(a.len() == 1);
        assert(a[0] == replies[0]);
        assert(a.drop_first() =~= Seq::<PeerReply>::empty());
        assert(b =~= Seq::<PeerReply>::empty());
        assert(spec_reply_sources(a.drop_first()) =~= Seq::<SearchSourceView>::empty());
        assert(spec_reply_sources(b) =~= Seq::<SearchSourceView>::empty());
        match replies[0].fragments {
            Some(fs) => {
                assert(spec_reply_sources(a) == seq![
                    SearchSourceView { hub_id: a[0].hub_id@, count: a[0].fragments->Some_0@.len() as int },
                ] + spec_reply_sources(a.drop_first()));
                assert(spec_reply_sources(a) =~= Seq::<SearchSourceView>::empty().push(
                    SearchSourceView { hub_id: replies[0].hub_id@, count: fs@.len() as int },
                ));
            },
            None => {},
        }
    } else {
        lemma_reply_sources_snoc(replies.drop_first(), p - 1);
        assert(a[0] == replies[0]);
        assert(b[0] == replies[0]);
        assert(a.drop_first() =~= replies.drop_first().take(p));
        assert(b.drop_first() =~= replies.drop_first().take(p - 1));
        assert(replies.drop_first()[p - 1] == replies[p]);
        match replies[0].fragments {
            Some(fs0) => {
                match replies[p].fragments {
                    Some(fs) => {
                        assert(spec_reply_sources(a) =~= spec_reply_sources(b).push(
                            SearchSourceView {
                                hub_id: replies[p].hub_id@,
                                count: fs@.len() as int,
                            },
                        ));
                    },
                    None => {},
                }
            },
            None => {
                match replies[p].fragments {
                    Some(fs) => {
                        assert(spec_reply_sources(a) =~= spec_reply_sources(b).push(
                            SearchSourceView {
                                hub_id: replies[p].hub_id@,
                                count: fs@.len() as int,
                            },
                        ));
                    },
                    None => {},
                }
            },
        }
    }
}

} // verus!
