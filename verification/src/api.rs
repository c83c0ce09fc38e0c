//! Request and response shapes of the HTTP surface, and the pure cores of
//! the trust handlers. The transport itself lives outside.

use vstd::prelude::*;

use crate::address::Address;
use crate::errors::{HubError, HubResult};
use crate::registry::HubStats;
use crate::resources::HubStatusSummary;
use crate::text::to_owned_string;
use crate::trust::{TrustPath, TrustScore};
use crate::trust_service::TrustService;

verus! {

/// Query parameters of a paginated listing.
#[derive(Debug)]
pub struct ListQuery {
    pub cursor: Option<String>,
    pub limit: usize,
}

/// Query parameters of a local fragment search.
#[derive(Debug)]
pub struct SearchQuery {
    pub q: String,
    pub limit: usize,
}

/// Query parameters of a trust-path request, both ends as address text.
#[derive(Debug)]
pub struct TrustPathQuery {
    pub from: String,
    pub to: String,
}

/// Query parameters of a trust-score request, both ends as address text.
#[derive(Debug)]
pub struct TrustScoreQuery {
    pub entity: String,
    pub viewer: String,
}

/// The trust-path answer.
#[derive(Debug)]
pub struct TrustPathResponse {
    pub found: bool,
    pub path: Option<TrustPath>,
}

/// Query parameters of the retired sync endpoint.
#[derive(Debug)]
pub struct SyncQuery {
    pub since: Option<String>,
    pub limit: Option<usize>,
    pub cursor: Option<String>,
}

/// A peer registration as it arrives over the wire.
#[derive(Debug)]
pub struct ApiRegisterHubRequest {
    pub hub_id: String,
    pub public_url: String,
    pub capabilities: Vec<String>,
    pub version: Option<String>,
    pub public_key: Option<String>,
}

/// A peer heartbeat as it arrives over the wire.
#[derive(Debug)]
pub struct ApiHeartbeatRequest {
    pub hub_id: String,
    pub status: String,
    pub stats: HubStats,
}

/// Query parameters of a federated search.
#[derive(Debug)]
pub struct FederatedSearchQuery {
    pub q: String,
    pub federate: bool,
    pub min_results: Option<usize>,
    pub limit: Option<usize>,
}

/// The standard response wrapper.
#[derive(Debug)]
pub struct ApiResponse<T> {
    pub success: bool,
    pub data: Option<T>,
    pub error: Option<String>,
    pub hub_status: Option<HubStatusSummary>,
}

impl<T> ApiResponse<T> {
    /// A successful answer carrying its data.
    pub fn success(data: T) -> (r: ApiResponse<T>)
        ensures
            r.success,
            r.data matches Some(d) && d == data,
            r.error is None,
            r.hub_status is None,
    {
        ApiResponse { success: true, data: Some(data), error: None, hub_status: None }
    }

    /// A successful answer with the hub's pressure status attached.
    pub fn success_with_status(data: T, hub_status: Option<HubStatusSummary>) -> (r: ApiResponse<
        T,
    >)
        ensures
            r.success,
            r.data matches Some(d) && d == data,
            r.error is None,
    {
        ApiResponse { success: true, data: Some(data), error: None, hub_status }
    }

    /// A failed answer carrying its message.
    pub fn error(message: String) -> (r: ApiResponse<T>)
        ensures
            !r.success,
            r.data is None,
            r.error matches Some(m) && m == message,
            r.hub_status is None,
    {
        ApiResponse { success: false, data: None, error: Some(message), hub_status: None }
    }

    /// A failed answer with the hub's pressure status attached.
    pub fn error_with_status(message: String, hub_status: Option<HubStatusSummary>) -> (r:
        ApiResponse<T>)
        ensures
            !r.success,
            r.data is None,
            r.error matches Some(m) && m == message,
    {
        ApiResponse { success: false, data: None, error: Some(message), hub_status }
    }
}

/// A page of items with its continuation cursor.
#[derive(Debug)]
pub struct PaginatedResponse<T> {
    pub items: Vec<T>,
    pub total: usize,
    pub next_cursor: Option<String>,
}

impl<T> PaginatedResponse<T> {
    /// Wrap a page.
    pub fn new(items: Vec<T>, total: usize, next_cursor: Option<String>) -> (r: PaginatedResponse<
        T,
    >)
        ensures
            r.items == items,
            r.total == total,
            r.next_cursor == next_cursor,
    {
        PaginatedResponse { items, total, next_cursor }
    }
}

/// The pure core of the trust-path endpoint: parse both addresses and run
/// the search. Unparsable address text is a validation error; otherwise
/// the answer carries the search's own guarantees.
pub fn handle_trust_path(trust: &TrustService, query: &TrustPathQuery) -> (r: HubResult<
    TrustPathResponse,
>)
    requires
        trust.store.wf(),
        trust.config.wf(),
    ensures
        match (
            crate::address::spec_parse_address(query.from@),
            crate::address::spec_parse_address(query.to@),
        ) {
            (Some(f), Some(t)) => {
                &&& (r matches Err(e) ==> e matches HubError::ValidationError(_) && f != t
                    && f.domain != crate::address::Domain::Agent)
                &&& (r matches Ok(resp) ==> {
                    &&& (resp.found <==> resp.path is Some)
                    &&& (f == t ==> (resp.path matches Some(p) && p@.from == f && p@.to == t
                        && p@.effective_trust == crate::codec::SCALE as int && p@.depth == 1))
                    &&& (match resp.path {
                        Some(p) => f != t ==> crate::trust_service::spec_path_ok(
                            trust.store,
                            f,
                            t,
                            p@,
                            trust.config.damping_factor as int,
                            trust.config.max_depth as int,
                        ) && crate::trust_service::spec_path_threshold_ok(
                            p@,
                            trust.config.damping_factor as int,
                            trust.config.min_trust_threshold as int,
                        ),
                        None => f != t,
                    })
                    &&& ((f != t && f.domain == crate::address::Domain::Agent
                        && trust.config.max_depth >= 1 && t.entity != f.entity) ==> match resp
                        .path {
                        Some(p) => crate::trust_service::spec_at_least_direct_edges(
                            trust.store,
                            f,
                            t,
                            trust.config.min_trust_threshold as int,
                            p@.effective_trust,
                        ),
                        None => !crate::trust_service::spec_direct_edge_to(
                            trust.store,
                            f.entity,
                            t.entity,
                            trust.config.min_trust_threshold as int,
                        ),
                    })
                    &&& ((f != t && f.domain == crate::address::Domain::Agent
                        && trust.config.max_depth >= 1 && t.entity != f.entity) ==> match resp
                        .path {
                        Some(p) => crate::trust_service::spec_at_least_walks(
                            trust.store,
                            f,
                            t,
                            trust.config.damping_factor as int,
                            trust.config.max_depth as int,
                            trust.config.min_trust_threshold as int,
                            p@.effective_trust,
                        ),
                        None => forall|w: Seq<crate::trust::TrustPathHopView>|
                            !(#[trigger] crate::trust_service::spec_admissible_walk(
                                trust.store,
                                f,
                                t,
                                w,
                                trust.config.damping_factor as int,
                                trust.config.max_depth as int,
                                trust.config.min_trust_threshold as int,
                            )),
                    })
                })
            },
            _ => r matches Err(e) && e matches HubError::ValidationError(_),
        },
{
    let from = match Address::parse(query.from.as_str()) {
        Some(a) => a,
        None => {
            return Err(HubError::ValidationError(to_owned_string("Invalid 'from' address")));
        },
    };
    let to = match Address::parse(query.to.as_str()) {
        Some(a) => a,
        None => {
            return Err(HubError::ValidationError(to_owned_string("Invalid 'to' address")));
        },
    };
    match trust.find_best_path(&from, &to) {
        Ok(path) => {
            let found = path.is_some();
            Ok(TrustPathResponse { found, path })
        },
        Err(e) => Err(e),
    }
}

/// The pure core of the trust-score endpoint: parse both addresses and
/// score the entity from the viewer's perspective. Unparsable address text
/// is a validation error; otherwise the answer carries the score
/// calculation's own guarantees.
pub fn handle_trust_score(trust: &TrustService, query: &TrustScoreQuery) -> (r: HubResult<
    TrustScore,
>)
    requires
        trust.store.wf(),
        trust.config.wf(),
    ensures
        match (
            crate::address::spec_parse_address(query.entity@),
            crate::address::spec_parse_address(query.viewer@),
        ) {
            (Some(entity), Some(viewer)) => match r {
                Ok(s) => {
                    &&& s@.entity == entity
                    &&& s@.viewer == viewer
                    &&& -(crate::codec::SCALE as int) <= s@.score <= crate::codec::SCALE as int
                    &&& (match s@.best_path {
                        Some(p) => s@.path_count == 1 && s@.score == crate::agent::spec_clamp(
                            p.effective_trust,
                            -(crate::codec::SCALE as int),
                            crate::codec::SCALE as int,
                        ) && (viewer != entity ==> crate::trust_service::spec_path_ok(
                            trust.store,
                            viewer,
                            entity,
                            p,
                            trust.config.damping_factor as int,
                            trust.config.max_depth as int,
                        )),
                        None => s@.path_count == 0 && s@.score == 0 && viewer != entity,
                    })
                    &&& (viewer == entity ==> s@.score == crate::codec::SCALE as int
                        && s@.path_count == 1)
                },
                Err(e) => e matches HubError::ValidationError(_) && viewer != entity
                    && viewer.domain != crate::address::Domain::Agent,
            },
            _ => r matches Err(e) && e matches HubError::ValidationError(_),
        },
{
    let entity = match Address::parse(query.entity.as_str()) {
        Some(a) => a,
        None => {
            return Err(HubError::ValidationError(to_owned_string("Invalid 'entity' address")));
        },
    };
    let viewer = match Address::parse(query.viewer.as_str()) {
        Some(a) => a,
        None => {
            return Err(HubError::ValidationError(to_owned_string("Invalid 'viewer' address")));
        },
    };
    trust.calculate_trust_score(&entity, &viewer)
}

} // verus!
