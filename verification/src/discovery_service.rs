//! The discovery control plane: a primary hub serves the registry, a
//! secondary keeps a cached directory and decides when to register again.
//! The HTTP legs of registration, heartbeat and refresh run outside and
//! hand their results back in; time enters as milliseconds.

use vstd::prelude::*;

use crate::errors::{HubError, HubResult};
use crate::registry::{
    clone_strings, spec_has_hub, spec_hub_index, spec_healthy_hubs, spec_other_healthy_hubs,
    HubInfo, HubInfoView, HubList, HubRegistry, HubStats, HubStatus,
};
use crate::settings::HubRole;
use crate::store::EntityStore;
use crate::text::{str_eq, to_owned_string};

verus! {

/// A peer's registration request.
#[derive(Debug)]
pub struct RegisterHubRequest {
    pub hub_id: String,
    pub public_url: String,
    pub capabilities: Vec<String>,
    pub version: Option<String>,
    pub public_key: Option<String>,
}

/// The registrar's answer: acceptance and the directory.
#[derive(Debug)]
pub struct RegisterHubResponse {
    pub registered: bool,
    pub message: Option<String>,
    pub hub_list: Option<HubList>,
}

/// A peer's heartbeat.
#[derive(Debug)]
pub struct HeartbeatRequest {
    pub hub_id: String,
    pub status: String,
    pub stats: HubStats,
}

/// The registrar's heartbeat answer.
#[derive(Debug)]
pub struct HeartbeatResponse {
    pub acknowledged: bool,
    pub message: Option<String>,
}

/// The discovery plane's configuration.
#[derive(Debug)]
pub struct DiscoveryConfig {
    pub role: HubRole,
    pub hub_id: String,
    pub public_url: String,
    pub primary_hub_url: Option<String>,
    pub heartbeat_timeout_sec: u64,
    pub registration_interval_sec: u64,
    pub hub_list_refresh_sec: u64,
}

impl Default for DiscoveryConfig {
    fn default() -> (r: Self)
        ensures
            r.role == HubRole::Primary,
            r.hub_id@ == "default-hub"@,
            r.public_url@ == "http://localhost:8080"@,
            r.primary_hub_url is None,
            r.heartbeat_timeout_sec == 900,
            r.registration_interval_sec == 300,
            r.hub_list_refresh_sec == 60,
    {
        DiscoveryConfig {
            role: HubRole::Primary,
            hub_id: to_owned_string("default-hub"),
            public_url: to_owned_string("http://localhost:8080"),
            primary_hub_url: None,
            heartbeat_timeout_sec: 900,
            registration_interval_sec: 300,
            hub_list_refresh_sec: 60,
        }
    }
}

/// The state a secondary hub keeps about its primary: the cached directory
/// and the time of the last successful registration.
#[derive(Debug)]
pub struct DiscoveryClientState {
    pub primary_hub_url: String,
    pub hub_id: String,
    pub public_url: String,
    pub capabilities: Vec<String>,
    pub cached_hub_list: Option<HubList>,
    /// Milliseconds since the Unix epoch, absent before the first success.
    pub last_registration: Option<i64>,
}

impl DiscoveryClientState {
    /// Fresh client state with nothing cached yet.
    pub fn new(
        primary_hub_url: String,
        hub_id: String,
        public_url: String,
        capabilities: Vec<String>,
    ) -> (r: DiscoveryClientState)
        ensures
            r.primary_hub_url == primary_hub_url,
            r.hub_id == hub_id,
            r.public_url == public_url,
            r.capabilities == capabilities,
            r.cached_hub_list is None,
            r.last_registration is None,
    {
        DiscoveryClientState {
            primary_hub_url,
            hub_id,
            public_url,
            capabilities,
            cached_hub_list: None,
            last_registration: None,
        }
    }

    /// Record a successful registration: cache the directory it returned
    /// and stamp the time.
    pub fn store_registration(&mut self, list: HubList, now_ms: i64)
        ensures
            final(self).cached_hub_list matches Some(l) && l == list,
            final(self).last_registration == Some(now_ms),
            final(self).hub_id == old(self).hub_id,
            final(self).primary_hub_url == old(self).primary_hub_url,
    {
        self.cached_hub_list = Some(list);
        self.last_registration = Some(now_ms);
    }

    /// Replace the cached directory after a refresh.
    pub fn store_hub_list(&mut self, list: HubList)
        ensures
            final(self).cached_hub_list matches Some(l) && l == list,
            final(self).last_registration == old(self).last_registration,
            final(self).hub_id == old(self).hub_id,
    {
        self.cached_hub_list = Some(list);
    }

    /// The cached directory, if any.
    pub fn get_cached_hub_list(&self) -> (r: Option<HubList>)
        ensures
            match (r, &self.cached_hub_list) {
                (Some(a), Some(b)) => a.hubs@.len() == b.hubs@.len() && a.version == b.version
                    && forall|i: int|
                    0 <= i < b.hubs@.len() ==> (#[trigger] a.hubs@[i])@ == b.hubs@[i]@,
                (None, None) => true,
                _ => false,
            },
    {
        match &self.cached_hub_list {
            Some(l) => Some(l.clone()),
            None => None,
        }
    }

    /// The healthy peers other than this hub, from the cached directory,
    /// in directory order.
    pub fn get_other_hubs(&self) -> (r: Vec<HubInfo>)
        ensures
            match &self.cached_hub_list {
                Some(l) => ({
                    let found = spec_other_healthy_hubs(l.hubs@, self.hub_id@);
                    r@.len() == found.len() && forall|k: int|
                        0 <= k < found.len() ==> (#[trigger] r@[k])@ == found[k]@
                }),
                None => r@.len() == 0,
            },
    {
        let list = match &self.cached_hub_list {
            Some(l) => l,
            None => {
                return Vec::new();
            },
        };
        let n = list.hubs.len();
        let mut out: Vec<HubInfo> = Vec::new();
        let ghost collected: Seq<HubInfo> = Seq::empty();
        let mut collected_t = Ghost(collected);
        let mut i: usize = 0;
        assert(list.hubs@.skip(0) == list.hubs@);
        while i < n
            invariant
                i <= n,
                n == list.hubs@.len(),
                (self.cached_hub_list matches Some(l) && l == list),
                out@.len() == collected_t@.len(),
                forall|k: int|
                    0 <= k < collected_t@.len() ==> (#[trigger] out@[k])@ == collected_t@[k]@,
                collected_t@ + spec_other_healthy_hubs(list.hubs@.skip(i as int), self.hub_id@)
                    == spec_other_healthy_hubs(list.hubs@, self.hub_id@),
            decreases n - i,
        {
            proof {
                assert(list.hubs@.skip(i as int)[0] == list.hubs@[i as int]);
                assert(list.hubs@.skip(i as int).drop_first() =~= list.hubs@.skip(i as int + 1));
            }
            if list.hubs[i].status == HubStatus::Healthy && !str_eq(
                list.hubs[i].hub_id.as_str(),
                self.hub_id.as_str(),
            ) {
                let h = list.hubs[i].clone();
                proof {
                    assert(h@ == list.hubs@[i as int]@);
                }
                out.push(h);
                proof {
                    collected_t@ = collected_t@.push(list.hubs@[i as int]);
                    assert(collected_t@ + spec_other_healthy_hubs(
                        list.hubs@.skip(i as int + 1),
                        self.hub_id@,
                    ) =~= spec_other_healthy_hubs(list.hubs@, self.hub_id@));
                }
            }
            i += 1;
        }
        proof {
            assert(list.hubs@.skip(n as int) =~= Seq::<HubInfo>::empty());
            assert(collected_t@ =~= spec_other_healthy_hubs(list.hubs@, self.hub_id@));
        }
        out
    }

    /// Whether registration is (still or again) due: never registered, the
    /// clock ran backwards, or the interval has elapsed.
    pub fn needs_registration(&self, registration_interval_sec: u64, now_ms: i64) -> (r: bool)
        ensures
            r == match self.last_registration {
                None => true,
                Some(last) => now_ms < last || (now_ms - last) / 1000
                    > registration_interval_sec as int,
            },
    {
        match self.last_registration {
            None => true,
            Some(last) => {
                if now_ms < last {
                    true
                } else {
                    let elapsed_sec: i128 = ((now_ms as i128) - (last as i128)) / 1000;
                    elapsed_sec > registration_interval_sec as i128
                }
            },
        }
    }

    /// The registration payload this hub sends to its primary.
    pub fn make_register_request(&self, public_key: Option<String>) -> (r: RegisterHubRequest)
        ensures
            r.hub_id@ == self.hub_id@,
            r.public_url@ == self.public_url@,
            r.capabilities@.len() == self.capabilities@.len(),
            forall|i: int|
                0 <= i < self.capabilities@.len() ==> (#[trigger] r.capabilities@[i])@
                    == self.capabilities@[i]@,
            r.public_key == public_key,
            r.version matches Some(v) && v@ == "0.1.0"@,
    {
        RegisterHubRequest {
            hub_id: self.hub_id.clone(),
            public_url: self.public_url.clone(),
            capabilities: clone_strings(&self.capabilities),
            version: Some(crate::text::to_owned_string("0.1.0")),
            public_key,
        }
    }
}

/// The discovery service: the registry on a primary, the client state on a
/// secondary.
#[derive(Debug)]
pub struct DiscoveryService {
    pub config: DiscoveryConfig,
    pub registry: Option<HubRegistry>,
    pub client: Option<DiscoveryClientState>,
    pub self_info: HubInfo,
}

impl DiscoveryService {
    /// The role decides the shape: a primary owns a registry, a secondary
    /// a client.
    pub open spec fn wf(&self) -> bool {
        &&& (self.config.role == HubRole::Primary <==> self.registry is Some)
        &&& (self.config.role == HubRole::Secondary <==> self.client is Some)
        &&& (self.registry matches Some(reg) ==> reg.wf())
    }

    /// Build the service for its role; a secondary needs its primary's
    /// address.
    pub fn new(config: DiscoveryConfig, now_ms: i64) -> (r: DiscoveryService)
        requires
            config.role == HubRole::Secondary ==> config.primary_hub_url is Some,
        ensures
            r.wf(),
            r.config == config,
            r.self_info@.hub_id == config.hub_id@,
            r.self_info@.status == HubStatus::Healthy,
    {
        let registry: Option<HubRegistry> = match config.role {
            HubRole::Primary => Some(HubRegistry::new(config.heartbeat_timeout_sec)),
            HubRole::Secondary => None,
        };
        let client: Option<DiscoveryClientState> = match config.role {
            HubRole::Primary => None,
            HubRole::Secondary => {
                let primary_url = match &config.primary_hub_url {
                    Some(u) => u.clone(),
                    None => to_owned_string(""),
                };
                Some(
                    DiscoveryClientState::new(
                        primary_url,
                        config.hub_id.clone(),
                        config.public_url.clone(),
                        crate::settings::default_capabilities(),
                    ),
                )
            },
        };
        let role_text = match config.role {
            HubRole::Primary => to_owned_string("primary"),
            HubRole::Secondary => to_owned_string("secondary"),
        };
        let self_info = HubInfo {
            hub_id: config.hub_id.clone(),
            public_url: config.public_url.clone(),
            role: role_text,
            status: HubStatus::Healthy,
            last_seen: now_ms,
            capabilities: crate::settings::default_capabilities(),
            stats: HubStats::default(),
            public_key: None,
        };
        DiscoveryService { config, registry, client, self_info }
    }

    /// This hub's current counters, read from the store; uptime is not
    /// tracked here.
    pub fn get_stats(&self, store: &EntityStore) -> (r: HubStats)
        ensures
            r.agents_count == store.agents@.len(),
            r.fragments_count == store.fragments@.len(),
            r.entities_count == if store.agents@.len() + store.fragments@.len() <= u64::MAX {
                store.agents@.len() + store.fragments@.len() as int
            } else {
                u64::MAX as int
            },
            r.uptime_seconds == 0,
    {
        let agents_count = store.count_agents();
        let fragments_count = store.count_fragments();
        HubStats {
            entities_count: agents_count.saturating_add(fragments_count),
            agents_count,
            fragments_count,
            uptime_seconds: 0,
        }
    }

    /// Refresh this hub's own directory entry with current stats.
    pub fn update_self_info(&mut self, stats: HubStats, now_ms: i64)
        ensures
            final(self).self_info@ == (HubInfoView {
                stats,
                last_seen: now_ms as int,
                ..old(self).self_info@
            }),
            final(self).config == old(self).config,
            final(self).registry == old(self).registry,
            final(self).client == old(self).client,
            old(self).wf() ==> final(self).wf(),
    {
        self.self_info.stats = stats;
        self.self_info.last_seen = now_ms;
    }

    /// Register a peer (primary only): upsert it as a healthy secondary
    /// seen now, and answer with the refreshed directory.
    pub fn register_hub(&mut self, req: RegisterHubRequest, now_ms: i64) -> (r: HubResult<
        RegisterHubResponse,
    >)
        requires
            old(self).wf(),
            old(self).registry matches Some(reg) ==> reg.hubs@.len() < usize::MAX,
        ensures
            final(self).wf(),
            final(self).config == old(self).config,
            r is Ok <==> old(self).config.role == HubRole::Primary,
            match r {
                Ok(resp) => {
                    &&& resp.registered
                    &&& final(self).registry matches Some(reg) && spec_has_hub(
                        reg.hubs@,
                        req.hub_id@,
                    )
                    &&& ({
                        let reg = final(self).registry->Some_0;
                        let i = spec_hub_index(reg.hubs@, req.hub_id@);
                        &&& 0 <= i < reg.hubs@.len()
                        &&& reg.hubs@[i]@.public_url == req.public_url@
                        &&& reg.hubs@[i]@.role == "secondary"@
                        &&& reg.hubs@[i]@.status == HubStatus::Healthy
                        &&& reg.hubs@[i]@.last_seen == now_ms as int
                        &&& reg.hubs@[i]@.stats == (HubStats {
                            entities_count: 0,
                            agents_count: 0,
                            fragments_count: 0,
                            uptime_seconds: 0,
                        })
                        &&& reg.hubs@[i]@.capabilities == Seq::new(
                            req.capabilities@.len(),
                            |j: int| req.capabilities@[j]@,
                        )
                        &&& reg.hubs@[i]@.public_key == match req.public_key {
                            Some(k) => Some(k@),
                            None => None::<Seq<char>>,
                        }
                    })
                    &&& (resp.hub_list matches Some(l) && ({
                        let reg = final(self).registry->Some_0;
                        l.version == reg.version && l.hubs@.len() == reg.hubs@.len() && forall|
                            j: int,
                        |
                            0 <= j < reg.hubs@.len() ==> (#[trigger] l.hubs@[j])@
                                == reg.hubs@[j]@
                    }))
                },
                Err(e) => e matches HubError::FederationError(_) && final(self).registry == old(
                    self,
                ).registry,
            },
    {
        let registry = match &mut self.registry {
            Some(reg) => reg,
            None => {
                return Err(HubError::FederationError(to_owned_string("Not a primary hub")));
            },
        };
        let hub_info = HubInfo {
            hub_id: req.hub_id,
            public_url: req.public_url,
            role: to_owned_string("secondary"),
            status: HubStatus::Healthy,
            last_seen: now_ms,
            capabilities: req.capabilities,
            stats: HubStats::default(),
            public_key: req.public_key,
        };
        registry.register(hub_info);
        let hub_list = registry.list(now_ms);
        Ok(
            RegisterHubResponse {
                registered: true,
                message: Some(to_owned_string("Hub registered successfully")),
                hub_list: Some(hub_list),
            },
        )
    }

    /// Record a peer's heartbeat (primary only): acknowledged exactly when
    /// the peer is registered.
    pub fn process_heartbeat(&mut self, req: HeartbeatRequest, now_ms: i64) -> (r: HubResult<
        HeartbeatResponse,
    >)
        requires
            old(self).wf(),
        ensures
            final(self).wf(),
            final(self).config == old(self).config,
            r is Ok <==> old(self).config.role == HubRole::Primary,
            match r {
                Ok(resp) => old(self).registry matches Some(reg) && resp.acknowledged
                    == spec_has_hub(reg.hubs@, req.hub_id@) && (resp.acknowledged ==> ({
                    let regf = final(self).registry->Some_0;
                    let i = spec_hub_index(reg.hubs@, req.hub_id@);
                    &&& 0 <= i < regf.hubs@.len()
                    &&& regf.hubs@[i]@.status == HubStatus::Healthy
                    &&& regf.hubs@[i]@.last_seen == now_ms as int
                    &&& regf.hubs@[i]@.stats == req.stats
                })),
                Err(e) => e matches HubError::FederationError(_),
            },
    {
        let registry = match &mut self.registry {
            Some(reg) => reg,
            None => {
                return Err(HubError::FederationError(to_owned_string("Not a primary hub")));
            },
        };
        let acknowledged = registry.heartbeat(req.hub_id.as_str(), req.stats, now_ms);
        if acknowledged {
            Ok(HeartbeatResponse { acknowledged: true, message: None })
        } else {
            Ok(
                HeartbeatResponse {
                    acknowledged: false,
                    message: Some(to_owned_string("Hub not registered")),
                },
            )
        }
    }

    /// The known directory: on a primary, this hub first and the registry
    /// after it; on a secondary, the cached directory if one is held.
    pub fn get_known_hubs(&self, now_ms: i64) -> (r: HubResult<HubList>)
        requires
            self.wf(),
        ensures
            match r {
                Ok(list) => match &self.registry {
                    Some(reg) => list.hubs@.len() == reg.hubs@.len() + 1 && list.hubs@[0]@
                        == self.self_info@ && forall|i: int|
                        0 <= i < reg.hubs@.len() ==> (#[trigger] list.hubs@[i + 1])@
                            == reg.hubs@[i]@,
                    None => self.client matches Some(c) && c.cached_hub_list is Some,
                },
                Err(e) => e matches HubError::FederationError(_) && self.registry is None && (
                self.client matches Some(c) && c.cached_hub_list is None),
            },
    {
        match &self.registry {
            Some(reg) => {
                let mut list = reg.list(now_ms);
                list.hubs.insert(0, self.self_info.clone());
                proof {
                    assert(list.hubs@[0]@ == self.self_info@);
                    assert forall|i: int|
                        0 <= i < reg.hubs@.len() implies (#[trigger] list.hubs@[i + 1])@
                        == reg.hubs@[i]@ by {
                    }
                }
                Ok(list)
            },
            None => {
                match &self.client {
                    Some(c) => match c.get_cached_hub_list() {
                        Some(l) => Ok(l),
                        None => Err(
                            HubError::FederationError(to_owned_string("Hub list not available")),
                        ),
                    },
                    None => Err(
                        HubError::FederationError(to_owned_string("Discovery not configured")),
                    ),
                }
            },
        }
    }

    /// Sweep the registry for overdue peers (primary only; a no-op
    /// elsewhere).
    pub fn check_inactive_hubs(&mut self, now_ms: i64)
        requires
            old(self).wf(),
            old(self).registry matches Some(reg) ==> reg.heartbeat_timeout_sec * 1000
                <= i64::MAX,
        ensures
            final(self).wf(),
            final(self).config == old(self).config,
            final(self).client == old(self).client,
            match (&old(self).registry, &final(self).registry) {
                (Some(reg0), Some(reg1)) => reg1.hubs@.len() == reg0.hubs@.len() && forall|i: int|
                    0 <= i < reg0.hubs@.len() ==> (#[trigger] reg1.hubs@[i])@ == if now_ms
                        - reg0.hubs@[i]@.last_seen > reg0.heartbeat_timeout_sec * 1000 {
                        HubInfoView { status: HubStatus::Inactive, ..reg0.hubs@[i]@ }
                    } else {
                        reg0.hubs@[i]@
                    },
                (None, None) => true,
                _ => false,
            },
    {
        match &mut self.registry {
            Some(reg) => {
                reg.check_inactive(now_ms);
            },
            None => {},
        }
    }

    /// Whether registration with the primary is due (secondary only).
    pub fn needs_registration(&self, now_ms: i64) -> (r: bool)
        ensures
            r == match &self.client {
                Some(c) => match c.last_registration {
                    None => true,
                    Some(last) => now_ms < last || (now_ms - last) / 1000
                        > self.config.registration_interval_sec as int,
                },
                None => false,
            },
    {
        match &self.client {
            Some(c) => c.needs_registration(self.config.registration_interval_sec, now_ms),
            None => false,
        }
    }

    /// The peers worth fanning out to: the cached healthy peers other than
    /// this hub on a secondary, the healthy registry entries on a primary,
    /// in directory order either way.
    pub fn get_federation_targets(&self) -> (r: Vec<HubInfo>)
        ensures
            match &self.client {
                Some(c) => match &c.cached_hub_list {
                    Some(l) => ({
                        let found = spec_other_healthy_hubs(l.hubs@, c.hub_id@);
                        r@.len() == found.len() && forall|k: int|
                            0 <= k < found.len() ==> (#[trigger] r@[k])@ == found[k]@
                    }),
                    None => r@.len() == 0,
                },
                None => match &self.registry {
                    Some(reg) => ({
                        let found = spec_healthy_hubs(reg.hubs@);
                        r@.len() == found.len() && forall|k: int|
                            0 <= k < found.len() ==> (#[trigger] r@[k])@ == found[k]@
                    }),
                    None => r@.len() == 0,
                },
            },
    {
        match &self.client {
            Some(c) => c.get_other_hubs(),
            None => match &self.registry {
                Some(reg) => reg.list_healthy(),
                None => Vec::new(),
            },
        }
    }

    /// Whether this hub plays the primary role.
    pub fn is_primary(&self) -> (r: bool)
        ensures
            r == (self.config.role == HubRole::Primary),
    {
        self.config.role == HubRole::Primary
    }

    /// This hub's identifier.
    pub fn hub_id(&self) -> (r: &str)
        ensures
            r@ == self.config.hub_id@,
    {
        self.config.hub_id.as_str()
    }

    /// This hub's own directory entry.
    pub fn self_info(&self) -> (r: HubInfo)
        ensures
            r@ == self.self_info@,
    {
        self.self_info.clone()
    }

    /// Adopt a directory returned by a successful registration (secondary
    /// only; a no-op elsewhere).
    pub fn apply_registration(&mut self, list: HubList, now_ms: i64)
        requires
            old(self).wf(),
        ensures
            final(self).wf(),
            final(self).config == old(self).config,
            final(self).registry == old(self).registry,
            old(self).client is Some ==> (final(self).client matches Some(c)
                && c.cached_hub_list is Some && c.last_registration == Some(now_ms)),
    {
        match &mut self.client {
            Some(c) => {
                c.store_registration(list, now_ms);
            },
            None => {},
        }
    }

    /// Adopt a refreshed directory (secondary only; a no-op elsewhere).
    pub fn apply_refreshed_list(&mut self, list: HubList)
        requires
            old(self).wf(),
        ensures
            final(self).wf(),
            final(self).config == old(self).config,
            final(self).registry == old(self).registry,
            old(self).client is Some ==> (final(self).client matches Some(c)
                && c.cached_hub_list is Some),
    {
        match &mut self.client {
            Some(c) => {
                c.store_hub_list(list);
            },
            None => {},
        }
    }
}

} // verus!
