//! The hub registry a primary hub owns: a directory of peers with
//! registration, heartbeat, and liveness timeout. Time enters as
//! milliseconds since the Unix epoch, handed in by the caller.

use vstd::prelude::*;

use crate::text::str_eq;

verus! {

/// Health of a registered hub.
#[derive(Debug, Clone, Copy, PartialEq, Eq, Structural)]
pub enum HubStatus {
    Healthy,
    Degraded,
    Inactive,
    Unknown,
}

impl Default for HubStatus {
    fn default() -> (r: Self)
        ensures
            r == HubStatus::Unknown,
    {
        HubStatus::Unknown
    }
}

/// Counters a hub reports about itself.
#[derive(Debug, Clone, Copy, PartialEq, Eq, Structural)]
pub struct HubStats {
    pub entities_count: u64,
    pub agents_count: u64,
    pub fragments_count: u64,
    pub uptime_seconds: u64,
}

impl Default for HubStats {
    fn default() -> (r: Self)
        ensures
            r == (HubStats {
                entities_count: 0,
                agents_count: 0,
                fragments_count: 0,
                uptime_seconds: 0,
            }),
    {
        HubStats { entities_count: 0, agents_count: 0, fragments_count: 0, uptime_seconds: 0 }
    }
}

/// The mathematical value of a [`HubInfo`].
pub struct HubInfoView {
    pub hub_id: Seq<char>,
    pub public_url: Seq<char>,
    pub role: Seq<char>,
    pub status: HubStatus,
    pub last_seen: int,
    pub capabilities: Seq<Seq<char>>,
    pub stats: HubStats,
    pub public_key: Option<Seq<char>>,
}

/// A directory entry about one hub.
#[derive(Debug)]
pub struct HubInfo {
    pub hub_id: String,
    pub public_url: String,
    /// `primary` or `secondary`.
    pub role: String,
    pub status: HubStatus,
    /// Milliseconds since the Unix epoch.
    pub last_seen: i64,
    pub capabilities: Vec<String>,
    pub stats: HubStats,
    pub public_key: Option<String>,
}

impl View for HubInfo {
    type V = HubInfoView;

    open spec fn view(&self) -> HubInfoView {
        HubInfoView {
            hub_id: self.hub_id@,
            public_url: self.public_url@,
            role: self.role@,
            status: self.status,
            last_seen: self.last_seen as int,
            capabilities: Seq::new(self.capabilities@.len(), |i: int| self.capabilities@[i]@),
            stats: self.stats,
            public_key: match self.public_key {
                Some(k) => Some(k@),
                None => None,
            },
        }
    }
}

/// An element-wise copy of a string list.
pub fn clone_strings(ss: &Vec<String>) -> (r: Vec<String>)
    ensures
        r@.len() == ss@.len(),
        forall|i: int| 0 <= i < ss@.len() ==> (#[trigger] r@[i])@ == ss@[i]@,
{
    let mut out: Vec<String> = Vec::new();
    let n = ss.len();
    let mut i: usize = 0;
    while i < n
        invariant
            i <= n,
            n == ss@.len(),
            out@.len() == i,
            forall|j: int| 0 <= j < i ==> (#[trigger] out@[j])@ == ss@[j]@,
        decreases n - i,
    {
        out.push(ss[i].clone());
        i += 1;
    }
    out
}

impl Clone for HubInfo {
    /// A copy with the same value.
    fn clone(&self) -> (r: Self)
        ensures
            r@ == self@,
    {
        let r = HubInfo {
            hub_id: self.hub_id.clone(),
            public_url: self.public_url.clone(),
            role: self.role.clone(),
            status: self.status,
            last_seen: self.last_seen,
            capabilities: clone_strings(&self.capabilities),
            stats: self.stats,
            public_key: match &self.public_key {
                Some(k) => Some(k.clone()),
                None => None,
            },
        };
        proof {
            assert(r@.capabilities =~= self@.capabilities);
        }
        r
    }
}

/// A directory snapshot with its version.
#[derive(Debug)]
pub struct HubList {
    pub hubs: Vec<HubInfo>,
    pub version: u64,
    /// Milliseconds since the Unix epoch.
    pub updated_at: i64,
}

impl Clone for HubList {
    /// A copy with the same entries.
    fn clone(&self) -> (r: Self)
        ensures
            r.hubs@.len() == self.hubs@.len(),
            forall|i: int|
                0 <= i < self.hubs@.len() ==> (#[trigger] r.hubs@[i])@ == self.hubs@[i]@,
            r.version == self.version,
            r.updated_at == self.updated_at,
    {
        HubList {
            hubs: clone_hub_infos(&self.hubs),
            version: self.version,
            updated_at: self.updated_at,
        }
    }
}

/// An element-wise copy of a hub list.
pub fn clone_hub_infos(hs: &Vec<HubInfo>) -> (r: Vec<HubInfo>)
    ensures
        r@.len() == hs@.len(),
        forall|i: int| 0 <= i < hs@.len() ==> (#[trigger] r@[i])@ == hs@[i]@,
{
    let mut out: Vec<HubInfo> = Vec::new();
    let n = hs.len();
    let mut i: usize = 0;
    while i < n
        invariant
            i <= n,
            n == hs@.len(),
            out@.len() == i,
            forall|j: int| 0 <= j < i ==> (#[trigger] out@[j])@ == hs@[j]@,
        decreases n - i,
    {
        out.push(hs[i].clone());
        i += 1;
    }
    out
}

/// Whether the directory names a hub.
pub open spec fn spec_has_hub(hubs: Seq<HubInfo>, hub_id: Seq<char>) -> bool {
    exists|i: int| 0 <= i < hubs.len() && (#[trigger] hubs[i])@.hub_id == hub_id
}

/// Directory identifiers are unique.
pub open spec fn spec_hubs_unique(hubs: Seq<HubInfo>) -> bool {
    forall|i: int, j: int|
        0 <= i < j < hubs.len() ==> (#[trigger] hubs[i])@.hub_id != (#[trigger] hubs[j])@.hub_id
}

/// The healthy entries of a directory, in directory order.
pub open spec fn spec_healthy_hubs(hubs: Seq<HubInfo>) -> Seq<HubInfo>
    decreases hubs.len(),
{
    if hubs.len() == 0 {
        Seq::<HubInfo>::empty()
    } else if hubs[0].status == HubStatus::Healthy {
        seq![hubs[0]] + spec_healthy_hubs(hubs.drop_first())
    } else {
        spec_healthy_hubs(hubs.drop_first())
    }
}

/// The healthy entries other than a given hub, in directory order.
pub open spec fn spec_other_healthy_hubs(hubs: Seq<HubInfo>, self_id: Seq<char>) -> Seq<HubInfo>
    decreases hubs.len(),
{
    if hubs.len() == 0 {
        Seq::<HubInfo>::empty()
    } else if hubs[0].status == HubStatus::Healthy && hubs[0]@.hub_id != self_id {
        seq![hubs[0]] + spec_other_healthy_hubs(hubs.drop_first(), self_id)
    } else {
        spec_other_healthy_hubs(hubs.drop_first(), self_id)
    }
}

/// The first directory index carrying the identifier.
pub open spec fn spec_hub_index(hubs: Seq<HubInfo>, hub_id: Seq<char>) -> int
    decreases hubs.len(),
{
    if hubs.len() == 0 {
        -1
    } else if hubs[0]@.hub_id == hub_id {
        0
    } else {
        1 + spec_hub_index(hubs.drop_first(), hub_id)
    }
}

/// The registry a primary hub owns: the mutable peer directory.
#[derive(Debug)]
pub struct HubRegistry {
    pub hubs: Vec<HubInfo>,
    pub version: u64,
    pub heartbeat_timeout_sec: u64,
}

impl HubRegistry {
    /// Identifiers in the directory never repeat.
    pub open spec fn wf(&self) -> bool {
        spec_hubs_unique(self.hubs@)
    }

    /// An empty registry with the given liveness timeout, in seconds.
    pub fn new(heartbeat_timeout_sec: u64) -> (r: HubRegistry)
        ensures
            r.hubs@.len() == 0,
            r.version == 0,
            r.heartbeat_timeout_sec == heartbeat_timeout_sec,
            r.wf(),
    {
        HubRegistry { hubs: Vec::new(), version: 0, heartbeat_timeout_sec }
    }

    /// Find a hub's position in the directory.
    fn find_hub(&self, hub_id: &str) -> (r: Option<usize>)
        ensures
            match r {
                Some(i) => i < self.hubs@.len() && self.hubs@[i as int]@.hub_id == hub_id@
                    && forall|j: int|
                    0 <= j < i ==> (#[trigger] self.hubs@[j])@.hub_id != hub_id@,
                None => !spec_has_hub(self.hubs@, hub_id@),
            },
    {
        let n = self.hubs.len();
        let mut i: usize = 0;
        while i < n
            invariant
                i <= n,
                n == self.hubs@.len(),
                forall|j: int| 0 <= j < i ==> (#[trigger] self.hubs@[j])@.hub_id != hub_id@,
            decreases n - i,
        {
            if str_eq(self.hubs[i].hub_id.as_str(), hub_id) {
                return Some(i);
            }
            i += 1;
        }
        None
    }

    /// Upsert a hub entry and bump the directory version.
    pub fn register(&mut self, hub: HubInfo)
        requires
            old(self).wf(),
            old(self).hubs@.len() < usize::MAX,
        ensures
            final(self).wf(),
            final(self).heartbeat_timeout_sec == old(self).heartbeat_timeout_sec,
            final(self).version == if old(self).version < u64::MAX {
                old(self).version + 1
            } else {
                old(self).version as int
            },
            spec_has_hub(final(self).hubs@, hub@.hub_id),
            ({
                let i = spec_hub_index(final(self).hubs@, hub@.hub_id);
                0 <= i < final(self).hubs@.len() && final(self).hubs@[i]@ == hub@
            }),
            final(self).hubs@.len() == if spec_has_hub(old(self).hubs@, hub@.hub_id) {
                old(self).hubs@.len() as int
            } else {
                old(self).hubs@.len() + 1 as int
            },
            forall|j: int|
                0 <= j < old(self).hubs@.len() && (#[trigger] old(self).hubs@[j])@.hub_id
                    != hub@.hub_id ==> final(self).hubs@[j] == old(self).hubs@[j],
            forall|id: Seq<char>|
                spec_has_hub(final(self).hubs@, id) <==> (spec_has_hub(old(self).hubs@, id) || id
                    == hub@.hub_id),
    {
        let ghost old_hubs = self.hubs@;
        match self.find_hub(hub.hub_id.as_str()) {
            Some(i) => {
                let ghost h_id = hub@.hub_id;
                self.hubs.set(i, hub);
                proof {
                    lemma_hub_index_first(self.hubs@, h_id, i as int);
                    assert forall|id: Seq<char>|
                        spec_has_hub(self.hubs@, id) <==> (spec_has_hub(old_hubs, id) || id
                            == h_id) by {
                        if spec_has_hub(self.hubs@, id) {
                            let k = choose|k: int|
                                0 <= k < self.hubs@.len() && (#[trigger] self.hubs@[k])@.hub_id
                                    == id;
                            if k != i {
                                assert(old_hubs[k]@.hub_id == id);
                            }
                        }
                        if spec_has_hub(old_hubs, id) {
                            let k = choose|k: int|
                                0 <= k < old_hubs.len() && (#[trigger] old_hubs[k])@.hub_id == id;
                            if k != i {
                                assert(self.hubs@[k]@.hub_id == id);
                            } else {
                                assert(old_hubs[k]@.hub_id == h_id);
                                assert(self.hubs@[i as int]@.hub_id == h_id);
                            }
                        }
                        if id == h_id {
                            assert(self.hubs@[i as int]@.hub_id == h_id);
                        }
                    }
                }
            },
            None => {
                let ghost h_id = hub@.hub_id;
                self.hubs.push(hub);
                proof {
                    lemma_hub_index_first(self.hubs@, h_id, old_hubs.len() as int);
                    assert forall|id: Seq<char>|
                        spec_has_hub(self.hubs@, id) <==> (spec_has_hub(old_hubs, id) || id
                            == h_id) by {
                        if spec_has_hub(self.hubs@, id) {
                            let k = choose|k: int|
                                0 <= k < self.hubs@.len() && (#[trigger] self.hubs@[k])@.hub_id
                                    == id;
                            if k < old_hubs.len() {
                                assert(old_hubs[k]@.hub_id == id);
                            }
                        }
                        if spec_has_hub(old_hubs, id) {
                            let k = choose|k: int|
                                0 <= k < old_hubs.len() && (#[trigger] old_hubs[k])@.hub_id == id;
                            assert(self.hubs@[k]@.hub_id == id);
                        }
                        if id == h_id {
                            assert(self.hubs@[old_hubs.len() as int]@.hub_id == h_id);
                        }
                    }
                }
            },
        }
        if self.version < u64::MAX {
            self.version = self.version + 1;
        }
    }

    /// Record a heartbeat: refresh the hub's last-seen stamp, mark it
    /// healthy and adopt its stats; an unknown hub is reported.
    pub fn heartbeat(&mut self, hub_id: &str, stats: HubStats, now_ms: i64) -> (r: bool)
        requires
            old(self).wf(),
        ensures
            final(self).wf(),
            final(self).version == old(self).version,
            final(self).heartbeat_timeout_sec == old(self).heartbeat_timeout_sec,
            r == spec_has_hub(old(self).hubs@, hub_id@),
            final(self).hubs@.len() == old(self).hubs@.len(),
            r ==> ({
                let i = spec_hub_index(old(self).hubs@, hub_id@);
                &&& 0 <= i < final(self).hubs@.len()
                &&& final(self).hubs@[i]@ == (HubInfoView {
                    status: HubStatus::Healthy,
                    last_seen: now_ms as int,
                    stats,
                    ..old(self).hubs@[i]@
                })
                &&& forall|j: int|
                    0 <= j < final(self).hubs@.len() && j != i
                        ==> (#[trigger] final(self).hubs@[j]) == old(self).hubs@[j]
            }),
            !r ==> final(self).hubs@ == old(self).hubs@,
    {
        let ghost old_hubs = self.hubs@;
        match self.find_hub(hub_id) {
            Some(i) => {
                let prev = &self.hubs[i];
                let updated = HubInfo {
                    hub_id: prev.hub_id.clone(),
                    public_url: prev.public_url.clone(),
                    role: prev.role.clone(),
                    status: HubStatus::Healthy,
                    last_seen: now_ms,
                    capabilities: clone_strings(&prev.capabilities),
                    stats,
                    public_key: match &prev.public_key {
                        Some(k) => Some(k.clone()),
                        None => None,
                    },
                };
                proof {
                    assert(updated@.capabilities =~= old_hubs[i as int]@.capabilities);
                }
                self.hubs.set(i, updated);
                proof {
                    lemma_hub_index_first(old_hubs, hub_id@, i as int);
                    assert forall|a: int, b: int|
                        0 <= a < b < self.hubs@.len() implies (#[trigger] self.hubs@[a])@.hub_id
                        != (#[trigger] self.hubs@[b])@.hub_id by {
                        if a != i && b != i {
                            assert(self.hubs@[a] == old_hubs[a]);
                            assert(self.hubs@[b] == old_hubs[b]);
                        } else if a == i {
                            assert(self.hubs@[b] == old_hubs[b]);
                        } else {
                            assert(self.hubs@[a] == old_hubs[a]);
                        }
                    }
                }
                true
            },
            None => false,
        }
    }

    /// Read one hub's entry by identifier.
    pub fn get(&self, hub_id: &str) -> (r: Option<HubInfo>)
        ensures
            match r {
                Some(h) => spec_has_hub(self.hubs@, hub_id@) && h@.hub_id == hub_id@ && exists|
                    i: int,
                |
                    0 <= i < self.hubs@.len() && h@ == (#[trigger] self.hubs@[i])@,
                None => !spec_has_hub(self.hubs@, hub_id@),
            },
    {
        match self.find_hub(hub_id) {
            Some(i) => {
                let h = self.hubs[i].clone();
                proof {
                    assert(h@ == self.hubs@[i as int]@);
                }
                Some(h)
            },
            None => None,
        }
    }

    /// The whole directory with its version, stamped with the given time.
    pub fn list(&self, now_ms: i64) -> (r: HubList)
        ensures
            r.hubs@.len() == self.hubs@.len(),
            forall|i: int|
                0 <= i < self.hubs@.len() ==> (#[trigger] r.hubs@[i])@ == self.hubs@[i]@,
            r.version == self.version,
            r.updated_at == now_ms,
    {
        HubList { hubs: clone_hub_infos(&self.hubs), version: self.version, updated_at: now_ms }
    }

    /// The healthy entries only, in directory order.
    pub fn list_healthy(&self) -> (r: Vec<HubInfo>)
        ensures
            ({
                let found = spec_healthy_hubs(self.hubs@);
                r@.len() == found.len() && forall|k: int|
                    0 <= k < found.len() ==> (#[trigger] r@[k])@ == found[k]@
            }),
    {
        let n = self.hubs.len();
        let mut out: Vec<HubInfo> = Vec::new();
        let ghost collected: Seq<HubInfo> = Seq::empty();
        let mut collected_t = Ghost(collected);
        let mut i: usize = 0;
        assert(self.hubs@.skip(0) == self.hubs@);
        while i < n
            invariant
                i <= n,
                n == self.hubs@.len(),
                out@.len() == collected_t@.len(),
                forall|k: int|
                    0 <= k < collected_t@.len() ==> (#[trigger] out@[k])@ == collected_t@[k]@,
                collected_t@ + spec_healthy_hubs(self.hubs@.skip(i as int)) == spec_healthy_hubs(
                    self.hubs@,
                ),
            decreases n - i,
        {
            proof {
                assert(self.hubs@.skip(i as int)[0] == self.hubs@[i as int]);
                assert(self.hubs@.skip(i as int).drop_first() =~= self.hubs@.skip(i as int + 1));
            }
            if self.hubs[i].status == HubStatus::Healthy {
                let h = self.hubs[i].clone();
                proof {
                    assert(h@ == self.hubs@[i as int]@);
                }
                out.push(h);
                proof {
                    collected_t@ = collected_t@.push(self.hubs@[i as int]);
                    assert(collected_t@ + spec_healthy_hubs(self.hubs@.skip(i as int + 1))
                        =~= spec_healthy_hubs(self.hubs@));
                }
            }
            i += 1;
        }
        proof {
            assert(self.hubs@.skip(n as int) =~= Seq::<HubInfo>::empty());
            assert(collected_t@ =~= spec_healthy_hubs(self.hubs@));
        }
        out
    }

    /// Mark every entry not seen within the timeout as inactive; fresher
    /// entries keep their status.
    pub fn check_inactive(&mut self, now_ms: i64)
        requires
            old(self).wf(),
            old(self).heartbeat_timeout_sec * 1000 <= i64::MAX,
        ensures
            final(self).wf(),
            final(self).version == old(self).version,
            final(self).heartbeat_timeout_sec == old(self).heartbeat_timeout_sec,
            final(self).hubs@.len() == old(self).hubs@.len(),
            forall|i: int|
                0 <= i < old(self).hubs@.len() ==> (#[trigger] final(self).hubs@[i])@ == if now_ms
                    - old(self).hubs@[i]@.last_seen > old(self).heartbeat_timeout_sec * 1000 {
                    HubInfoView { status: HubStatus::Inactive, ..old(self).hubs@[i]@ }
                } else {
                    old(self).hubs@[i]@
                },
    {
        let n = self.hubs.len();
        let timeout_ms: i64 = (self.heartbeat_timeout_sec * 1000) as i64;
        let ghost old_hubs = self.hubs@;
        let mut i: usize = 0;
        while i < n
            invariant
                i <= n,
                n == self.hubs@.len(),
                old_hubs.len() == n,
                timeout_ms == old(self).heartbeat_timeout_sec * 1000,
                self.version == old(self).version,
                self.heartbeat_timeout_sec == old(self).heartbeat_timeout_sec,
                old_hubs == old(self).hubs@,
                forall|j: int| i <= j < n ==> (#[trigger] self.hubs@[j]) == old_hubs[j],
                forall|j: int|
                    0 <= j < i ==> (#[trigger] self.hubs@[j])@ == if now_ms
                        - old_hubs[j]@.last_seen > timeout_ms {
                        HubInfoView { status: HubStatus::Inactive, ..old_hubs[j]@ }
                    } else {
                        old_hubs[j]@
                    },
            decreases n - i,
        {
            let overdue = now_ms >= i64::MIN + timeout_ms && now_ms - timeout_ms
                > self.hubs[i].last_seen;
            if overdue {
                let prev = &self.hubs[i];
                let updated = HubInfo {
                    hub_id: prev.hub_id.clone(),
                    public_url: prev.public_url.clone(),
                    role: prev.role.clone(),
                    status: HubStatus::Inactive,
                    last_seen: prev.last_seen,
                    capabilities: clone_strings(&prev.capabilities),
                    stats: prev.stats,
                    public_key: match &prev.public_key {
                        Some(k) => Some(k.clone()),
                        None => None,
                    },
                };
                proof {
                    assert(updated@.capabilities =~= old_hubs[i as int]@.capabilities);
                }
                self.hubs.set(i, updated);
            }
            i += 1;
        }
        proof {
            assert forall|a: int, b: int|
                0 <= a < b < self.hubs@.len() implies (#[trigger] self.hubs@[a])@.hub_id != (
            #[trigger] self.hubs@[b])@.hub_id by {
                assert(self.hubs@[a]@.hub_id == old_hubs[a]@.hub_id);
                assert(self.hubs@[b]@.hub_id == old_hubs[b]@.hub_id);
            }
        }
    }

    /// Remove a hub and bump the version; say whether it was there.
    pub fn remove(&mut self, hub_id: &str) -> (r: bool)
        requires
            old(self).wf(),
        ensures
            final(self).wf(),
            r == spec_has_hub(old(self).hubs@, hub_id@),
            !spec_has_hub(final(self).hubs@, hub_id@),
            r ==> final(self).hubs@.len() == old(self).hubs@.len() - 1,
            !r ==> final(self).hubs@ == old(self).hubs@ && final(self).version == old(
                self,
            ).version,
    {
        let ghost old_hubs = self.hubs@;
        match self.find_hub(hub_id) {
            Some(i) => {
                self.hubs.remove(i);
                if self.version < u64::MAX {
                    self.version = self.version + 1;
                }
                proof {
                    assert(self.hubs@ =~= old_hubs.take(i as int) + old_hubs.skip(i as int + 1));
                    assert forall|a: int, b: int|
                        0 <= a < b < self.hubs@.len() implies (#[trigger] self.hubs@[a])@.hub_id
                        != (#[trigger] self.hubs@[b])@.hub_id by {
                        let a0 = if a < i {
                            a
                        } else {
                            a + 1
                        };
                        let b0 = if b < i {
                            b
                        } else {
                            b + 1
                        };
                        assert(self.hubs@[a] == old_hubs[a0]);
                        assert(self.hubs@[b] == old_hubs[b0]);
                    }
                    if spec_has_hub(self.hubs@, hub_id@) {
                        let k = choose|k: int|
                            0 <= k < self.hubs@.len() && (#[trigger] self.hubs@[k])@.hub_id
                                == hub_id@;
                        let k0 = if k < i {
                            k
                        } else {
                            k + 1
                        };
                        assert(old_hubs[k0]@.hub_id == hub_id@);
                        assert(old_hubs[i as int]@.hub_id == hub_id@);
                        assert(false);
                    }
                }
                true
            },
            None => false,
        }
    }
}

/// The first index carrying an identifier, witnessed by a prefix free of
/// it.
proof fn lemma_hub_index_first(hubs: Seq<HubInfo>, hub_id: Seq<char>, at: int)
    requires
        0 <= at < hubs.len(),
        hubs[at]@.hub_id == hub_id,
        forall|j: int| 0 <= j < at ==> (#[trigger] hubs[j])@.hub_id != hub_id,
    ensures
        spec_hub_index(hubs, hub_id) == at,
    decreases at,
{
    if at > 0 {
        lemma_hub_index_first(hubs.drop_first(), hub_id, at - 1);
    }
}

} // verus!
