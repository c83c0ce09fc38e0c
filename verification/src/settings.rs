//! Configuration shapes and their defaults. Loading from files or the
//! environment happens outside; the defaults here are the reference.

use vstd::prelude::*;

use crate::codec::SCALE;
use crate::text::to_owned_string;

verus! {

/// Which side of the federation protocol a hub plays.
#[derive(Debug, Clone, Copy, PartialEq, Eq, Structural)]
pub enum HubRole {
    Primary,
    Secondary,
}

impl Default for HubRole {
    fn default() -> (r: Self)
        ensures
            r == HubRole::Secondary,
    {
        HubRole::Secondary
    }
}

/// The default page size of listings.
pub fn default_limit() -> (r: usize)
    ensures
        r == 20,
{
    20
}

/// The default capability set a hub announces.
pub fn default_capabilities() -> (r: Vec<String>)
    ensures
        r@.len() == 3,
        r@[0]@ == "entities"@,
        r@[1]@ == "trust"@,
        r@[2]@ == "search"@,
{
    let mut v: Vec<String> = Vec::new();
    v.push(to_owned_string("entities"));
    v.push(to_owned_string("trust"));
    v.push(to_owned_string("search"));
    v
}

/// The default bind host.
pub fn default_host() -> (r: String)
    ensures
        r@ == "0.0.0.0"@,
{
    to_owned_string("0.0.0.0")
}

/// The default HTTP port.
pub fn default_http_port() -> (r: u16)
    ensures
        r == 8080,
{
    8080
}

/// The default RPC port.
pub fn default_grpc_port() -> (r: u16)
    ensures
        r == 50051,
{
    50051
}

/// The default data directory.
pub fn default_data_dir() -> (r: String)
    ensures
        r@ == "./data"@,
{
    to_owned_string("./data")
}

/// The default store cache size in megabytes.
pub fn default_cache_size() -> (r: usize)
    ensures
        r == 256,
{
    256
}

/// Switches that default to on.
pub fn default_true() -> (r: bool)
    ensures
        r,
{
    true
}

/// The default registration interval in seconds.
pub fn default_registration_interval() -> (r: u64)
    ensures
        r == 300,
{
    300
}

/// The default directory refresh interval in seconds.
pub fn default_hub_list_refresh() -> (r: u64)
    ensures
        r == 60,
{
    60
}

/// The default heartbeat timeout, as a multiple of the registration
/// interval.
pub fn default_heartbeat_timeout_multiplier() -> (r: u32)
    ensures
        r == 3,
{
    3
}

/// The default damping factor, fixed-point millionths.
pub fn default_damping_factor() -> (r: i64)
    ensures
        r == 800000,
{
    800000
}

/// The default minimum trust threshold, fixed-point millionths.
pub fn default_min_trust() -> (r: i64)
    ensures
        r == 10000,
{
    10000
}

/// The default metrics endpoint path.
pub fn default_metrics_path() -> (r: String)
    ensures
        r@ == "/metrics"@,
{
    to_owned_string("/metrics")
}

/// The default disk warning threshold in percent.
pub fn default_warning_threshold() -> (r: u8)
    ensures
        r == 60,
{
    60
}

/// The default disk critical threshold in percent.
pub fn default_critical_threshold() -> (r: u8)
    ensures
        r == 80,
{
    80
}

/// The default resource check interval in seconds.
pub fn default_check_interval() -> (r: u64)
    ensures
        r == 60,
{
    60
}

/// Identity of this hub.
#[derive(Debug)]
pub struct HubSettings {
    pub role: HubRole,
    pub hub_id: String,
    pub public_url: String,
    pub private_key_path: Option<String>,
    pub capabilities: Vec<String>,
}

/// Bind addresses and worker count of the transports.
#[derive(Debug, Clone)]
pub struct ServerSettings {
    pub host: String,
    pub http_port: u16,
    pub grpc_port: u16,
    pub workers: usize,
}

impl Default for ServerSettings {
    fn default() -> (r: Self)
        ensures
            r.host@ == "0.0.0.0"@,
            r.http_port == 8080,
            r.grpc_port == 50051,
            r.workers == 1,
    {
        ServerSettings {
            host: default_host(),
            http_port: default_http_port(),
            grpc_port: default_grpc_port(),
            workers: 1,
        }
    }
}

/// Where and how entity data is kept.
#[derive(Debug, Clone)]
pub struct DatabaseSettings {
    pub data_dir: String,
    pub compression: bool,
    pub cache_size_mb: usize,
}

impl Default for DatabaseSettings {
    fn default() -> (r: Self)
        ensures
            r.data_dir@ == "./data"@,
            r.compression,
            r.cache_size_mb == 256,
    {
        DatabaseSettings {
            data_dir: default_data_dir(),
            compression: default_true(),
            cache_size_mb: default_cache_size(),
        }
    }
}

/// Federation cadence.
#[derive(Debug, Clone)]
pub struct DiscoverySettings {
    pub enabled: bool,
    pub primary_hub_url: Option<String>,
    pub registration_interval_sec: u64,
    pub hub_list_refresh_sec: u64,
    pub heartbeat_timeout_multiplier: u32,
}

impl Default for DiscoverySettings {
    fn default() -> (r: Self)
        ensures
            r.enabled,
            r.primary_hub_url is None,
            r.registration_interval_sec == 300,
            r.hub_list_refresh_sec == 60,
            r.heartbeat_timeout_multiplier == 3,
    {
        DiscoverySettings {
            enabled: default_true(),
            primary_hub_url: None,
            registration_interval_sec: default_registration_interval(),
            hub_list_refresh_sec: default_hub_list_refresh(),
            heartbeat_timeout_multiplier: default_heartbeat_timeout_multiplier(),
        }
    }
}

/// Bounds and factors of the trust engine, fixed-point millionths.
#[derive(Debug, Clone)]
pub struct TrustSettings {
    pub max_depth: u8,
    pub damping_factor: i64,
    pub min_trust_threshold: i64,
}

impl Default for TrustSettings {
    fn default() -> (r: Self)
        ensures
            r.max_depth == 5,
            r.damping_factor == 800000,
            r.min_trust_threshold == 10000,
            0 <= r.damping_factor <= SCALE as int,
            0 <= r.min_trust_threshold <= SCALE as int,
    {
        TrustSettings {
            max_depth: crate::trust::default_max_depth(),
            damping_factor: default_damping_factor(),
            min_trust_threshold: default_min_trust(),
        }
    }
}

/// The whole configuration, sections in one place.
#[derive(Debug)]
pub struct Settings {
    pub hub: HubSettings,
    pub server: ServerSettings,
    pub database: DatabaseSettings,
    pub discovery: DiscoverySettings,
    pub trust: TrustSettings,
    pub metrics: MetricsSettings,
    pub resources: crate::resources::ResourceSettings,
}

impl Default for Settings {
    fn default() -> (r: Self)
        ensures
            r.server.http_port == 8080,
            r.server.grpc_port == 50051,
            r.trust.max_depth == 5,
            r.discovery.registration_interval_sec == 300,
            r.resources.warning_threshold == 60,
            r.resources.critical_threshold == 80,
    {
        Settings {
            hub: HubSettings {
                role: HubRole::Secondary,
                hub_id: to_owned_string("default-hub"),
                public_url: to_owned_string("http://localhost:8080"),
                private_key_path: None,
                capabilities: default_capabilities(),
            },
            server: ServerSettings::default(),
            database: DatabaseSettings::default(),
            discovery: DiscoverySettings::default(),
            trust: TrustSettings::default(),
            metrics: MetricsSettings::default(),
            resources: crate::resources::ResourceSettings::default(),
        }
    }
}

/// Metrics exposition switches.
#[derive(Debug, Clone)]
pub struct MetricsSettings {
    pub enabled: bool,
    pub path: String,
}

impl Default for MetricsSettings {
    fn default() -> (r: Self)
        ensures
            r.enabled,
            r.path@ == "/metrics"@,
    {
        MetricsSettings { enabled: default_true(), path: default_metrics_path() }
    }
}

} // verus!
