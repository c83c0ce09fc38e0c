//! The resource gate: a severity level read from disk monitoring, and the
//! acceptance rules the services apply to it.

use vstd::prelude::*;

use crate::text::to_owned_string;

verus! {

/// Severity of resource pressure.
#[derive(Debug, Clone, Copy, PartialEq, Eq, Structural)]
pub enum ResourceLevel {
    Normal,
    Warning,
    Critical,
}

impl Default for ResourceLevel {
    fn default() -> (r: Self)
        ensures
            r == ResourceLevel::Normal,
    {
        ResourceLevel::Normal
    }
}

impl ResourceLevel {
    /// The canonical lower-case text of this level.
    pub open spec fn text(self) -> Seq<char> {
        match self {
            ResourceLevel::Normal => "normal"@,
            ResourceLevel::Warning => "warning"@,
            ResourceLevel::Critical => "critical"@,
        }
    }

    /// Canonical text of this level, e.g. `critical`.
    pub fn as_str(self) -> (r: &'static str)
        ensures
            r@ == self.text(),
    {
        match self {
            ResourceLevel::Normal => "normal",
            ResourceLevel::Warning => "warning",
            ResourceLevel::Critical => "critical",
        }
    }

    /// The level's text as an owned string.
    pub fn to_string(self) -> (r: String)
        ensures
            r@ == self.text(),
    {
        to_owned_string(self.as_str())
    }
}

/// Whether a new agent is accepted at this level: everything but critical.
pub open spec fn spec_can_accept_agent(level: ResourceLevel) -> bool {
    level != ResourceLevel::Critical
}

/// Whether content is accepted: always below critical, and at critical only
/// from an already known agent.
pub open spec fn spec_can_accept_content(level: ResourceLevel, agent_known: bool) -> bool {
    level != ResourceLevel::Critical || agent_known
}

/// The current snapshot of resource pressure.
#[derive(Debug)]
pub struct ResourceStatus {
    pub level: ResourceLevel,
    /// Disk usage in tenths of a percent (`0` to `1000`).
    pub disk_usage_tenths: u32,
    pub hint: Option<String>,
    pub warnings: Vec<String>,
}

impl Clone for ResourceStatus {
    /// A copy with the same level and usage.
    fn clone(&self) -> (r: Self)
        ensures
            r.level == self.level,
            r.disk_usage_tenths == self.disk_usage_tenths,
    {
        ResourceStatus {
            level: self.level,
            disk_usage_tenths: self.disk_usage_tenths,
            hint: match &self.hint {
                Some(h) => Some(h.clone()),
                None => None,
            },
            warnings: self.warnings.clone(),
        }
    }
}

impl Default for ResourceStatus {
    fn default() -> (r: Self)
        ensures
            r.level == ResourceLevel::Normal,
            r.disk_usage_tenths == 0,
            r.hint is None,
            r.warnings@.len() == 0,
    {
        ResourceStatus {
            level: ResourceLevel::Normal,
            disk_usage_tenths: 0,
            hint: None,
            warnings: Vec::new(),
        }
    }
}

/// A short status block attached to API responses when the hub is under
/// pressure.
#[derive(Debug)]
pub struct HubStatusSummary {
    pub level: ResourceLevel,
    pub hint: Option<String>,
    pub warnings: Vec<String>,
}

/// Advice shown when resources run low.
pub fn warning_hint() -> (r: String) {
    to_owned_string(
        "Server resources are running low. Please consider integrating new hubs into the network.",
    )
}

/// Advice shown when resources are exhausted.
pub fn critical_hint() -> (r: String) {
    to_owned_string(
        "Server has reached resource limits. New agents are not accepted. Content from unknown agents is restricted. Please set up your own hub.",
    )
}

/// Thresholds for the monitor, in whole percent.
#[derive(Debug, Clone)]
pub struct ResourceSettings {
    pub warning_threshold: u8,
    pub critical_threshold: u8,
    pub monitor_path: Option<String>,
    pub check_interval_sec: u64,
}

impl Default for ResourceSettings {
    fn default() -> (r: Self)
        ensures
            r.warning_threshold == 60,
            r.critical_threshold == 80,
            r.monitor_path is None,
            r.check_interval_sec == 60,
    {
        ResourceSettings {
            warning_threshold: 60,
            critical_threshold: 80,
            monitor_path: None,
            check_interval_sec: 60,
        }
    }
}

/// The level a disk usage reading falls in, given the thresholds.
pub open spec fn spec_level_for(
    usage_tenths: int,
    warning_threshold: int,
    critical_threshold: int,
) -> ResourceLevel {
    if usage_tenths >= critical_threshold * 10 {
        ResourceLevel::Critical
    } else if usage_tenths >= warning_threshold * 10 {
        ResourceLevel::Warning
    } else {
        ResourceLevel::Normal
    }
}

/// The resource monitor: it holds the thresholds and the latest status;
/// reading the disk happens outside and is handed in as a number.
#[derive(Debug)]
pub struct ResourceMonitor {
    pub settings: ResourceSettings,
    pub current_status: ResourceStatus,
}

impl ResourceMonitor {
    /// A monitor starting at the normal level.
    pub fn new(settings: ResourceSettings) -> (r: ResourceMonitor)
        ensures
            r.current_status.level == ResourceLevel::Normal,
            r.settings == settings,
    {
        ResourceMonitor { settings, current_status: ResourceStatus::default() }
    }

    /// The latest status snapshot.
    pub fn get_status(&self) -> (r: ResourceStatus)
        ensures
            r.level == self.current_status.level,
            r.disk_usage_tenths == self.current_status.disk_usage_tenths,
    {
        self.current_status.clone()
    }

    /// The status block for API responses: present only above normal.
    pub fn get_hub_status_summary(&self) -> (r: Option<HubStatusSummary>)
        ensures
            match r {
                Some(s) => self.current_status.level != ResourceLevel::Normal && s.level
                    == self.current_status.level,
                None => self.current_status.level == ResourceLevel::Normal,
            },
    {
        if self.current_status.level == ResourceLevel::Normal {
            None
        } else {
            Some(
                HubStatusSummary {
                    level: self.current_status.level,
                    hint: match &self.current_status.hint {
                        Some(h) => Some(h.clone()),
                        None => None,
                    },
                    warnings: self.current_status.warnings.clone(),
                },
            )
        }
    }

    /// Whether a new agent is accepted under the given status.
    pub fn check_can_accept_agent(&self, status: &ResourceStatus) -> (r: bool)
        ensures
            r == spec_can_accept_agent(status.level),
    {
        status.level != ResourceLevel::Critical
    }

    /// Whether content from a (possibly unknown) agent is accepted under
    /// the given status.
    pub fn check_can_accept_content(&self, status: &ResourceStatus, agent_known: bool) -> (r: bool)
        ensures
            r == spec_can_accept_content(status.level, agent_known),
    {
        match status.level {
            ResourceLevel::Normal => true,
            ResourceLevel::Warning => true,
            ResourceLevel::Critical => agent_known,
        }
    }

    /// Fold a fresh disk reading (tenths of a percent) into the status: the
    /// level follows the thresholds, with a hint and a warning above
    /// normal.
    pub fn update_status(&mut self, disk_usage_tenths: u32)
        ensures
            final(self).current_status.level == spec_level_for(
                disk_usage_tenths as int,
                old(self).settings.warning_threshold as int,
                old(self).settings.critical_threshold as int,
            ),
            final(self).current_status.disk_usage_tenths == disk_usage_tenths,
            final(self).settings == old(self).settings,
            (final(self).current_status.level is Normal
                <==> final(self).current_status.hint is None),
    {
        let level = if disk_usage_tenths >= (self.settings.critical_threshold as u32) * 10 {
            ResourceLevel::Critical
        } else if disk_usage_tenths >= (self.settings.warning_threshold as u32) * 10 {
            ResourceLevel::Warning
        } else {
            ResourceLevel::Normal
        };
        let hint: Option<String> = match level {
            ResourceLevel::Normal => None,
            ResourceLevel::Warning => Some(warning_hint()),
            ResourceLevel::Critical => Some(critical_hint()),
        };
        let mut warnings: Vec<String> = Vec::new();
        match level {
            ResourceLevel::Normal => {},
            ResourceLevel::Warning => {
                warnings.push(to_owned_string("disk usage at or above the warning threshold"));
            },
            ResourceLevel::Critical => {
                warnings.push(to_owned_string("disk usage at or above the critical threshold"));
            },
        }
        self.current_status = ResourceStatus { level, disk_usage_tenths, hint, warnings };
    }
}

} // verus!
