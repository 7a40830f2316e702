//! The daemon's configuration and its defaults. Paths are held as their
//! text.

use vstd::prelude::*;
use crate::api::TimeSpan;

verus! {

/// Where the daemon listens and logs.
#[derive(Debug)]
pub struct DaemonConfig {
    pub socket_path: String,
    pub log_level: String,
    pub pid_file: String,
}

impl Default for DaemonConfig {
    fn default() -> (c: Self)
        ensures
            c.socket_path@ == "/var/run/voltguard.sock"@,
            c.log_level@ == "info"@,
            c.pid_file@ == "/run/voltguard.pid"@,
    {
        DaemonConfig {
            socket_path: String::from_str("/var/run/voltguard.sock"),
            log_level: String::from_str("info"),
            pid_file: String::from_str("/run/voltguard.pid"),
        }
    }
}

/// Settings of a user-defined profile.
#[derive(Debug)]
pub struct CustomProfile {
    pub cpu_governor: Option<String>,
    pub gpu_power_limit: Option<u64>,
    pub disk_apm_level: Option<u8>,
}

impl Default for CustomProfile {
    fn default() -> (c: Self)
        ensures
            c.cpu_governor is None,
            c.gpu_power_limit is None,
            c.disk_apm_level is None,
    {
        CustomProfile { cpu_governor: None, gpu_power_limit: None, disk_apm_level: None }
    }
}

/// The default profile's name and the user-defined profiles, as name and
/// settings pairs. Nothing here keeps a name from occurring twice; the
/// file's table, which the pairs are read from, holds each name once.
#[derive(Debug)]
pub struct ProfilesConfig {
    pub default: String,
    pub custom_profiles: Vec<(String, CustomProfile)>,
}

impl Default for ProfilesConfig {
    fn default() -> (c: Self)
        ensures
            c.default@ == Seq::<char>::empty(),
            c.custom_profiles@.len() == 0,
    {
        ProfilesConfig { default: String::new(), custom_profiles: Vec::new() }
    }
}

/// A rule of the time-based policy, as written in the configuration.
#[derive(Debug)]
pub struct TimeBasedRule {
    pub start: String,
    pub end: String,
    pub profile: String,
}

/// Settings of the built-in policies. The battery threshold and the thermal
/// limit are held as the bit patterns of their `f32` values (`f32::to_bits`).
#[derive(Debug)]
pub struct PoliciesConfig {
    pub battery_threshold_bits: Option<u32>,
    pub thermal_limit_bits: Option<u32>,
    pub time_based: Vec<TimeBasedRule>,
}

impl Default for PoliciesConfig {
    fn default() -> (c: Self)
        ensures
            c.battery_threshold_bits is None,
            c.thermal_limit_bits is None,
            c.time_based@.len() == 0,
    {
        PoliciesConfig { battery_threshold_bits: None, thermal_limit_bits: None, time_based: Vec::new() }
    }
}

/// How the daemon monitors power.
#[derive(Debug)]
pub struct MonitoringConfig {
    pub interval: TimeSpan,
    pub history_size: usize,
    pub export_metrics: bool,
}

impl Default for MonitoringConfig {
    fn default() -> (c: Self)
        ensures
            c.interval == TimeSpan::from_secs(1),
            c.history_size == 3600,
            c.export_metrics,
    {
        MonitoringConfig {
            interval: TimeSpan::from_secs(1),
            history_size: 3600,
            export_metrics: true,
        }
    }
}

/// The daemon's whole configuration.
#[derive(Debug)]
pub struct Config {
    pub daemon: DaemonConfig,
    pub profiles: ProfilesConfig,
    pub policies: PoliciesConfig,
    pub monitoring: MonitoringConfig,
    pub schema_version: u32,
}

impl Default for Config {
    fn default() -> (c: Self)
        ensures
            c.daemon.socket_path@ == "/var/run/voltguard.sock"@,
            c.daemon.log_level@ == "info"@,
            c.daemon.pid_file@ == "/run/voltguard.pid"@,
            c.profiles.default@ == Seq::<char>::empty(),
            c.profiles.custom_profiles@.len() == 0,
            c.policies.battery_threshold_bits is None,
            c.policies.thermal_limit_bits is None,
            c.policies.time_based@.len() == 0,
            c.monitoring.interval == TimeSpan::from_secs(1),
            c.monitoring.history_size == 3600,
            c.monitoring.export_metrics,
            c.schema_version == 1,
    {
        Config {
            daemon: DaemonConfig::default(),
            profiles: ProfilesConfig::default(),
            policies: PoliciesConfig::default(),
            monitoring: MonitoringConfig::default(),
            schema_version: 1,
        }
    }
}

} // verus!
