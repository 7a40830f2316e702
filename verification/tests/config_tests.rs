use voltguard::api::TimeSpan;
use voltguard::config::{
    Config, CustomProfile, DaemonConfig, MonitoringConfig, PoliciesConfig, ProfilesConfig,
};

#[test]
fn daemon_defaults() {
    let d = DaemonConfig::default();
    assert_eq!(d.socket_path, "/var/run/voltguard.sock");
    assert_eq!(d.log_level, "info");
    assert_eq!(d.pid_file, "/run/voltguard.pid");
}

#[test]
fn monitoring_defaults() {
    let m = MonitoringConfig::default();
    assert_eq!(m.interval, TimeSpan::from_secs(1));
    assert_eq!(m.history_size, 3600);
    assert!(m.export_metrics);
}

#[test]
fn whole_config_defaults() {
    let c = Config::default();
    assert_eq!(c.schema_version, 1);
    assert_eq!(c.daemon.socket_path, "/var/run/voltguard.sock");
    assert!(c.profiles.default.is_empty());
    assert!(c.profiles.custom_profiles.is_empty());
    assert!(c.policies.battery_threshold_bits.is_none());
    assert!(c.policies.thermal_limit_bits.is_none());
    assert!(c.policies.time_based.is_empty());
    assert_eq!(c.monitoring.history_size, 3600);
    let p = ProfilesConfig::default();
    assert!(p.custom_profiles.is_empty());
    let cp = CustomProfile::default();
    assert!(cp.cpu_governor.is_none() && cp.gpu_power_limit.is_none() && cp.disk_apm_level.is_none());
    let pc = PoliciesConfig::default();
    assert!(pc.time_based.is_empty());
}
