use voltguard::api::{
    Capability, ComponentId, ComponentProperties, ComponentState, ComponentType,
    PowerMeasurement, TimeSpan, Timestamp,
};
use voltguard::engine::{
    build_suggestion, get_optimization_capability, get_threshold, MetricsCollector,
    SuggestionAction, SuggestionSeverity, DEFAULT_MAX_HISTORY,
};

fn m(secs: i64, watts: f64) -> PowerMeasurement {
    PowerMeasurement {
        watts_bits: watts.to_bits(),
        uncertainty_bits: 0.1f64.to_bits(),
        timestamp: Timestamp { secs, nanos: 0 },
    }
}

fn component(ty: ComponentType, caps: Vec<Capability>) -> ComponentState {
    ComponentState {
        id: ComponentId(4),
        component_type: ty,
        name: "c".into(),
        power: None,
        properties: ComponentProperties { vendor: None, model: None, driver: None, metadata: vec![] },
        capabilities: caps,
    }
}

#[test]
fn a_new_collector_keeps_an_hour_of_samples() {
    let c = MetricsCollector::new();
    assert_eq!(c.max_history(), 3600);
    assert_eq!(DEFAULT_MAX_HISTORY, 3600);
    assert!(c.latest_measurements().is_empty());
    assert!(c.recent_since(ComponentId(1), Timestamp { secs: 0, nanos: 0 }).is_none());
}

#[test]
fn history_keeps_the_latest_max_history_samples() {
    let mut c = MetricsCollector::new();
    let id = ComponentId(1);
    for s in 0..(DEFAULT_MAX_HISTORY as i64 + 5) {
        c.record_power(id, m(s, s as f64));
    }
    let all = c.recent_since(id, Timestamp { secs: i64::MIN, nanos: 0 }).unwrap();
    assert_eq!(all.len(), DEFAULT_MAX_HISTORY);
    assert_eq!(all[0].timestamp.secs, 5);
    assert_eq!(all[all.len() - 1].timestamp.secs, DEFAULT_MAX_HISTORY as i64 + 4);
    assert_eq!(c.latest_measurements(), vec![m(DEFAULT_MAX_HISTORY as i64 + 4, (DEFAULT_MAX_HISTORY + 4) as f64)]);
}

#[test]
fn recent_samples_are_those_strictly_after_the_cutoff() {
    let mut c = MetricsCollector::new();
    let id = ComponentId(1);
    for s in [10, 20, 30] {
        c.record_power(id, m(s, 1.0));
    }
    let r = c.recent_since(id, Timestamp { secs: 20, nanos: 0 }).unwrap();
    assert_eq!(r, vec![m(30, 1.0)]);
    assert!(c.recent_since(id, Timestamp { secs: 30, nanos: 0 }).is_none());
    assert!(c.recent_since(ComponentId(2), Timestamp { secs: 0, nanos: 0 }).is_none());
}

#[test]
fn latest_sample_of_each_component() {
    let mut c = MetricsCollector::new();
    c.record_power(ComponentId(1), m(1, 1.0));
    c.record_power(ComponentId(2), m(2, 2.0));
    c.record_power(ComponentId(1), m(3, 3.0));
    let mut latest = c.latest_measurements();
    latest.sort_by_key(|x| x.timestamp.secs);
    assert_eq!(latest, vec![m(2, 2.0), m(3, 3.0)]);
    let total: f64 = latest.iter().map(|x| f64::from_bits(x.watts_bits)).sum();
    assert_eq!(total, 5.0);
}

#[test]
fn thresholds_by_component_type() {
    assert_eq!(get_threshold(ComponentType::Cpu), 15);
    assert_eq!(get_threshold(ComponentType::Gpu), 20);
    assert_eq!(get_threshold(ComponentType::Disk), 5);
    assert_eq!(get_threshold(ComponentType::Custom), 5);
}

#[test]
fn optimisation_prefers_the_powersave_governor_on_cpus() {
    let cpu = component(ComponentType::Cpu, vec![
        Capability::GovernorControl { available: vec!["performance".into()], current: "performance".into() },
        Capability::GovernorControl {
            available: vec!["performance".into(), "powersave".into()],
            current: "performance".into(),
        },
    ]);
    assert_eq!(
        get_optimization_capability(&cpu),
        Capability::GovernorControl {
            available: vec!["performance".into(), "powersave".into()],
            current: "powersave".into(),
        }
    );
    let rpm = Capability::RuntimePowerManagement {
        enabled: true,
        autosuspend_delay: Some(TimeSpan::from_secs(2)),
    };
    let plain_cpu = component(ComponentType::Cpu, vec![]);
    assert_eq!(get_optimization_capability(&plain_cpu), rpm);
    let disk = component(ComponentType::Disk, vec![Capability::GovernorControl {
        available: vec!["powersave".into()],
        current: "x".into(),
    }]);
    assert_eq!(get_optimization_capability(&disk), rpm);
}

#[test]
fn suggestions_are_medium_and_propose_the_optimisation() {
    let disk = component(ComponentType::Disk, vec![]);
    let s = build_suggestion(&disk, "c consuming 7.00W, consider optimization".into());
    assert_eq!(s.component_id, ComponentId(4));
    assert_eq!(s.severity, SuggestionSeverity::Medium);
    assert_eq!(s.description, "c consuming 7.00W, consider optimization");
    match s.action {
        Some(SuggestionAction::ApplyCapability(c)) => assert_eq!(c, get_optimization_capability(&disk)),
        other => panic!("unexpected {other:?}"),
    }
}
