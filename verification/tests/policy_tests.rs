use voltguard::api::{ComponentId, PowerProfile};
use voltguard::api::Capability;
use voltguard::policy::{
    collect_violations, profile_name, remediations, BatteryThresholdPolicy, ThermalPolicy, PolicyAction, PolicyViolation, Schedule,
    Severity, TimeBasedPolicy, TimeOfDay,
};

fn at(h: u32, m: u32) -> TimeOfDay {
    TimeOfDay { secs: h * 3600 + m * 60, nanos: 0 }
}

fn violation(remedy: Option<PolicyAction>) -> PolicyViolation {
    PolicyViolation {
        policy_name: "p".into(),
        severity: Severity::Warning,
        message: "m".into(),
        remediation: remedy,
    }
}

#[test]
fn remediations_keep_violation_order_and_skip_missing_ones() {
    let acts = remediations(vec![
        violation(Some(PolicyAction::SetProfile(PowerProfile::PowerSave))),
        violation(None),
        violation(Some(PolicyAction::Notify("hot".into()))),
        violation(Some(PolicyAction::ApplyCapability {
            component_id: ComponentId(3),
            capability: Capability::TurboBoost { enabled: false },
        })),
    ]);
    assert_eq!(acts.len(), 3);
    assert!(matches!(acts[0], PolicyAction::SetProfile(PowerProfile::PowerSave)));
    assert!(matches!(&acts[1], PolicyAction::Notify(t) if t == "hot"));
    assert!(matches!(&acts[2], PolicyAction::ApplyCapability { component_id, .. } if *component_id == ComponentId(3)));
    assert!(remediations(vec![]).is_empty());
}

#[test]
fn profile_names_match_debug() {
    for p in [PowerProfile::Performance, PowerProfile::Balanced, PowerProfile::PowerSave, PowerProfile::Custom] {
        assert_eq!(profile_name(p), format!("{:?}", p));
    }
}

#[test]
fn time_based_policy_asks_for_the_scheduled_profile() {
    let policy = TimeBasedPolicy::from_schedules(vec![
        Schedule { start_time: at(22, 0), end_time: at(23, 59), profile: PowerProfile::PowerSave },
        Schedule { start_time: at(8, 0), end_time: at(18, 0), profile: PowerProfile::Performance },
        Schedule { start_time: at(9, 0), end_time: at(10, 0), profile: PowerProfile::Balanced },
    ]);
    assert_eq!(policy.name(), "time_based");
    assert_eq!(policy.description(), "Switch power profiles based on time of day");
    let v = policy.evaluate_at(at(9, 30), PowerProfile::Balanced).unwrap();
    assert_eq!(v.policy_name, "time_based");
    assert_eq!(v.severity, Severity::Info);
    assert_eq!(v.message, "Time-based profile change to Performance");
    assert!(matches!(v.remediation, Some(PolicyAction::SetProfile(PowerProfile::Performance))));
    assert!(policy.evaluate_at(at(9, 30), PowerProfile::Performance).is_none());
    assert!(policy.evaluate_at(at(18, 0), PowerProfile::Balanced).is_none());
    assert!(policy.evaluate_at(at(7, 59), PowerProfile::Balanced).is_none());
    let v = policy.evaluate_at(at(22, 0), PowerProfile::Balanced).unwrap();
    assert_eq!(v.message, "Time-based profile change to PowerSave");
    assert_eq!(policy.schedules().len(), 3);
}

#[test]
fn battery_policy_asks_for_power_save_when_low() {
    let b = BatteryThresholdPolicy::new(20.0f32.to_bits());
    assert_eq!(f32::from_bits(b.threshold_bits()), 20.0);
    assert_eq!(b.name(), "battery_threshold");
    assert_eq!(b.description(), "Switch to power save mode when battery is low");
    let v = b.evaluate_with(true, PowerProfile::Performance).unwrap();
    assert_eq!(v.policy_name, "battery_threshold");
    assert_eq!(v.severity, Severity::Warning);
    assert_eq!(v.message, "Battery below threshold, switching to power save");
    assert!(matches!(v.remediation, Some(PolicyAction::SetProfile(PowerProfile::PowerSave))));
    assert!(b.evaluate_with(true, PowerProfile::PowerSave).is_none());
    assert!(b.evaluate_with(false, PowerProfile::Balanced).is_none());
}

#[test]
fn thermal_policy_lowers_performance_when_hot() {
    let t = ThermalPolicy::new(85.0f32.to_bits());
    assert_eq!(f32::from_bits(t.max_temperature_bits()), 85.0);
    assert_eq!(t.name(), "thermal_protection");
    assert_eq!(t.description(), "Reduce performance when system temperature is too high");
    let v = t.evaluate_with(true).unwrap();
    assert_eq!(v.policy_name, "thermal_protection");
    assert_eq!(v.severity, Severity::Critical);
    assert_eq!(v.message, "Temperature above limit, reducing performance");
    assert!(matches!(v.remediation, Some(PolicyAction::SetProfile(PowerProfile::PowerSave))));
    let again = t.evaluate_with(true).unwrap();
    assert!(matches!(again.remediation, Some(PolicyAction::SetProfile(PowerProfile::PowerSave))));
    assert!(t.evaluate_with(false).is_none());
}

#[test]
fn reported_violations_keep_policy_order() {
    let got = collect_violations(vec![None, Some(violation(None)), None, Some(violation(Some(PolicyAction::Notify("n".into()))))]);
    assert_eq!(got.len(), 2);
    assert!(got[0].remediation.is_none());
    assert!(matches!(&got[1].remediation, Some(PolicyAction::Notify(t)) if t == "n"));
    assert!(collect_violations(vec![None, None]).is_empty());
}
