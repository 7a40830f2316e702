use voltguard::api::{Capability, ComponentId, ComponentType, Error};
use voltguard::hal::{
    cpu_component_state, cpu_components, cpu_count, discovered_cpu_count, cpu_governor_path, cpu_list_max_of, cpu_validates,
    governor_to_apply, parse_u64_reading, rapl_limit_microwatts, rapl_measurement_point,
    DriverRegistry, MeasurementType,
};

#[test]
fn cpu_list_ranges_and_singles() {
    assert_eq!(cpu_list_max_of("0-15\n"), 15);
    assert_eq!(cpu_count("0-15\n"), 16);
    assert_eq!(cpu_count("0"), 1);
    assert_eq!(cpu_count("0-3,8-11"), 12);
    assert_eq!(cpu_count("0,2,5"), 6);
    assert_eq!(cpu_count("7-3"), 4);
}

#[test]
fn cpu_list_unreadable_entries_count_as_zero() {
    assert_eq!(cpu_list_max_of(""), 0);
    assert_eq!(cpu_list_max_of("abc"), 0);
    assert_eq!(cpu_list_max_of("0-x,3"), 3);
    assert_eq!(cpu_list_max_of("0-3, 9"), 3);
    assert_eq!(cpu_list_max_of("0-3,"), 3);
    assert_eq!(cpu_list_max_of("1-2-5"), 0);
    assert_eq!(cpu_list_max_of("0-4294967296"), 0);
    assert_eq!(cpu_list_max_of("0-4294967294"), 4294967294);
}

#[test]
fn reading_u64_trims_and_reports_parse_errors() {
    assert_eq!(parse_u64_reading("15000000\n").unwrap(), 15_000_000);
    match parse_u64_reading("  \n") {
        Err(Error::Parse(m)) => assert_eq!(m, "cannot parse integer from empty string"),
        other => panic!("unexpected {other:?}"),
    }
    match parse_u64_reading("12W") {
        Err(Error::Parse(m)) => assert_eq!(m, "invalid digit found in string"),
        other => panic!("unexpected {other:?}"),
    }
    match parse_u64_reading("18446744073709551616") {
        Err(Error::Parse(m)) => assert_eq!(m, "number too large to fit in target type"),
        other => panic!("unexpected {other:?}"),
    }
}

#[test]
fn registry_finds_first_driver_of_a_type() {
    let mut r = DriverRegistry::new();
    assert_eq!(r.get_driver(ComponentType::Cpu), None);
    r.register_driver(ComponentType::Gpu);
    r.register_driver(ComponentType::Cpu);
    r.register_driver(ComponentType::Cpu);
    assert_eq!(r.get_driver(ComponentType::Cpu), Some(1));
    assert_eq!(r.get_driver(ComponentType::Gpu), Some(0));
    assert_eq!(r.get_driver(ComponentType::Disk), None);
    r.register_driver(ComponentType::Disk);
    assert_eq!(r.get_driver(ComponentType::Cpu), Some(1));
    assert_eq!(r.get_driver(ComponentType::Disk), Some(3));
    assert_eq!(r.driver_count(), 4);
    r.register_power_meter();
    assert_eq!(r.power_meter_count(), 1);
}

#[test]
fn discovery_keeps_successes_in_driver_order() {
    let a = cpu_component_state(ComponentId(1), 0, None);
    let b = cpu_component_state(ComponentId(2), 1, None);
    let c = cpu_component_state(ComponentId(3), 2, None);
    let results = vec![
        Ok(vec![a, b]),
        Err(Error::HardwareError("gone".to_string())),
        Ok(vec![]),
        Ok(vec![c]),
    ];
    let found = DriverRegistry::discover_all(&results);
    let ids: Vec<u128> = found.iter().map(|c| c.id.0).collect();
    assert_eq!(ids, vec![1, 2, 3]);
}

#[test]
fn cpu_component_describes_the_cpu() {
    let c = cpu_component_state(ComponentId(9), 12, Some("schedutil\n".to_string()));
    assert_eq!(c.name, "cpu12");
    assert_eq!(c.component_type, ComponentType::Cpu);
    assert_eq!(c.properties.driver.as_deref(), Some("cpufreq"));
    assert!(c.properties.vendor.is_none() && c.properties.model.is_none());
    assert!(c.properties.metadata.is_empty());
    assert!(c.power.is_none());
    match &c.capabilities[..] {
        [Capability::GovernorControl { available, current }] => {
            assert_eq!(available, &vec!["performance".to_string(), "powersave".to_string()]);
            assert_eq!(current, "schedutil\n");
        }
        other => panic!("unexpected {other:?}"),
    }
    let d = cpu_component_state(ComponentId(9), 0, None);
    match &d.capabilities[0] {
        Capability::GovernorControl { current, .. } => assert_eq!(current, "unknown"),
        other => panic!("unexpected {other:?}"),
    }
}

#[test]
fn governor_path_names_the_cpu() {
    assert_eq!(cpu_governor_path(0), "cpu0/cpufreq/scaling_governor");
    assert_eq!(cpu_governor_path(31), "cpu31/cpufreq/scaling_governor");
}

#[test]
fn only_governor_control_is_applied_by_the_cpu_driver() {
    let gov = Capability::GovernorControl {
        available: vec!["powersave".to_string()],
        current: "powersave".to_string(),
    };
    assert!(cpu_validates(&gov));
    assert_eq!(governor_to_apply(&gov).unwrap(), "powersave");
    let turbo = Capability::TurboBoost { enabled: true };
    assert!(!cpu_validates(&turbo));
    match governor_to_apply(&turbo) {
        Err(Error::CapabilityNotSupported(t)) => assert_eq!(t, format!("{:?}", turbo)),
        other => panic!("unexpected {other:?}"),
    }
}

#[test]
fn rapl_defaults() {
    let p = rapl_measurement_point(ComponentId(5), None);
    assert_eq!(p.name, "package-0");
    assert_eq!(p.measurement_type, MeasurementType::Rapl);
    assert_eq!(p.id, ComponentId(5));
    let q = rapl_measurement_point(ComponentId(5), Some("package-1".to_string()));
    assert_eq!(q.name, "package-1");
    assert_eq!(rapl_limit_microwatts(Ok(28_000_000)), 28_000_000);
    assert_eq!(
        rapl_limit_microwatts(Err(Error::Io("missing".to_string()))),
        15_000_000
    );
}

#[test]
fn cpu_discovery_lists_one_component_per_cpu() {
    assert_eq!(discovered_cpu_count(Ok(4)), 4);
    assert_eq!(discovered_cpu_count(Err(Error::Io("no file".into()))), 1);
    let v = cpu_components(
        vec![ComponentId(10), ComponentId(11), ComponentId(12)],
        vec![Some("powersave\n".into()), None, Some("performance".into())],
    );
    assert_eq!(v.len(), 3);
    let names: Vec<&str> = v.iter().map(|c| c.name.as_str()).collect();
    assert_eq!(names, vec!["cpu0", "cpu1", "cpu2"]);
    assert_eq!(v[1].id, ComponentId(11));
    match &v[1].capabilities[0] {
        Capability::GovernorControl { current, .. } => assert_eq!(current, "unknown"),
        other => panic!("unexpected {other:?}"),
    }
    assert!(cpu_components(vec![], vec![]).is_empty());
}
