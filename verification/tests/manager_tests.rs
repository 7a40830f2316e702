use voltguard::api::{
    Capability, ComponentId, ComponentProperties, ComponentState, ComponentType, Error,
    PowerProfile, SystemEvent,
};
use voltguard::hal::{cpu_component_state, DriverRegistry};
use voltguard::manager::{
    apply_balanced_settings, apply_performance_settings, apply_powersave_settings,
    after_apply, after_validation, profile_changed_event, CapabilityStep, PowerManager,
};

fn component(id: u128, ty: ComponentType, caps: Vec<Capability>) -> ComponentState {
    ComponentState {
        id: ComponentId(id),
        component_type: ty,
        name: format!("c{id}"),
        power: None,
        properties: ComponentProperties { vendor: None, model: None, driver: None, metadata: vec![] },
        capabilities: caps,
    }
}

fn governors(list: &[&str], current: &str) -> Capability {
    Capability::GovernorControl {
        available: list.iter().map(|s| s.to_string()).collect(),
        current: current.to_string(),
    }
}

#[test]
fn new_manager_is_empty_and_balanced() {
    let pm = PowerManager::new();
    assert_eq!(pm.current_profile(), PowerProfile::Balanced);
    assert!(pm.get_components().is_empty());
    assert!(pm.get_component(ComponentId(1)).is_none());
}

#[test]
fn initialize_records_components_and_announces_each() {
    let mut pm = PowerManager::new();
    let events = pm.initialize(vec![
        cpu_component_state(ComponentId(1), 0, None),
        component(2, ComponentType::Gpu, vec![]),
    ]);
    assert_eq!(events.len(), 2);
    match &events[0] {
        SystemEvent::ComponentDiscovered(c) => assert_eq!(c.id, ComponentId(1)),
        other => panic!("unexpected {other:?}"),
    }
    match &events[1] {
        SystemEvent::ComponentDiscovered(c) => assert_eq!(c.name, "c2"),
        other => panic!("unexpected {other:?}"),
    }
    assert_eq!(pm.get_component(ComponentId(1)).unwrap().name, "cpu0");
    assert_eq!(pm.get_component(ComponentId(2)).unwrap().component_type, ComponentType::Gpu);
    assert!(pm.get_component(ComponentId(3)).is_none());
    let mut ids: Vec<u128> = pm.get_components().iter().map(|c| c.id.0).collect();
    ids.sort();
    assert_eq!(ids, vec![1, 2]);
}

#[test]
fn later_discovery_replaces_a_known_component() {
    let mut pm = PowerManager::new();
    pm.initialize(vec![component(1, ComponentType::Disk, vec![])]);
    let mut newer = component(1, ComponentType::Disk, vec![]);
    newer.name = "renamed".to_string();
    pm.initialize(vec![newer]);
    assert_eq!(pm.get_components().len(), 1);
    assert_eq!(pm.get_component(ComponentId(1)).unwrap().name, "renamed");
}

#[test]
fn switching_to_powersave_selects_the_powersave_governor_on_cpus() {
    let mut pm = PowerManager::new();
    pm.initialize(vec![
        component(1, ComponentType::Cpu, vec![
            governors(&["performance", "powersave"], "performance"),
            Capability::TurboBoost { enabled: true },
            governors(&["ondemand"], "ondemand"),
        ]),
        component(2, ComponentType::Gpu, vec![governors(&["powersave"], "x")]),
    ]);
    let switch = pm.set_profile(PowerProfile::PowerSave);
    assert_eq!(switch.from, PowerProfile::Balanced);
    assert_eq!(switch.to, PowerProfile::PowerSave);
    assert_eq!(pm.current_profile(), PowerProfile::PowerSave);
    assert_eq!(switch.actions.len(), 1);
    assert_eq!(switch.actions[0].0, ComponentId(1));
    assert_eq!(
        switch.actions[0].1,
        governors(&["performance", "powersave"], "powersave")
    );
    let back = pm.set_profile(PowerProfile::Performance);
    assert_eq!(back.from, PowerProfile::PowerSave);
    assert!(back.actions.is_empty());
    assert_eq!(pm.current_profile(), PowerProfile::Performance);
}

#[test]
fn powersave_settings_cover_every_offering_governor_control() {
    let cpu = component(7, ComponentType::Cpu, vec![
        governors(&["powersave"], "a"),
        governors(&["performance"], "b"),
        governors(&["schedutil", "powersave"], "c"),
    ]);
    let acts = apply_powersave_settings(&cpu);
    assert_eq!(acts.len(), 2);
    assert_eq!(acts[0].1, governors(&["powersave"], "powersave"));
    assert_eq!(acts[1].1, governors(&["schedutil", "powersave"], "powersave"));
    assert!(apply_performance_settings(&cpu).is_empty());
    assert!(apply_balanced_settings(&cpu).is_empty());
}

#[test]
fn applying_a_capability_needs_a_known_component_and_a_driver() {
    let mut pm = PowerManager::new();
    pm.initialize(vec![component(1, ComponentType::Cpu, vec![])]);
    let mut reg = DriverRegistry::new();
    match pm.begin_apply(&reg, ComponentId(9)) {
        CapabilityStep::Fail(Error::ComponentNotFound(id)) => assert_eq!(id, ComponentId(9)),
        other => panic!("unexpected {other:?}"),
    }
    match pm.begin_apply(&reg, ComponentId(1)) {
        CapabilityStep::Fail(Error::Other(m)) => assert_eq!(m, "No driver for component type"),
        other => panic!("unexpected {other:?}"),
    }
    reg.register_driver(ComponentType::Gpu);
    reg.register_driver(ComponentType::Cpu);
    assert!(matches!(pm.begin_apply(&reg, ComponentId(1)), CapabilityStep::Validate(1)));
}

#[test]
fn application_goes_validate_apply_announce() {
    let cap = Capability::WakeOnLan { enabled: false };
    assert!(matches!(after_validation(4, Ok(true), &cap), CapabilityStep::Apply(4)));
    match after_validation(4, Ok(false), &cap) {
        CapabilityStep::Fail(Error::CapabilityNotSupported(t)) => assert_eq!(t, "WakeOnLan { enabled: false }"),
        other => panic!("unexpected {other:?}"),
    }
    match after_validation(4, Err(Error::HardwareError("busy".into())), &cap) {
        CapabilityStep::Fail(Error::HardwareError(t)) => assert_eq!(t, "busy"),
        other => panic!("unexpected {other:?}"),
    }
    match after_apply(Ok(()), ComponentId(3), cap.clone()) {
        CapabilityStep::Announce(SystemEvent::ComponentStateChanged { id, capability }) => {
            assert_eq!(id, ComponentId(3));
            assert_eq!(capability, cap);
        }
        other => panic!("unexpected {other:?}"),
    }
    match after_apply(Err(Error::Io("denied".into())), ComponentId(3), cap.clone()) {
        CapabilityStep::Fail(Error::Io(t)) => assert_eq!(t, "denied"),
        other => panic!("unexpected {other:?}"),
    }
}

#[test]
fn events_carry_what_happened() {
    match profile_changed_event(PowerProfile::Balanced, PowerProfile::PowerSave) {
        SystemEvent::PowerProfileChanged { from, to } => {
            assert_eq!(from, PowerProfile::Balanced);
            assert_eq!(to, PowerProfile::PowerSave);
        }
        other => panic!("unexpected {other:?}"),
    }
}
