//! The power manager: the table of discovered components, the current power
//! profile, and the decisions of switching profiles and applying capabilities.

use vstd::prelude::*;
use crate::api::{
    capability_debug_text, capability_not_supported, capability_views, component_views,
    texts_of, Capability, CapabilityView, ComponentId, ComponentState, ComponentStateView,
    ComponentType, Error, PowerProfile, SystemEvent, copy_strings,
};
use crate::hal::{first_driver_for, DriverRegistry};
use crate::table::{lists_keys, IdTable};

verus! {

/// A capability to apply to a component, by abstract value.
pub type PlannedView = (ComponentId, CapabilityView);

/// The abstract values of a list of planned capability applications.
pub open spec fn plan_views(v: Seq<(ComponentId, Capability)>) -> Seq<PlannedView> {
    v.map_values(|p: (ComponentId, Capability)| (p.0, p.1@))
}

/// The governor-control capabilities among `caps` that offer the
/// `powersave` governor, each turned to select it, for component `id`.
pub open spec fn powersave_governor_actions(id: ComponentId, caps: Seq<CapabilityView>) -> Seq<
    PlannedView,
>
    decreases caps.len(),
{
    if caps.len() == 0 {
        Seq::empty()
    } else {
        powersave_governor_actions(id, caps.drop_last()) + match caps.last() {
            CapabilityView::GovernorControl { available, .. } => if available.contains(
                "powersave"@,
            ) {
                seq![(id, CapabilityView::GovernorControl { available, current: "powersave"@ })]
            } else {
                Seq::empty()
            },
            _ => Seq::empty(),
        }
    }
}

/// What switching to the power-save profile applies to a component: on a
/// CPU, the `powersave` governor through each governor control that offers
/// it; on any other component, nothing.
pub open spec fn powersave_actions(c: ComponentStateView) -> Seq<PlannedView> {
    if c.component_type == ComponentType::Cpu {
        powersave_governor_actions(c.id, c.capabilities)
    } else {
        Seq::empty()
    }
}

/// What switching to `profile` applies to the components `comps`, in their
/// order. Only the power-save profile applies anything.
pub open spec fn profile_actions(profile: PowerProfile, comps: Seq<ComponentStateView>) -> Seq<
    PlannedView,
>
    decreases comps.len(),
{
    if profile != PowerProfile::PowerSave || comps.len() == 0 {
        Seq::empty()
    } else {
        profile_actions(profile, comps.drop_last()) + powersave_actions(comps.last())
    }
}

/// The component table after recording the components `found`, in order; a
/// later component with a known identifier replaces the earlier one.
pub open spec fn with_components(
    m: Map<ComponentId, ComponentStateView>,
    found: Seq<ComponentStateView>,
) -> Map<ComponentId, ComponentStateView>
    decreases found.len(),
{
    if found.len() == 0 {
        m
    } else {
        with_components(m, found.drop_last()).insert(found.last().id, found.last())
    }
}

/// Law: after recording discovered components, every one of them is known,
/// and the last one found under an identifier is what the table holds for it.
pub proof fn law_discovered_are_known(
    m: Map<ComponentId, ComponentStateView>,
    found: Seq<ComponentStateView>,
    i: int,
)
    requires
        0 <= i < found.len(),
    ensures
        with_components(m, found).contains_key(found[i].id),
        (forall|j: int| i < j < found.len() ==> #[trigger] found[j].id != found[i].id)
            ==> with_components(m, found)[found[i].id] == found[i],
    decreases found.len(),
{
    if i < found.len() - 1 {
        law_discovered_are_known(m, found.drop_last(), i);
        assert(found.drop_last()[i] == found[i]);
        if forall|j: int| i < j < found.len() ==> #[trigger] found[j].id != found[i].id {
            assert(found[found.len() - 1].id != found[i].id);
            assert forall|j: int| i < j < found.drop_last().len() implies #[trigger] found.drop_last()[j].id
                != found.drop_last()[i].id by {
                assert(found.drop_last()[j] == found[j]);
            }
        }
    }
}

/// The action `a` selects the `powersave` governor for component `id`
/// through a governor control among `caps` that offers it.
pub open spec fn selects_powersave(a: PlannedView, id: ComponentId, caps: Seq<CapabilityView>) -> bool {
    &&& a.0 == id
    &&& a.1 matches CapabilityView::GovernorControl { available, current }
    &&& current == "powersave"@
    &&& available.contains("powersave"@)
    &&& exists|q: int|
        0 <= q < caps.len() && (#[trigger] caps[q] matches CapabilityView::GovernorControl {
            available: offered,
            ..
        } && offered == available)
}

proof fn lemma_governor_actions(id: ComponentId, caps: Seq<CapabilityView>)
    ensures
        forall|k: int|
            0 <= k < powersave_governor_actions(id, caps).len() ==> selects_powersave(
                #[trigger] powersave_governor_actions(id, caps)[k],
                id,
                caps,
            ),
    decreases caps.len(),
{
    if caps.len() > 0 {
        let p = caps.drop_last();
        lemma_governor_actions(id, p);
        let prev = powersave_governor_actions(id, p);
        let all = powersave_governor_actions(id, caps);
        assert forall|k: int| 0 <= k < all.len() implies selects_powersave(#[trigger] all[k], id, caps) by {
            if k < prev.len() {
                assert(all[k] == prev[k]);
                assert(selects_powersave(prev[k], id, p));
                let q = choose|q: int|
                    0 <= q < p.len() && (#[trigger] p[q] matches CapabilityView::GovernorControl {
                        available: offered,
                        ..
                    } && offered == prev[k].1->GovernorControl_available);
                assert(caps[q] == p[q]);
            } else {
                assert(caps[caps.len() - 1] == caps.last());
            }
        }
    }
}

/// Law: only the power-save profile applies anything; each of its actions
/// selects the `powersave` governor, through a governor control that offers
/// it, on a CPU among the components.
pub proof fn law_profile_actions(profile: PowerProfile, comps: Seq<ComponentStateView>)
    ensures
        profile != PowerProfile::PowerSave ==> profile_actions(profile, comps).len() == 0,
        forall|k: int|
            0 <= k < profile_actions(profile, comps).len() ==> exists|c: int|
                0 <= c < comps.len() && comps[c].component_type == ComponentType::Cpu
                    && selects_powersave(
                    #[trigger] profile_actions(profile, comps)[k],
                    comps[c].id,
                    comps[c].capabilities,
                ),
    decreases comps.len(),
{
    if profile == PowerProfile::PowerSave && comps.len() > 0 {
        let p = comps.drop_last();
        law_profile_actions(profile, p);
        let prev = profile_actions(profile, p);
        let all = profile_actions(profile, comps);
        let last = comps.last();
        lemma_governor_actions(last.id, last.capabilities);
        assert forall|k: int| 0 <= k < all.len() implies exists|c: int|
            0 <= c < comps.len() && comps[c].component_type == ComponentType::Cpu
                && selects_powersave(#[trigger] all[k], comps[c].id, comps[c].capabilities) by {
            if k < prev.len() {
                assert(all[k] == prev[k]);
                let c = choose|c: int|
                    0 <= c < p.len() && p[c].component_type == ComponentType::Cpu
                        && selects_powersave(prev[k], p[c].id, p[c].capabilities);
                assert(comps[c] == p[c]);
            } else {
                let c = comps.len() - 1;
                assert(comps[c] == last);
                assert(last.component_type == ComponentType::Cpu);
                assert(all[k] == powersave_governor_actions(last.id, last.capabilities)[k - prev.len()]);
            }
        }
    }
}

/// `order` lists the components of `m`, each once, in some order: their
/// identifiers list the keys, and each is the component under its own key.
pub open spec fn lists_components(
    order: Seq<ComponentStateView>,
    m: Map<ComponentId, ComponentStateView>,
) -> bool {
    &&& lists_keys(order.map_values(|c: ComponentStateView| c.id), m)
    &&& forall|i: int| 0 <= i < order.len() ==> m[#[trigger] order[i].id] == order[i]
}

proof fn lemma_governor_actions_complete(id: ComponentId, caps: Seq<CapabilityView>, q: int)
    requires
        0 <= q < caps.len(),
        caps[q] matches CapabilityView::GovernorControl { available, .. } && available.contains(
            "powersave"@,
        ),
    ensures
        powersave_governor_actions(id, caps).contains(
            (
                id,
                CapabilityView::GovernorControl {
                    available: caps[q]->GovernorControl_available,
                    current: "powersave"@,
                },
            ),
        ),
    decreases caps.len(),
{
    let p = caps.drop_last();
    let prev = powersave_governor_actions(id, p);
    let all = powersave_governor_actions(id, caps);
    let a = (
        id,
        CapabilityView::GovernorControl {
            available: caps[q]->GovernorControl_available,
            current: "powersave"@,
        },
    );
    if q < caps.len() - 1 {
        assert(p[q] == caps[q]);
        lemma_governor_actions_complete(id, p, q);
        let i = choose|i: int| 0 <= i < prev.len() && prev[i] == a;
        assert(all[i] == prev[i]);
    } else {
        assert(caps.last() == caps[q]);
        assert(all[all.len() - 1] == a);
    }
}

/// Law: switching to the power-save profile selects the `powersave`
/// governor through every governor control, of every CPU among the
/// components, that offers it, wherever `powersave` stands in its list of
/// available governors.
pub proof fn law_powersave_complete(comps: Seq<ComponentStateView>, c: int, q: int)
    requires
        0 <= c < comps.len(),
        comps[c].component_type == ComponentType::Cpu,
        0 <= q < comps[c].capabilities.len(),
        comps[c].capabilities[q] matches CapabilityView::GovernorControl { available, .. }
            && available.contains("powersave"@),
    ensures
        profile_actions(PowerProfile::PowerSave, comps).contains(
            (
                comps[c].id,
                CapabilityView::GovernorControl {
                    available: comps[c].capabilities[q]->GovernorControl_available,
                    current: "powersave"@,
                },
            ),
        ),
    decreases comps.len(),
{
    let p = comps.drop_last();
    let prev = profile_actions(PowerProfile::PowerSave, p);
    let all = profile_actions(PowerProfile::PowerSave, comps);
    let a = (
        comps[c].id,
        CapabilityView::GovernorControl {
            available: comps[c].capabilities[q]->GovernorControl_available,
            current: "powersave"@,
        },
    );
    assert(all == prev + powersave_actions(comps.last()));
    if c < comps.len() - 1 {
        assert(p[c] == comps[c]);
        law_powersave_complete(p, c, q);
        let i = choose|i: int| 0 <= i < prev.len() && prev[i] == a;
        assert(all[i] == prev[i]);
    } else {
        assert(comps.last() == comps[c]);
        lemma_governor_actions_complete(comps[c].id, comps[c].capabilities, q);
        let g = powersave_governor_actions(comps[c].id, comps[c].capabilities);
        let i = choose|i: int| 0 <= i < g.len() && g[i] == a;
        assert(all[prev.len() + i] == g[i]);
    }
}

/// The abstract value of a [`PowerManager`].
pub struct PowerManagerView {
    /// The known components, by identifier.
    pub components: Map<ComponentId, ComponentStateView>,
    /// The current power profile.
    pub profile: PowerProfile,
}

/// What the power manager decides; the drivers it drives, and the channel
/// its events go out on, are run beside it.
pub struct PowerManager {
    components: IdTable<ComponentState>,
    current_profile: PowerProfile,
}

impl View for PowerManager {
    type V = PowerManagerView;

    closed spec fn view(&self) -> PowerManagerView {
        PowerManagerView { components: self.components@, profile: self.current_profile }
    }
}

/// What a switch of power profile decided: the profiles switched between,
/// and the capabilities to apply, in order, before the switch is announced.
pub struct ProfileSwitch {
    pub from: PowerProfile,
    pub to: PowerProfile,
    pub actions: Vec<(ComponentId, Capability)>,
}

impl PowerManager {
    #[verifier::type_invariant]
    closed spec fn inv(self) -> bool {
        forall|k: ComponentId| #[trigger]
            self.components@.contains_key(k) ==> self.components@[k].id == k
    }

    /// A power manager that knows no component and runs the balanced profile.
    pub fn new() -> (pm: Self)
        ensures
            pm@.components == Map::<ComponentId, ComponentStateView>::empty(),
            pm@.profile == PowerProfile::Balanced,
    {
        PowerManager { components: IdTable::new(), current_profile: PowerProfile::Balanced }
    }

    /// Records the components that discovery found, in order, and gives the
    /// event announcing each.
    pub fn initialize(&mut self, discovered: Vec<ComponentState>) -> (events: Vec<SystemEvent>)
        ensures
            final(self)@.components == with_components(
                old(self)@.components,
                component_views(discovered@),
            ),
            final(self)@.profile == old(self)@.profile,
            events@.len() == discovered@.len(),
            forall|i: int|
                0 <= i < discovered@.len() ==> (#[trigger] events@[i] matches SystemEvent::ComponentDiscovered(
                    c,
                ) && c@ == discovered@[i]@),
    {
        let ghost found = component_views(discovered@);
        let mut events: Vec<SystemEvent> = Vec::new();
        let mut i: usize = 0;
        while i < discovered.len()
            invariant
                i <= discovered@.len(),
                found == component_views(discovered@),
                self@.components == with_components(old(self)@.components, found.take(i as int)),
                self@.profile == old(self)@.profile,
                events@.len() == i,
                forall|j: int|
                    0 <= j < i ==> (#[trigger] events@[j] matches SystemEvent::ComponentDiscovered(
                        c,
                    ) && c@ == discovered@[j]@),
            decreases discovered.len() - i,
        {
            proof {
                use_type_invariant(&*self);
            }
            let c = &discovered[i];
            let mut components = IdTable::new();
            std::mem::swap(&mut components, &mut self.components);
            components.insert(c.id, c.clone());
            self.components = components;
            events.push(SystemEvent::ComponentDiscovered(c.clone()));
            assert(found.take(i + 1).drop_last() =~= found.take(i as int));
            i = i + 1;
        }
        assert(found.take(discovered.len() as int) =~= found);
        events
    }

    /// The current power profile.
    pub fn current_profile(&self) -> (p: PowerProfile)
        ensures
            p == self@.profile,
    {
        self.current_profile
    }

    /// Switches to `profile`. Gives the profile switched from and the
    /// capabilities that the new profile applies to the components, taken in
    /// the order in which the table lists them; once they are applied, the
    /// switch is announced with [`profile_changed_event`].
    pub fn set_profile(&mut self, profile: PowerProfile) -> (r: ProfileSwitch)
        ensures
            final(self)@.profile == profile,
            final(self)@.components == old(self)@.components,
            r.from == old(self)@.profile,
            r.to == profile,
            exists|order: Seq<ComponentStateView>|
                lists_components(order, old(self)@.components) && plan_views(r.actions@)
                    == profile_actions(profile, order),
    {
        let from = self.current_profile;
        proof {
            use_type_invariant(&*self);
        }
        self.current_profile = profile;
        let actions = self.apply_profile_optimizations(profile);
        ProfileSwitch { from, to: profile, actions }
    }

    /// The capabilities that `profile` applies to the components, taken in
    /// the order in which the table lists them.
    pub fn apply_profile_optimizations(&self, profile: PowerProfile) -> (r: Vec<
        (ComponentId, Capability),
    >)
        ensures
            exists|order: Seq<ComponentStateView>|
                lists_components(order, self@.components) && plan_views(r@) == profile_actions(
                    profile,
                    order,
                ),
    {
        proof {
            use_type_invariant(self);
        }
        let keys = self.components.keys();
        let ghost m = self@.components;
        let ghost comps = keys@.map_values(|k: ComponentId| m[k]);
        proof {
            assert forall|j: int| 0 <= j < keys@.len() implies #[trigger] comps[j].id == keys@[j] by {
                assert(keys@.contains(keys@[j]));
            }
            assert(comps.map_values(|c: ComponentStateView| c.id) =~= keys@);
            assert(lists_components(comps, m));
        }
        let mut r: Vec<(ComponentId, Capability)> = Vec::new();
        if profile != PowerProfile::PowerSave {
            assert(plan_views(r@) =~= profile_actions(profile, comps));
            return r;
        }
        let n = keys.len();
        let mut i: usize = 0;
        while i < n
            invariant
                n == keys@.len(),
                n == comps.len(),
                m == self@.components,
                comps == keys@.map_values(|k: ComponentId| m[k]),
                lists_keys(keys@, m),
                i <= n,
                profile == PowerProfile::PowerSave,
                plan_views(r@) == profile_actions(profile, comps.take(i as int)),
            decreases n - i,
        {
            if let Some(c) = self.components.get(keys[i]) {
                let mut more = apply_powersave_settings(c);
                let ghost before = r@;
                r.append(&mut more);
                assert(comps.take(i + 1).drop_last() =~= comps.take(i as int));
                assert(plan_views(r@) =~= plan_views(before) + powersave_actions(comps[i as int]));
            } else {
                assert(keys@.contains(keys@[i as int]));
            }
            i = i + 1;
        }
        assert(comps.take(n as int) =~= comps);
        assert(lists_components(comps, m) && plan_views(r@) == profile_actions(profile, comps));
        r
    }

    /// The components, each once, in the order in which the table lists
    /// them.
    pub fn get_components(&self) -> (r: Vec<ComponentState>)
        ensures
            lists_components(component_views(r@), self@.components),
    {
        proof {
            use_type_invariant(self);
        }
        let keys = self.components.keys();
        let ghost m = self@.components;
        let n = keys.len();
        let mut r: Vec<ComponentState> = Vec::new();
        let mut i: usize = 0;
        while i < n
            invariant
                n == keys@.len(),
                m == self@.components,
                lists_keys(keys@, m),
                i <= n,
                r@.len() == i,
                forall|j: int| 0 <= j < i ==> #[trigger] r@[j]@ == m[keys@[j]],
            decreases n - i,
        {
            if let Some(c) = self.components.get(keys[i]) {
                r.push(c.clone());
            } else {
                assert(keys@.contains(keys@[i as int]));
            }
            i = i + 1;
        }
        proof {
            let views = component_views(r@);
            assert forall|j: int| 0 <= j < n implies #[trigger] views[j].id == keys@[j] by {
                assert(keys@.contains(keys@[j]));
                assert(m[keys@[j]].id == keys@[j]);
            }
            assert(views.map_values(|c: ComponentStateView| c.id) =~= keys@);
        }
        r
    }

    /// The component with identifier `id`, if known.
    pub fn get_component(&self, id: ComponentId) -> (r: Option<ComponentState>)
        ensures
            match r {
                Some(c) => self@.components.contains_key(id) && c@ == self@.components[id],
                None => !self@.components.contains_key(id),
            },
    {
        match self.components.get(id) {
            Some(c) => Some(c.clone()),
            None => None,
        }
    }

    /// The first step of applying a capability to component `id`: the
    /// component must be known, and a driver must be registered for its
    /// type; then that driver validates the capability.
    pub fn begin_apply(&self, registry: &DriverRegistry, id: ComponentId) -> (r: CapabilityStep)
        ensures
            !self@.components.contains_key(id) ==> (r matches CapabilityStep::Fail(
                Error::ComponentNotFound(e),
            ) && e == id),
            self@.components.contains_key(id) ==> match first_driver_for(
                registry@.driver_types,
                self@.components[id].component_type,
            ) {
                Some(d) => r == CapabilityStep::Validate(d as usize),
                None => (r matches CapabilityStep::Fail(Error::Other(t)) && t@
                    == "No driver for component type"@),
            },
    {
        match self.components.get(id) {
            None => CapabilityStep::Fail(Error::ComponentNotFound(id)),
            Some(c) => match registry.get_driver(c.component_type) {
                Some(d) => CapabilityStep::Validate(d),
                None => CapabilityStep::Fail(
                    Error::Other(String::from_str("No driver for component type")),
                ),
            },
        }
    }
}

/// A step of applying a capability to a component: each step of
/// [`PowerManager::begin_apply`], [`after_validation`] and [`after_apply`]
/// says what comes next.
#[derive(Debug)]
pub enum CapabilityStep {
    /// Ask the driver at this position to validate the capability.
    Validate(usize),
    /// Ask the driver at this position to apply the capability, once.
    Apply(usize),
    /// The capability was applied: announce this event, and succeed.
    Announce(SystemEvent),
    /// Stop with this error; nothing is announced.
    Fail(Error),
}

/// The step after the driver at `driver` validated `capability`: a driver's
/// error stops the application, a refusal stops it as "capability not
/// supported", and an acceptance lets the same driver apply it.
pub fn after_validation(driver: usize, validated: Result<bool, Error>, capability: &Capability) -> (r:
    CapabilityStep)
    ensures
        match validated {
            Ok(true) => r == CapabilityStep::Apply(driver),
            Ok(false) => r matches CapabilityStep::Fail(Error::CapabilityNotSupported(t)) && t@
                == capability_debug_text(capability@),
            Err(e) => r == CapabilityStep::Fail(e),
        },
{
    match validated {
        Ok(true) => CapabilityStep::Apply(driver),
        Ok(false) => CapabilityStep::Fail(capability_not_supported(capability)),
        Err(e) => CapabilityStep::Fail(e),
    }
}

/// The step after the driver applied `capability` to component `id`: on
/// success, the change is announced; a driver's error stops with that error,
/// and nothing is announced.
pub fn after_apply(applied: Result<(), Error>, id: ComponentId, capability: Capability) -> (r:
    CapabilityStep)
    ensures
        match applied {
            Ok(()) => r matches CapabilityStep::Announce(SystemEvent::ComponentStateChanged {
                id: i,
                capability: c,
            }) && i == id && c@ == capability@,
            Err(e) => r == CapabilityStep::Fail(e),
        },
{
    match applied {
        Ok(()) => CapabilityStep::Announce(SystemEvent::ComponentStateChanged { id, capability }),
        Err(e) => CapabilityStep::Fail(e),
    }
}

/// The event announcing a switch of power profile.
pub fn profile_changed_event(from: PowerProfile, to: PowerProfile) -> (e: SystemEvent)
    ensures
        e == (SystemEvent::PowerProfileChanged { from, to }),
{
    SystemEvent::PowerProfileChanged { from, to }
}

/// What switching to the power-save profile applies to `component`.
pub fn apply_powersave_settings(component: &ComponentState) -> (r: Vec<(ComponentId, Capability)>)
    ensures
        plan_views(r@) == powersave_actions(component@),
{
    let mut r: Vec<(ComponentId, Capability)> = Vec::new();
    if component.component_type != ComponentType::Cpu {
        assert(plan_views(r@) =~= powersave_actions(component@));
        return r;
    }
    let caps = &component.capabilities;
    let ghost cv = capability_views(caps@);
    let powersave = String::from_str("powersave");
    let mut i: usize = 0;
    while i < caps.len()
        invariant
            i <= caps@.len(),
            cv == capability_views(caps@),
            powersave@ == "powersave"@,
            plan_views(r@) == powersave_governor_actions(component.id, cv.take(i as int)),
        decreases caps.len() - i,
    {
        let ghost before = r@;
        assert(cv.take(i + 1).drop_last() =~= cv.take(i as int));
        assert(cv.take(i + 1).last() == caps@[i as int]@);
        match &caps[i] {
            Capability::GovernorControl { available, .. } => {
                let mut found = false;
                let mut k: usize = 0;
                while k < available.len()
                    invariant
                        k <= available@.len(),
                        powersave@ == "powersave"@,
                        found == exists|m: int| 0 <= m < k && available@[m]@ == "powersave"@,
                    decreases available.len() - k,
                {
                    if available[k] == powersave {
                        found = true;
                    }
                    k = k + 1;
                }
                proof {
                    let t = texts_of(available@);
                    if found {
                        let m = choose|m: int| 0 <= m < available@.len() && available@[m]@ == "powersave"@;
                        assert(t[m] == "powersave"@);
                    }
                    if t.contains("powersave"@) {
                        let m = choose|m: int| 0 <= m < t.len() && t[m] == "powersave"@;
                        assert(available@[m]@ == "powersave"@);
                    }
                }
                if found {
                    let cap = Capability::GovernorControl {
                        available: copy_strings(available),
                        current: String::from_str("powersave"),
                    };
                    r.push((component.id, cap));
                }
            },
            _ => {},
        }
        assert(plan_views(r@) =~= powersave_governor_actions(component.id, cv.take(i + 1)));
        i = i + 1;
    }
    assert(cv.take(caps.len() as int) =~= cv);
    r
}

/// What switching to the performance profile applies to `component`: nothing.
pub fn apply_performance_settings(component: &ComponentState) -> (r: Vec<(ComponentId, Capability)>)
    ensures
        r@.len() == 0,
{
    Vec::new()
}

/// What switching to the balanced profile applies to `component`: nothing.
pub fn apply_balanced_settings(component: &ComponentState) -> (r: Vec<(ComponentId, Capability)>)
    ensures
        r@.len() == 0,
{
    Vec::new()
}

} // verus!
