//! Monitoring and optimisation: bounded per-component power histories, and
//! the rules by which the optimisation engine suggests savings.

use std::collections::VecDeque;
use vstd::prelude::*;
use crate::api::{
    Capability, CapabilityView, ComponentId, ComponentState, ComponentStateView, ComponentType,
    PowerMeasurement, PowerProfile, TimeSpan, Timestamp,
};
use crate::manager::{apply_powersave_settings, powersave_actions};
use crate::table::{lists_keys, IdTable};

verus! {

/// How many measurements a history keeps per component: one hour at one
/// sample a second.
pub const DEFAULT_MAX_HISTORY: usize = 3600;

/// The last `max` elements of `s` (all of them if there are fewer).
pub open spec fn keep_last(s: Seq<PowerMeasurement>, max: nat) -> Seq<PowerMeasurement> {
    if s.len() > max {
        s.skip(s.len() - max)
    } else {
        s
    }
}

/// A history after one more measurement: appended at the back, with the
/// oldest dropped from the front when the history grows past `max`.
pub open spec fn record_into(h: Seq<PowerMeasurement>, m: PowerMeasurement, max: nat) -> Seq<
    PowerMeasurement,
> {
    if h.len() + 1 > max {
        h.push(m).drop_first()
    } else {
        h.push(m)
    }
}

/// The history of a component after the measurements `ms`, in order, were
/// recorded into the empty history.
pub open spec fn history_after(ms: Seq<PowerMeasurement>, max: nat) -> Seq<PowerMeasurement>
    decreases ms.len(),
{
    if ms.len() == 0 {
        Seq::empty()
    } else {
        record_into(history_after(ms.drop_last(), max), ms.last(), max)
    }
}

/// Law: a history holds exactly the most recent `max` measurements recorded
/// (all of them while there are fewer), oldest first.
pub proof fn law_history_keeps_latest(ms: Seq<PowerMeasurement>, max: nat)
    requires
        max > 0,
    ensures
        history_after(ms, max) == keep_last(ms, max),
        history_after(ms, max).len() <= max,
    decreases ms.len(),
{
    if ms.len() > 0 {
        let p = ms.drop_last();
        law_history_keeps_latest(p, max);
        let h = history_after(p, max);
        if p.len() >= max {
            assert(h.push(ms.last()).drop_first() =~= ms.skip(ms.len() - max));
        } else {
            assert(h =~= p);
            if ms.len() > max {
                assert(h.push(ms.last()).drop_first() =~= ms.skip(ms.len() - max));
            } else {
                assert(h.push(ms.last()) =~= ms);
            }
        }
    }
}

/// The measurements of `s` taken strictly after `cutoff`, in order.
pub open spec fn taken_after(s: Seq<PowerMeasurement>, cutoff: Timestamp) -> Seq<PowerMeasurement>
    decreases s.len(),
{
    if s.len() == 0 {
        s
    } else if s.last().timestamp.spec_after(cutoff) {
        taken_after(s.drop_last(), cutoff).push(s.last())
    } else {
        taken_after(s.drop_last(), cutoff)
    }
}

/// Law: the recent window keeps exactly the measurements taken strictly
/// after the cutoff, in their order: a measurement of `s` is kept if and
/// only if it has more seconds than the cutoff, or as many and more
/// nanoseconds. Nothing with fewer seconds than the cutoff is ever kept.
pub proof fn law_recent_window(s: Seq<PowerMeasurement>, cutoff: Timestamp)
    ensures
        forall|m: PowerMeasurement|
            #[trigger] taken_after(s, cutoff).contains(m) <==> s.contains(m) && (m.timestamp.secs
                > cutoff.secs || (m.timestamp.secs == cutoff.secs && m.timestamp.nanos
                > cutoff.nanos)),
        forall|i: int|
            0 <= i < taken_after(s, cutoff).len() ==> #[trigger] taken_after(s, cutoff)[i].timestamp.secs
                >= cutoff.secs,
        taken_after(s, cutoff).len() <= s.len(),
    decreases s.len(),
{
    if s.len() > 0 {
        let p = s.drop_last();
        law_recent_window(p, cutoff);
        assert(s =~= p.push(s.last()));
        let t = taken_after(s, cutoff);
        let tp = taken_after(p, cutoff);
        assert forall|m: PowerMeasurement|
            #[trigger] t.contains(m) <==> s.contains(m) && (m.timestamp.secs > cutoff.secs || (
                m.timestamp.secs == cutoff.secs && m.timestamp.nanos > cutoff.nanos)) by {
            if t.contains(m) {
                let i = choose|i: int| 0 <= i < t.len() && t[i] == m;
                if i < tp.len() {
                    assert(tp.contains(m));
                    let j = choose|j: int| 0 <= j < p.len() && p[j] == m;
                    assert(s[j] == m);
                } else {
                    assert(m == s.last());
                    assert(s[s.len() - 1] == m);
                }
            }
            if s.contains(m) && (m.timestamp.secs > cutoff.secs || (m.timestamp.secs == cutoff.secs
                && m.timestamp.nanos > cutoff.nanos)) {
                let j = choose|j: int| 0 <= j < s.len() && s[j] == m;
                if j < p.len() {
                    assert(p[j] == m);
                    assert(p.contains(m));
                    assert(tp.contains(m));
                    let i = choose|i: int| 0 <= i < tp.len() && tp[i] == m;
                    if s.last().timestamp.spec_after(cutoff) {
                        assert(t == tp.push(s.last()));
                        assert(t[i] == tp[i]);
                    } else {
                        assert(t == tp);
                    }
                    assert(t[i] == m);
                } else {
                    assert(t[t.len() - 1] == m);
                }
            }
        }
        assert forall|i: int| 0 <= i < t.len() implies #[trigger] t[i].timestamp.secs >= cutoff.secs by {
            if i < tp.len() {
                assert(t[i] == tp[i]);
            }
        }
    }
}

/// The abstract value of a [`MetricsCollector`].
pub struct MetricsCollectorView {
    /// Each component's measurements, oldest first.
    pub history: Map<ComponentId, Seq<PowerMeasurement>>,
    /// How many measurements a component's history keeps.
    pub max_history: nat,
}

/// Power measurements per component, each history bounded in length.
pub struct MetricsCollector {
    power_history: IdTable<VecDeque<PowerMeasurement>>,
    max_history: usize,
}

impl View for MetricsCollector {
    type V = MetricsCollectorView;

    closed spec fn view(&self) -> MetricsCollectorView {
        MetricsCollectorView {
            history: self.power_history@,
            max_history: self.max_history as nat,
        }
    }
}

impl MetricsCollector {
    #[verifier::type_invariant]
    closed spec fn inv(self) -> bool {
        &&& self.max_history > 0
        &&& forall|k: ComponentId| #[trigger]
            self.power_history@.contains_key(k) ==> 0 < self.power_history@[k].len()
                <= self.max_history
    }

    /// An empty collector keeping the last [`DEFAULT_MAX_HISTORY`]
    /// measurements per component.
    pub fn new() -> (c: Self)
        ensures
            c@.history == Map::<ComponentId, Seq<PowerMeasurement>>::empty(),
            c@.max_history == DEFAULT_MAX_HISTORY,
    {
        MetricsCollector { power_history: IdTable::new(), max_history: DEFAULT_MAX_HISTORY }
    }

    /// Every history of the collector holds at least one and at most
    /// `max_history` measurements.
    pub fn max_history(&self) -> (n: usize)
        ensures
            n == self@.max_history,
            n > 0,
            forall|k: ComponentId| #[trigger]
                self@.history.contains_key(k) ==> 0 < self@.history[k].len() <= n,
    {
        proof {
            use_type_invariant(self);
        }
        self.max_history
    }

    /// Records measurement `m` for component `id`: at the back of its
    /// history, dropping the oldest when the history would grow past
    /// `max_history`.
    pub fn record_power(&mut self, id: ComponentId, m: PowerMeasurement)
        ensures
            final(self)@.max_history == old(self)@.max_history,
            final(self)@.history == old(self)@.history.insert(
                id,
                record_into(
                    if old(self)@.history.contains_key(id) {
                        old(self)@.history[id]
                    } else {
                        Seq::empty()
                    },
                    m,
                    old(self)@.max_history,
                ),
            ),
    {
        proof {
            use_type_invariant(&*self);
        }
        let mut table = IdTable::new();
        std::mem::swap(&mut table, &mut self.power_history);
        let mut entry = match table.remove(id) {
            Some(e) => e,
            None => VecDeque::new(),
        };
        let ghost before = entry@;
        entry.push_back(m);
        if entry.len() > self.max_history {
            let _ = entry.pop_front();
        }
        assert(entry@ =~= record_into(before, m, self.max_history as nat));
        table.insert(id, entry);
        assert(table@ =~= old(self)@.history.insert(id, record_into(before, m, self.max_history as nat)));
        self.power_history = table;
    }

    /// The measurements of component `id` taken strictly after `cutoff`,
    /// oldest first; `None` when the component has no history or none of its
    /// measurements is that recent.
    pub fn recent_since(&self, id: ComponentId, cutoff: Timestamp) -> (r: Option<Vec<PowerMeasurement>>)
        ensures
            match r {
                Some(v) => self@.history.contains_key(id) && v@ == taken_after(self@.history[id], cutoff)
                    && v@.len() > 0,
                None => !self@.history.contains_key(id) || taken_after(self@.history[id], cutoff).len() == 0,
            },
    {
        let h = match self.power_history.get(id) {
            Some(h) => h,
            None => return None,
        };
        let mut r: Vec<PowerMeasurement> = Vec::new();
        let mut i: usize = 0;
        while i < h.len()
            invariant
                i <= h@.len(),
                r@ == taken_after(h@.take(i as int), cutoff),
            decreases h.len() - i,
        {
            let m = h[i];
            assert(h@.take(i + 1).drop_last() =~= h@.take(i as int));
            if m.timestamp.is_after(&cutoff) {
                r.push(m);
            }
            i = i + 1;
        }
        assert(h@.take(h.len() as int) =~= h@);
        if r.len() == 0 {
            None
        } else {
            Some(r)
        }
    }

    /// The latest measurement of each component, one per component, in the
    /// order in which the table lists the components.
    pub fn latest_measurements(&self) -> (r: Vec<PowerMeasurement>)
        ensures
            exists|ks: Seq<ComponentId>|
                lists_keys(ks, self@.history) && r@ == ks.map_values(
                    |k: ComponentId| self@.history[k].last(),
                ),
    {
        proof {
            use_type_invariant(self);
        }
        let keys = self.power_history.keys();
        let n = keys.len();
        let mut r: Vec<PowerMeasurement> = Vec::new();
        let mut i: usize = 0;
        while i < n
            invariant
                n == keys@.len(),
                lists_keys(keys@, self@.history),
                forall|k: ComponentId| #[trigger]
                    self.power_history@.contains_key(k) ==> 0 < self.power_history@[k].len(),
                i <= n,
                r@.len() == i,
                forall|j: int|
                    0 <= j < i ==> #[trigger] r@[j] == self.power_history@[keys@[j]].last(),
            decreases n - i,
        {
            if let Some(h) = self.power_history.get(keys[i]) {
                let last = h[h.len() - 1];
                r.push(last);
            } else {
                assert(keys@.contains(keys@[i as int]));
            }
            i = i + 1;
        }
        assert(r@ =~= keys@.map_values(|k: ComponentId| self@.history[k].last()));
        r
    }
}

/// The power, in whole watts, above which a component's average
/// consumption draws a suggestion: 15 for a CPU, 20 for a GPU, 5 otherwise.
pub open spec fn threshold_watts(component_type: ComponentType) -> u32 {
    match component_type {
        ComponentType::Cpu => 15,
        ComponentType::Gpu => 20,
        _ => 5,
    }
}

/// Law: the threshold is 15 W for a CPU, 20 W for a GPU, and 5 W for each
/// of the other component types.
pub proof fn law_thresholds()
    ensures
        threshold_watts(ComponentType::Cpu) == 15,
        threshold_watts(ComponentType::Gpu) == 20,
        threshold_watts(ComponentType::Disk) == 5,
        threshold_watts(ComponentType::Network) == 5,
        threshold_watts(ComponentType::Display) == 5,
        threshold_watts(ComponentType::Usb) == 5,
        threshold_watts(ComponentType::Audio) == 5,
        threshold_watts(ComponentType::Memory) == 5,
        threshold_watts(ComponentType::Pcie) == 5,
        threshold_watts(ComponentType::Custom) == 5,
{
}

/// The power, in whole watts, above which a component of this type draws a
/// suggestion.
pub fn get_threshold(component_type: ComponentType) -> (w: u32)
    ensures
        w == threshold_watts(component_type),
        component_type == ComponentType::Cpu ==> w == 15,
        component_type == ComponentType::Gpu ==> w == 20,
        component_type != ComponentType::Cpu && component_type != ComponentType::Gpu ==> w == 5,
{
    match component_type {
        ComponentType::Cpu => 15,
        ComponentType::Gpu => 20,
        _ => 5,
    }
}

/// What the optimisation engine suggests for a component that draws too
/// much: on a CPU, the first governor control that offers `powersave`,
/// turned to it; otherwise runtime power management, with a two-second
/// autosuspend delay.
pub open spec fn optimization_capability(c: ComponentStateView) -> CapabilityView {
    let acts = powersave_actions(c);
    if acts.len() > 0 {
        acts[0].1
    } else {
        CapabilityView::RuntimePowerManagement {
            enabled: true,
            autosuspend_delay: Some(TimeSpan::spec_from_secs(2)),
        }
    }
}

/// The capability the optimisation engine suggests applying to `component`.
pub fn get_optimization_capability(component: &ComponentState) -> (c: Capability)
    ensures
        c@ == optimization_capability(component@),
{
    let mut acts = apply_powersave_settings(component);
    if acts.len() > 0 {
        let first = acts.remove(0);
        first.1
    } else {
        Capability::RuntimePowerManagement {
            enabled: true,
            autosuspend_delay: Some(TimeSpan::from_secs(2)),
        }
    }
}

/// How strongly a suggestion is put.
#[derive(Clone, Copy, Debug, PartialEq, Eq, Structural)]
pub enum SuggestionSeverity {
    Low,
    Medium,
    High,
}

/// What a suggestion proposes doing.
#[derive(Debug)]
pub enum SuggestionAction {
    ApplyCapability(Capability),
    ChangeProfile(PowerProfile),
    Custom(String),
}

/// A suggestion of the optimisation engine.
#[derive(Debug)]
pub struct Suggestion {
    pub component_id: ComponentId,
    pub severity: SuggestionSeverity,
    pub description: String,
    pub action: Option<SuggestionAction>,
}

/// The suggestion for a component that draws more than its threshold: of
/// medium severity, proposing its optimisation capability.
pub fn build_suggestion(component: &ComponentState, description: String) -> (s: Suggestion)
    ensures
        s.component_id == component.id,
        s.severity == SuggestionSeverity::Medium,
        s.description@ == description@,
        s.action matches Some(SuggestionAction::ApplyCapability(c)) && c@ == optimization_capability(
            component@,
        ),
{
    Suggestion {
        component_id: component.id,
        severity: SuggestionSeverity::Medium,
        description,
        action: Some(SuggestionAction::ApplyCapability(get_optimization_capability(component))),
    }
}

} // verus!
