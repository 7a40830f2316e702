//! Policies: what a policy reports, how its remediations are gathered, and the
//! rules of the built-in policies.

use vstd::prelude::*;
use crate::api::{Capability, ComponentId, PowerProfile};

verus! {

/// How serious a policy violation is.
#[derive(Clone, Copy, Debug, PartialEq, Eq, Structural)]
pub enum Severity {
    Info,
    Warning,
    Critical,
}

/// What a policy asks to be done about a violation.
#[derive(Debug)]
pub enum PolicyAction {
    SetProfile(PowerProfile),
    ApplyCapability { component_id: ComponentId, capability: Capability },
    Notify(String),
}

/// A policy's report that the system is not as the policy wants it.
#[derive(Debug)]
pub struct PolicyViolation {
    pub policy_name: String,
    pub severity: Severity,
    pub message: String,
    pub remediation: Option<PolicyAction>,
}

/// The remediations of `violations`, in order; a violation without one adds
/// nothing.
pub open spec fn remediations_of(violations: Seq<PolicyViolation>) -> Seq<PolicyAction>
    decreases violations.len(),
{
    if violations.len() == 0 {
        Seq::empty()
    } else {
        remediations_of(violations.drop_last()) + match violations.last().remediation {
            Some(a) => seq![a],
            None => Seq::empty(),
        }
    }
}

/// Law: enforcing takes exactly the remediations that the violations carry:
/// an action is taken if and only if some violation carries it, and never
/// more actions than there are violations.
pub proof fn law_remediations(violations: Seq<PolicyViolation>)
    ensures
        forall|a: PolicyAction|
            #[trigger] remediations_of(violations).contains(a) <==> exists|i: int|
                0 <= i < violations.len() && #[trigger] violations[i].remediation == Some(a),
        remediations_of(violations).len() <= violations.len(),
    decreases violations.len(),
{
    if violations.len() > 0 {
        let p = violations.drop_last();
        law_remediations(p);
        let r = remediations_of(violations);
        let rp = remediations_of(p);
        let last = violations.last().remediation;
        assert forall|a: PolicyAction| #[trigger] r.contains(a) <==> exists|i: int|
            0 <= i < violations.len() && #[trigger] violations[i].remediation == Some(a) by {
            if r.contains(a) {
                let k = choose|k: int| 0 <= k < r.len() && r[k] == a;
                if k < rp.len() {
                    assert(r[k] == rp[k]);
                    assert(rp.contains(a));
                    let i = choose|i: int| 0 <= i < p.len() && #[trigger] p[i].remediation == Some(a);
                    assert(violations[i] == p[i]);
                } else {
                    assert(violations[violations.len() - 1].remediation == Some(a));
                }
            }
            if exists|i: int| 0 <= i < violations.len() && #[trigger] violations[i].remediation == Some(a) {
                let i = choose|i: int| 0 <= i < violations.len() && #[trigger] violations[i].remediation == Some(a);
                if i < p.len() {
                    assert(p[i] == violations[i]);
                    assert(rp.contains(a));
                    let k = choose|k: int| 0 <= k < rp.len() && rp[k] == a;
                    assert(r[k] == rp[k]);
                } else {
                    assert(r[r.len() - 1] == a);
                }
            }
        }
    }
}

/// The actions that enforcing the policies takes, in the order of the
/// violations they remedy.
pub fn remediations(violations: Vec<PolicyViolation>) -> (r: Vec<PolicyAction>)
    ensures
        r@ == remediations_of(violations@),
{
    let ghost all = violations@;
    let n = violations.len();
    let mut rest = violations;
    let mut r: Vec<PolicyAction> = Vec::new();
    let mut taken: usize = 0;
    while rest.len() > 0
        invariant
            all.len() == n,
            taken <= all.len(),
            rest@ == all.skip(taken as int),
            r@ == remediations_of(all.take(taken as int)),
        decreases rest.len(),
    {
        let v = rest.remove(0);
        assert(v == all[taken as int]);
        assert(all.take(taken + 1).drop_last() =~= all.take(taken as int));
        assert(all.skip(taken as int).remove(0) =~= all.skip(taken + 1));
        match v.remediation {
            Some(a) => {
                r.push(a);
            },
            None => {},
        }
        assert(r@ =~= remediations_of(all.take(taken + 1)));
        taken = taken + 1;
    }
    assert(all.take(taken as int) =~= all);
    r
}

/// The text that `PowerProfile`'s derived `Debug` writes: the variant's name.
pub open spec fn profile_name_text(p: PowerProfile) -> Seq<char> {
    match p {
        PowerProfile::Performance => "Performance"@,
        PowerProfile::Balanced => "Balanced"@,
        PowerProfile::PowerSave => "PowerSave"@,
        PowerProfile::Custom => "Custom"@,
    }
}

/// The name of a power profile, as `{:?}` writes it.
pub fn profile_name(p: PowerProfile) -> (s: String)
    ensures
        s@ == profile_name_text(p),
{
    match p {
        PowerProfile::Performance => String::from_str("Performance"),
        PowerProfile::Balanced => String::from_str("Balanced"),
        PowerProfile::PowerSave => String::from_str("PowerSave"),
        PowerProfile::Custom => String::from_str("Custom"),
    }
}

/// A time of day: seconds since midnight and the nanoseconds beyond them
/// (what `chrono::NaiveTime` holds; a leap second shows as a billion
/// nanoseconds or more).
#[derive(Clone, Copy, Debug, PartialEq, Eq, Structural)]
pub struct TimeOfDay {
    pub secs: u32,
    pub nanos: u32,
}

impl TimeOfDay {
    /// `self` comes before `other` in the day.
    pub open spec fn spec_before(self, other: TimeOfDay) -> bool {
        self.secs < other.secs || (self.secs == other.secs && self.nanos < other.nanos)
    }

    /// Whether `self` comes before `other` in the day.
    pub fn is_before(&self, other: &TimeOfDay) -> (r: bool)
        ensures
            r == self.spec_before(*other),
    {
        self.secs < other.secs || (self.secs == other.secs && self.nanos < other.nanos)
    }
}

/// A part of the day during which a power profile should run: from
/// `start_time` on, up to but not including `end_time`.
#[derive(Clone, Copy, Debug, PartialEq, Eq, Structural)]
pub struct Schedule {
    pub start_time: TimeOfDay,
    pub end_time: TimeOfDay,
    pub profile: PowerProfile,
}

impl Schedule {
    /// `now` lies within the schedule.
    pub open spec fn spec_covers(self, now: TimeOfDay) -> bool {
        !now.spec_before(self.start_time) && now.spec_before(self.end_time)
    }
}

/// The first schedule of `schedules` that covers `now`, if any.
pub open spec fn first_covering(schedules: Seq<Schedule>, now: TimeOfDay) -> Option<Schedule>
    decreases schedules.len(),
{
    if schedules.len() == 0 {
        None
    } else if schedules[0].spec_covers(now) {
        Some(schedules[0])
    } else {
        first_covering(schedules.drop_first(), now)
    }
}

/// Law: the schedule that decides at `now` is the first one, in order, that
/// runs at `now`: from its start on (seconds first, then nanoseconds), up to
/// but not including its end. Schedules before it, over or not yet begun,
/// do not run at `now` and hide nothing; when none runs at `now`, none
/// decides.
pub proof fn law_first_covering(schedules: Seq<Schedule>, now: TimeOfDay)
    ensures
        match first_covering(schedules, now) {
            Some(x) => exists|i: int|
                0 <= i < schedules.len() && schedules[i] == x && runs_at(x, now) && forall|j: int|
                    0 <= j < i ==> !runs_at(#[trigger] schedules[j], now),
            None => forall|j: int| 0 <= j < schedules.len() ==> !runs_at(#[trigger] schedules[j], now),
        },
    decreases schedules.len(),
{
    if schedules.len() > 0 {
        let rest = schedules.drop_first();
        law_first_covering(rest, now);
        if !schedules[0].spec_covers(now) {
            match first_covering(rest, now) {
                Some(x) => {
                    let i = choose|i: int|
                        0 <= i < rest.len() && rest[i] == x && runs_at(x, now) && forall|j: int|
                            0 <= j < i ==> !runs_at(#[trigger] rest[j], now);
                    assert(schedules[i + 1] == x);
                    assert forall|j: int| 0 <= j < i + 1 implies !runs_at(#[trigger] schedules[j], now) by {
                        if j > 0 {
                            assert(schedules[j] == rest[j - 1]);
                        }
                    }
                },
                None => {
                    assert forall|j: int| 0 <= j < schedules.len() implies !runs_at(
                        #[trigger] schedules[j],
                        now,
                    ) by {
                        if j > 0 {
                            assert(schedules[j] == rest[j - 1]);
                        }
                    }
                },
            }
        } else {
            assert(runs_at(schedules[0], now));
        }
    }
}

/// Schedule `s` runs at `now`: `now` is at or after its start and strictly
/// before its end, comparing seconds first, then nanoseconds.
pub open spec fn runs_at(s: Schedule, now: TimeOfDay) -> bool {
    &&& (s.start_time.secs < now.secs || (s.start_time.secs == now.secs && s.start_time.nanos
        <= now.nanos))
    &&& (now.secs < s.end_time.secs || (now.secs == s.end_time.secs && now.nanos
        < s.end_time.nanos))
}

/// The message of the time-based policy when it asks for `profile`.
pub open spec fn time_based_message(profile: PowerProfile) -> Seq<char> {
    "Time-based profile change to "@ + profile_name_text(profile)
}

/// The message of the battery policy's violation.
pub open spec fn battery_message() -> Seq<char> {
    "Battery below threshold, switching to power save"@
}

/// The message of the thermal policy's violation.
pub open spec fn thermal_message() -> Seq<char> {
    "Temperature above limit, reducing performance"@
}

/// Switch to power save mode when battery is low. The threshold is held as
/// the bit pattern of its `f32` percentage (`f32::to_bits`).
#[derive(Debug)]
pub struct BatteryThresholdPolicy {
    threshold_bits: u32,
}

impl BatteryThresholdPolicy {
    /// The threshold's bit pattern.
    pub closed spec fn spec_threshold_bits(&self) -> u32 {
        self.threshold_bits
    }

    /// A policy with the given threshold.
    pub fn new(threshold_bits: u32) -> (p: Self)
        ensures
            p.spec_threshold_bits() == threshold_bits,
    {
        BatteryThresholdPolicy { threshold_bits }
    }

    /// The threshold's bit pattern (`f32::to_bits` of the percentage).
    pub fn threshold_bits(&self) -> (b: u32)
        ensures
            b == self.spec_threshold_bits(),
    {
        self.threshold_bits
    }

    /// The policy's name.
    pub fn name(&self) -> (s: &'static str)
        ensures
            s@ == "battery_threshold"@,
    {
        "battery_threshold"
    }

    /// What the policy is for.
    pub fn description(&self) -> (s: &'static str)
        ensures
            s@ == "Switch to power save mode when battery is low"@,
    {
        "Switch to power save mode when battery is low"
    }

    /// The policy's verdict, given whether the battery's charge is below the
    /// threshold: while it is, and the system does not already run the
    /// power-save profile, the policy reports a violation whose remedy is
    /// switching to power save; otherwise it reports nothing.
    pub fn evaluate_with(&self, below_threshold: bool, current: PowerProfile) -> (r: Option<PolicyViolation>)
        ensures
            if below_threshold && current != PowerProfile::PowerSave {
                r matches Some(v) && v.policy_name@ == "battery_threshold"@ && v.severity
                    == Severity::Warning && v.message@ == battery_message() && v.remediation == Some(
                    PolicyAction::SetProfile(PowerProfile::PowerSave),
                )
            } else {
                r is None
            },
    {
        if below_threshold && current != PowerProfile::PowerSave {
            Some(PolicyViolation {
                policy_name: String::from_str("battery_threshold"),
                severity: Severity::Warning,
                message: String::from_str("Battery below threshold, switching to power save"),
                remediation: Some(PolicyAction::SetProfile(PowerProfile::PowerSave)),
            })
        } else {
            None
        }
    }
}

/// Reduce performance when system temperature is too high. The limit is held
/// as the bit pattern of its `f32` temperature (`f32::to_bits`).
#[derive(Debug)]
pub struct ThermalPolicy {
    max_temperature_bits: u32,
}

impl ThermalPolicy {
    /// The limit's bit pattern.
    pub closed spec fn spec_max_temperature_bits(&self) -> u32 {
        self.max_temperature_bits
    }

    /// A policy with the given temperature limit.
    pub fn new(max_temperature_bits: u32) -> (p: Self)
        ensures
            p.spec_max_temperature_bits() == max_temperature_bits,
    {
        ThermalPolicy { max_temperature_bits }
    }

    /// The limit's bit pattern (`f32::to_bits` of the temperature).
    pub fn max_temperature_bits(&self) -> (b: u32)
        ensures
            b == self.spec_max_temperature_bits(),
    {
        self.max_temperature_bits
    }

    /// The policy's name.
    pub fn name(&self) -> (s: &'static str)
        ensures
            s@ == "thermal_protection"@,
    {
        "thermal_protection"
    }

    /// What the policy is for.
    pub fn description(&self) -> (s: &'static str)
        ensures
            s@ == "Reduce performance when system temperature is too high"@,
    {
        "Reduce performance when system temperature is too high"
    }

    /// The policy's verdict, given whether the temperature is above the
    /// limit: while it is, the policy reports a critical violation whose
    /// remedy is switching to power save, which lowers performance and never
    /// raises it; at or below the limit it reports nothing.
    pub fn evaluate_with(&self, above_limit: bool) -> (r: Option<PolicyViolation>)
        ensures
            if above_limit {
                r matches Some(v) && v.policy_name@ == "thermal_protection"@ && v.severity
                    == Severity::Critical && v.message@ == thermal_message() && v.remediation == Some(
                    PolicyAction::SetProfile(PowerProfile::PowerSave),
                )
            } else {
                r is None
            },
    {
        if above_limit {
            Some(PolicyViolation {
                policy_name: String::from_str("thermal_protection"),
                severity: Severity::Critical,
                message: String::from_str("Temperature above limit, reducing performance"),
                remediation: Some(PolicyAction::SetProfile(PowerProfile::PowerSave)),
            })
        } else {
            None
        }
    }
}

/// The violations that evaluating the policies reported, in policy order: a
/// policy that reports nothing adds nothing.
pub open spec fn reported(results: Seq<Option<PolicyViolation>>) -> Seq<PolicyViolation>
    decreases results.len(),
{
    if results.len() == 0 {
        Seq::empty()
    } else {
        reported(results.drop_last()) + match results.last() {
            Some(v) => seq![v],
            None => Seq::empty(),
        }
    }
}

/// Gathers the violations the policies reported, in policy order.
pub fn collect_violations(results: Vec<Option<PolicyViolation>>) -> (r: Vec<PolicyViolation>)
    ensures
        r@ == reported(results@),
{
    let ghost all = results@;
    let n = results.len();
    let mut rest = results;
    let mut r: Vec<PolicyViolation> = Vec::new();
    let mut taken: usize = 0;
    while rest.len() > 0
        invariant
            all.len() == n,
            taken <= all.len(),
            rest@ == all.skip(taken as int),
            r@ == reported(all.take(taken as int)),
        decreases rest.len(),
    {
        let v = rest.remove(0);
        assert(v == all[taken as int]);
        assert(all.take(taken + 1).drop_last() =~= all.take(taken as int));
        assert(all.skip(taken as int).remove(0) =~= all.skip(taken + 1));
        match v {
            Some(x) => {
                r.push(x);
            },
            None => {},
        }
        assert(r@ =~= reported(all.take(taken + 1)));
        taken = taken + 1;
    }
    assert(all.take(taken as int) =~= all);
    r
}

/// Switch power profiles based on time of day.
#[derive(Debug)]
pub struct TimeBasedPolicy {
    schedules: Vec<Schedule>,
}

impl TimeBasedPolicy {
    /// The policy's schedules, in the order they are tried.
    pub closed spec fn schedule_seq(&self) -> Seq<Schedule> {
        self.schedules@
    }

    /// A policy with the given schedules.
    pub fn from_schedules(schedules: Vec<Schedule>) -> (p: Self)
        ensures
            p.schedule_seq() == schedules@,
    {
        TimeBasedPolicy { schedules }
    }

    /// The policy's schedules.
    pub fn schedules(&self) -> (s: &Vec<Schedule>)
        ensures
            s@ == self.schedule_seq(),
    {
        &self.schedules
    }

    /// The policy's name.
    pub fn name(&self) -> (s: &'static str)
        ensures
            s@ == "time_based"@,
    {
        "time_based"
    }

    /// What the policy is for.
    pub fn description(&self) -> (s: &'static str)
        ensures
            s@ == "Switch power profiles based on time of day"@,
    {
        "Switch power profiles based on time of day"
    }

    /// The policy's verdict at time of day `now` under `current`: the first
    /// schedule covering `now` decides; if it names another profile than the
    /// current one, the policy reports a violation whose remedy is switching
    /// to it. Later schedules are not looked at.
    pub fn evaluate_at(&self, now: TimeOfDay, current: PowerProfile) -> (r: Option<PolicyViolation>)
        ensures
            match first_covering(self.schedule_seq(), now) {
                Some(s) => if s.profile == current {
                    r is None
                } else {
                    r matches Some(v) && v.policy_name@ == "time_based"@ && v.severity == Severity::Info
                        && v.message@ == time_based_message(s.profile) && v.remediation
                        == Some(PolicyAction::SetProfile(s.profile))
                },
                None => r is None,
            },
    {
        let mut i: usize = 0;
        assert(self.schedules@.skip(0) =~= self.schedules@);
        while i < self.schedules.len()
            invariant
                i <= self.schedules@.len(),
                first_covering(self.schedules@, now) == first_covering(self.schedules@.skip(i as int), now),
            decreases self.schedules.len() - i,
        {
            let s = self.schedules[i];
            assert(self.schedules@.skip(i as int)[0] == s);
            assert(self.schedules@.skip(i as int).drop_first() =~= self.schedules@.skip(i + 1));
            if !now.is_before(&s.start_time) && now.is_before(&s.end_time) {
                if current != s.profile {
                    let mut message = String::from_str("Time-based profile change to ");
                    let name = profile_name(s.profile);
                    message.append(name.as_str());
                    return Some(PolicyViolation {
                        policy_name: String::from_str("time_based"),
                        severity: Severity::Info,
                        message,
                        remediation: Some(PolicyAction::SetProfile(s.profile)),
                    });
                }
                return None;
            }
            i = i + 1;
        }
        None
    }
}

} // verus!
