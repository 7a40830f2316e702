//! Hardware abstraction: the driver registry, the CPU driver's rules and the
//! kernel text formats its drivers read.

use vstd::prelude::*;
use vstd::string::*;
use crate::api::{
    capability_debug_text, capability_not_supported, Capability, CapabilityView, ComponentId,
    ComponentProperties, ComponentState, ComponentStateView, ComponentType, Error,
};
use crate::text::{
    chars_of, decimal_string, decimal_text, find_char, find_char_from, int_error_text,
    parse_unsigned, parse_unsigned_chars, lemma_parse_unsigned_nonneg, slice_chars, split_on, trim, trim_chars, IntErrorKind,
};

verus! {

/// The larger of two integers.
pub open spec fn max_int(a: int, b: int) -> int {
    if a >= b {
        a
    } else {
        b
    }
}

/// The highest CPU number an entry of the kernel's CPU list names: the number
/// after the first `-` of a range (`"0-15"`), or the entry itself; an entry
/// that does not read as a `u32` counts as 0.
pub open spec fn cpu_entry_max(entry: Seq<char>) -> int {
    let d = find_char(entry, '-');
    let hi = if d < entry.len() {
        entry.skip((d + 1) as int)
    } else {
        entry
    };
    match parse_unsigned(hi, u32::MAX as int) {
        Ok(v) => v,
        Err(_) => 0,
    }
}

/// The largest of 0 and the entries' maxima.
pub open spec fn cpu_entries_max(entries: Seq<Seq<char>>) -> int
    decreases entries.len(),
{
    if entries.len() == 0 {
        0
    } else {
        max_int(cpu_entry_max(entries[0]), cpu_entries_max(entries.drop_first()))
    }
}

/// The highest CPU number that a CPU list such as the kernel's
/// `/sys/devices/system/cpu/online` names (`"0-3,8-11\n"`): the text is
/// trimmed and split at commas.
pub open spec fn cpu_list_max(s: Seq<char>) -> int {
    cpu_entries_max(split_on(trim(s), ','))
}

proof fn lemma_cpu_entry_max_nonneg(entry: Seq<char>)
    ensures
        cpu_entry_max(entry) >= 0,
{
    let d = find_char(entry, '-');
    lemma_parse_unsigned_nonneg(entry, u32::MAX as int);
    lemma_parse_unsigned_nonneg(entry.skip((d + 1) as int), u32::MAX as int);
}

proof fn lemma_cpu_entries_max_nonneg(entries: Seq<Seq<char>>)
    ensures
        cpu_entries_max(entries) >= 0,
    decreases entries.len(),
{
    if entries.len() > 0 {
        lemma_cpu_entry_max_nonneg(entries[0]);
        lemma_cpu_entries_max_nonneg(entries.drop_first());
    }
}

/// Law: the highest CPU number of a list of entries is at least the number
/// each entry names, and is one of those numbers (0 for no entry): the
/// maximum over all entries, wherever the largest stands.
pub proof fn law_cpu_entries_max(entries: Seq<Seq<char>>)
    ensures
        forall|i: int|
            0 <= i < entries.len() ==> cpu_entries_max(entries) >= cpu_entry_max(#[trigger] entries[i]),
        entries.len() == 0 ==> cpu_entries_max(entries) == 0,
        entries.len() > 0 ==> exists|i: int|
            0 <= i < entries.len() && cpu_entries_max(entries) == cpu_entry_max(#[trigger] entries[i]),
    decreases entries.len(),
{
    if entries.len() > 0 {
        let rest = entries.drop_first();
        law_cpu_entries_max(rest);
        assert forall|i: int|
            0 <= i < entries.len() implies cpu_entries_max(entries) >= cpu_entry_max(
            #[trigger] entries[i],
        ) by {
            if i > 0 {
                assert(entries[i] == rest[i - 1]);
            }
        }
        if rest.len() == 0 || cpu_entry_max(entries[0]) >= cpu_entries_max(rest) {
            lemma_cpu_entry_max_nonneg(entries[0]);
            assert(cpu_entries_max(entries) == cpu_entry_max(entries[0]));
        } else {
            let j = choose|j: int| 0 <= j < rest.len() && cpu_entries_max(rest) == cpu_entry_max(#[trigger] rest[j]);
            assert(entries[j + 1] == rest[j]);
        }
    }
}

/// The highest CPU number that one entry of a CPU list names.
fn cpu_entry_value(entry: &Vec<char>) -> (r: u32)
    ensures
        r == cpu_entry_max(entry@),
{
    let d = find_char_from(entry, '-', 0);
    assert(entry@.skip(0) =~= entry@);
    let hi = if d < entry.len() {
        let h = slice_chars(entry, d + 1, entry.len());
        assert(h@ =~= entry@.skip(d + 1));
        h
    } else {
        slice_chars(entry, 0, entry.len())
    };
    assert(d >= entry.len() ==> hi@ =~= entry@);
    match parse_unsigned_chars(&hi, 0xffff_ffffu64) {
        Ok(v) => v as u32,
        Err(_) => 0,
    }
}

/// The highest CPU number that the CPU list `s` names.
pub fn cpu_list_max_of(s: &str) -> (r: u32)
    ensures
        r == cpu_list_max(s@),
{
    let all = chars_of(s);
    let t = trim_chars(&all);
    let ghost ts = t@;
    let mut max: u32 = 0;
    let mut start: usize = 0;
    assert(ts.skip(0) =~= ts);
    proof {
        lemma_cpu_entries_max_nonneg(split_on(ts, ','));
    }
    loop
        invariant
            t@ == ts,
            ts == trim(s@),
            start <= t.len(),
            max_int(max as int, cpu_entries_max(split_on(ts.skip(start as int), ','))) == cpu_entries_max(
                split_on(ts, ','),
            ),
        decreases t.len() + 1 - start,
    {
        let j = find_char_from(&t, ',', start);
        let entry = slice_chars(&t, start, j);
        let v = cpu_entry_value(&entry);
        let ghost rest = ts.skip(start as int);
        proof {
            lemma_cpu_entry_max_nonneg(entry@);
            lemma_cpu_entries_max_nonneg(split_on(ts.skip(j + 1), ','));
            assert(entry@ =~= rest.take((j - start) as int));
            if j < t.len() {
                assert(rest.skip((j - start) + 1) =~= ts.skip(j + 1));
                assert(split_on(rest, ',') == seq![rest.take((j - start) as int)] + split_on(
                    rest.skip((j - start) + 1),
                    ',',
                ));
                let tail = split_on(ts.skip(j + 1), ',');
                assert((seq![entry@] + tail).drop_first() =~= tail);
            } else {
                assert(rest.take((j - start) as int) =~= rest);
                assert(seq![rest].drop_first() =~= Seq::<Seq<char>>::empty());
            }
        }
        if v > max {
            max = v;
        }
        if j == t.len() {
            proof {
                assert(entry@ =~= rest);
                assert(split_on(rest, ',') == seq![rest]);
                assert(cpu_entries_max(seq![rest].drop_first()) == 0);
                assert(cpu_entries_max(seq![rest]) == max_int(v as int, 0));
            }
            return max;
        }
        start = j + 1;
    }
}

/// The number of CPUs a CPU list describes: one more than the highest CPU
/// number it names.
pub fn cpu_count(s: &str) -> (n: u32)
    requires
        cpu_list_max(s@) < u32::MAX,
    ensures
        n == cpu_list_max(s@) + 1,
{
    let m = cpu_list_max_of(s);
    m + 1
}

/// What `Filesystem::read_u64` gives for the text a file holds: the trimmed
/// text read as a decimal `u64`, or a parse error with the integer parser's
/// message.
pub open spec fn u64_reading(s: Seq<char>) -> Result<int, IntErrorKind> {
    parse_unsigned(trim(s), u64::MAX as int)
}

/// Reads the text of a file as a decimal `u64`, surrounding whitespace aside.
pub fn parse_u64_reading(s: &str) -> (r: Result<u64, Error>)
    ensures
        match r {
            Ok(v) => u64_reading(s@) == Ok::<int, IntErrorKind>(v as int),
            Err(e) => exists|k: IntErrorKind|
                u64_reading(s@) == Err::<int, IntErrorKind>(k) && (e matches Error::Parse(t)
                    && t@ == int_error_text(k)),
        },
{
    let all = chars_of(s);
    let t = trim_chars(&all);
    match parse_unsigned_chars(&t, 0xffff_ffff_ffff_ffffu64) {
        Ok(v) => Ok(v),
        Err(k) => Err(Error::Parse(k.message())),
    }
}

/// How a measurement point measures power.
#[derive(Clone, Copy, Debug, PartialEq, Eq, Structural)]
pub enum MeasurementType {
    /// Intel RAPL.
    Rapl,
    /// Linux hwmon.
    HwMon,
    /// Battery subsystem.
    BatteryMonitor,
    /// Estimated via heuristics.
    Estimate,
}

/// A place where a power meter measures.
#[derive(Debug)]
pub struct MeasurementPoint {
    pub id: ComponentId,
    pub name: String,
    pub measurement_type: MeasurementType,
}

/// The file system drivers read and write through the operating system.
#[derive(Clone, Copy, Debug)]
pub struct OsFs;

/// The registered drivers and power meters. A driver is registered under the
/// component type it handles, which is all the registry's decisions read; the
/// drivers and meters themselves are kept beside it, in the same order, by
/// the code that runs them.
pub struct DriverRegistry {
    driver_types: Vec<ComponentType>,
    power_meter_count: usize,
}

/// The abstract value of a [`DriverRegistry`].
pub struct DriverRegistryView {
    /// The component type of each registered driver, in registration order.
    pub driver_types: Seq<ComponentType>,
    /// How many power meters are registered.
    pub power_meters: nat,
}

impl View for DriverRegistry {
    type V = DriverRegistryView;

    closed spec fn view(&self) -> DriverRegistryView {
        DriverRegistryView {
            driver_types: self.driver_types@,
            power_meters: self.power_meter_count as nat,
        }
    }
}

/// The position of the first driver for `component_type` among `types`.
pub open spec fn first_driver_for(types: Seq<ComponentType>, component_type: ComponentType) -> Option<
    int,
>
    decreases types.len(),
{
    if types.len() == 0 {
        None
    } else if types[0] == component_type {
        Some(0)
    } else {
        match first_driver_for(types.drop_first(), component_type) {
            Some(i) => Some(i + 1),
            None => None,
        }
    }
}

/// The first driver for a type is the first position holding that type.
pub proof fn lemma_first_driver_for(types: Seq<ComponentType>, component_type: ComponentType)
    ensures
        match first_driver_for(types, component_type) {
            Some(i) => 0 <= i < types.len() && types[i] == component_type && forall|j: int|
                0 <= j < i ==> types[j] != component_type,
            None => forall|j: int| 0 <= j < types.len() ==> types[j] != component_type,
        },
    decreases types.len(),
{
    if types.len() > 0 {
        let rest = types.drop_first();
        lemma_first_driver_for(rest, component_type);
        assert forall|j: int| 0 < j < types.len() implies types[j] == rest[j - 1] by {}
    }
}

/// Law: registering more drivers never changes which driver handles a
/// component type that already had one.
pub proof fn law_first_driver_stable(
    types: Seq<ComponentType>,
    component_type: ComponentType,
    added: ComponentType,
)
    requires
        first_driver_for(types, component_type) is Some,
    ensures
        first_driver_for(types.push(added), component_type) == first_driver_for(types, component_type),
    decreases types.len(),
{
    if types.len() > 0 && types[0] != component_type {
        assert(types.push(added).drop_first() =~= types.drop_first().push(added));
        law_first_driver_stable(types.drop_first(), component_type, added);
    }
}

/// The components that discovery found: those of every driver whose
/// discovery succeeded, in driver order; a driver whose discovery failed
/// adds none.
pub open spec fn discovered_components(
    results: Seq<Result<Vec<ComponentState>, Error>>,
) -> Seq<ComponentStateView>
    decreases results.len(),
{
    if results.len() == 0 {
        Seq::empty()
    } else {
        discovered_components(results.drop_last()) + match results.last() {
            Ok(v) => crate::api::component_views(v@),
            Err(_) => Seq::empty(),
        }
    }
}

impl DriverRegistry {
    /// An empty registry.
    pub fn new() -> (r: Self)
        ensures
            r@.driver_types == Seq::<ComponentType>::empty(),
            r@.power_meters == 0,
    {
        DriverRegistry { driver_types: Vec::new(), power_meter_count: 0 }
    }

    /// Registers a driver for components of `component_type`; it takes the
    /// next position.
    pub fn register_driver(&mut self, component_type: ComponentType)
        ensures
            final(self)@.driver_types == old(self)@.driver_types.push(component_type),
            final(self)@.power_meters == old(self)@.power_meters,
    {
        self.driver_types.push(component_type);
    }

    /// Registers a power meter.
    pub fn register_power_meter(&mut self)
        requires
            old(self)@.power_meters < usize::MAX,
        ensures
            final(self)@.driver_types == old(self)@.driver_types,
            final(self)@.power_meters == old(self)@.power_meters + 1,
    {
        self.power_meter_count = self.power_meter_count + 1;
    }

    /// The number of registered drivers.
    pub fn driver_count(&self) -> (n: usize)
        ensures
            n == self@.driver_types.len(),
    {
        self.driver_types.len()
    }

    /// The number of registered power meters.
    pub fn power_meter_count(&self) -> (n: usize)
        ensures
            n == self@.power_meters,
    {
        self.power_meter_count
    }

    /// The position of the first registered driver that handles
    /// `component_type`, if any.
    pub fn get_driver(&self, component_type: ComponentType) -> (r: Option<usize>)
        ensures
            match r {
                Some(i) => first_driver_for(self@.driver_types, component_type) == Some(i as int),
                None => first_driver_for(self@.driver_types, component_type) is None,
            },
    {
        proof {
            lemma_first_driver_for(self.driver_types@, component_type);
        }
        let mut i: usize = 0;
        while i < self.driver_types.len()
            invariant
                i <= self.driver_types@.len(),
                forall|j: int| 0 <= j < i ==> self.driver_types@[j] != component_type,
                match first_driver_for(self.driver_types@, component_type) {
                    Some(f) => 0 <= f < self.driver_types@.len() && self.driver_types@[f] == component_type
                        && forall|j: int| 0 <= j < f ==> self.driver_types@[j] != component_type,
                    None => forall|j: int| 0 <= j < self.driver_types@.len() ==> self.driver_types@[j] != component_type,
                },
            decreases self.driver_types.len() - i,
        {
            if self.driver_types[i] == component_type {
                return Some(i);
            }
            i = i + 1;
        }
        None
    }

    /// Gathers what the drivers' discoveries found, in driver order. A failed
    /// discovery adds nothing; its error is for the caller to report.
    pub fn discover_all(results: &Vec<Result<Vec<ComponentState>, Error>>) -> (r: Vec<
        ComponentState,
    >)
        ensures
            crate::api::component_views(r@) == discovered_components(results@),
    {
        let mut r: Vec<ComponentState> = Vec::new();
        let mut i: usize = 0;
        while i < results.len()
            invariant
                i <= results@.len(),
                crate::api::component_views(r@) == discovered_components(results@.take(i as int)),
            decreases results.len() - i,
        {
            let ghost before = r@;
            assert(results@.take(i + 1).drop_last() =~= results@.take(i as int));
            match &results[i] {
                Ok(found) => {
                    let mut k: usize = 0;
                    while k < found.len()
                        invariant
                            k <= found@.len(),
                            r@.len() == before.len() + k,
                            forall|m: int| 0 <= m < before.len() ==> #[trigger] r@[m] == before[m],
                            forall|m: int|
                                0 <= m < k ==> #[trigger] r@[before.len() + m]@ == found@[m]@,
                        decreases found.len() - k,
                    {
                        r.push(found[k].clone());
                        k = k + 1;
                    }
                    let ghost lhs = crate::api::component_views(r@);
                    let ghost rhs = crate::api::component_views(before) + crate::api::component_views(
                        found@,
                    );
                    assert forall|j: int| 0 <= j < lhs.len() implies lhs[j] == rhs[j] by {
                        if j >= before.len() {
                            let m = j - before.len();
                            assert(r@[before.len() + m]@ == found@[m]@);
                        }
                    }
                    assert(lhs =~= rhs);
                },
                Err(_) => {
                    assert(crate::api::component_views(r@) =~= crate::api::component_views(before)
                        + Seq::<ComponentStateView>::empty());
                },
            }
            i = i + 1;
        }
        assert(results@.take(results.len() as int) =~= results@);
        r
    }
}

/// Where, below the CPU directory, the kernel exposes a CPU's frequency governor.
pub open spec fn governor_path_text(cpu: nat) -> Seq<char> {
    "cpu"@ + decimal_text(cpu) + "/cpufreq/scaling_governor"@
}

/// The path, relative to the CPU directory, of CPU `cpu`'s governor file.
pub fn cpu_governor_path(cpu: u32) -> (p: String)
    ensures
        p@ == governor_path_text(cpu as nat),
{
    let mut p = String::from_str("cpu");
    let n = decimal_string(cpu as u64);
    p.append(n.as_str());
    p.append("/cpufreq/scaling_governor");
    p
}

/// The name of CPU `cpu` as a component.
pub open spec fn cpu_name_text(cpu: nat) -> Seq<char> {
    "cpu"@ + decimal_text(cpu)
}

/// The governors the CPU driver offers.
pub open spec fn cpu_governors() -> Seq<Seq<char>> {
    seq!["performance"@, "powersave"@]
}

/// The component that the CPU driver reports for CPU `cpu`: a CPU named
/// `cpu<N>`, handled by the `cpufreq` driver, whose one capability is
/// governor control between `performance` and `powersave`, currently the
/// governor read from its file, or `unknown` when that read failed.
pub open spec fn cpu_component_view(
    id: ComponentId,
    cpu: nat,
    governor: Option<Seq<char>>,
) -> ComponentStateView {
    ComponentStateView {
        id,
        component_type: ComponentType::Cpu,
        name: cpu_name_text(cpu),
        power: None,
        properties: crate::api::ComponentPropertiesView {
            vendor: None,
            model: None,
            driver: Some("cpufreq"@),
            metadata: Seq::empty(),
        },
        capabilities: seq![
            CapabilityView::GovernorControl {
                available: cpu_governors(),
                current: match governor {
                    Some(g) => g,
                    None => "unknown"@,
                },
            },
        ],
    }
}

/// The component the CPU driver reports for CPU `cpu`, given its identifier
/// and the governor read from its file (`None` when the read failed).
pub fn cpu_component_state(id: ComponentId, cpu: u32, governor: Option<String>) -> (c: ComponentState)
    ensures
        c@ == cpu_component_view(id, cpu as nat, crate::api::opt_text_of(governor)),
{
    let mut name = String::from_str("cpu");
    let n = decimal_string(cpu as u64);
    name.append(n.as_str());
    let current = match governor {
        Some(g) => g,
        None => String::from_str("unknown"),
    };
    let mut available: Vec<String> = Vec::new();
    available.push(String::from_str("performance"));
    available.push(String::from_str("powersave"));
    let mut capabilities: Vec<Capability> = Vec::new();
    capabilities.push(Capability::GovernorControl { available, current });
    let c = ComponentState {
        id,
        component_type: ComponentType::Cpu,
        name,
        power: None,
        properties: ComponentProperties {
            vendor: None,
            model: None,
            driver: Some(String::from_str("cpufreq")),
            metadata: Vec::new(),
        },
        capabilities,
    };
    assert(crate::api::texts_of(c.capabilities@[0]->available@) =~= cpu_governors());
    assert(crate::api::capability_views(c.capabilities@) =~= cpu_component_view(
        id,
        cpu as nat,
        crate::api::opt_text_of(governor),
    ).capabilities);
    assert(crate::api::pairs_text(c.properties.metadata@) =~= Seq::empty());
    c
}

/// How many CPUs discovery reports, given the reading of the CPU count: the
/// count when it could be read, else one.
pub fn discovered_cpu_count(count: Result<u32, Error>) -> (n: u32)
    ensures
        n == match count {
            Ok(c) => c,
            Err(_) => 1u32,
        },
{
    match count {
        Ok(c) => c,
        Err(_) => 1,
    }
}

/// The components that the CPU driver's discovery reports: one per CPU, in
/// CPU order, CPU `i` with identifier `ids[i]` and the governor read from
/// its file, `governors[i]` (`None` when that read failed).
pub fn cpu_components(ids: Vec<ComponentId>, governors: Vec<Option<String>>) -> (v: Vec<ComponentState>)
    requires
        ids@.len() == governors@.len(),
        ids@.len() <= u32::MAX as int + 1,
    ensures
        v@.len() == ids@.len(),
        forall|i: int|
            0 <= i < v@.len() ==> #[trigger] v@[i]@ == cpu_component_view(
                ids@[i],
                i as nat,
                crate::api::opt_text_of(governors@[i]),
            ),
{
    let n = ids.len();
    let ghost all_ids = ids@;
    let ghost all_govs = governors@;
    let mut governors = governors;
    let mut v: Vec<ComponentState> = Vec::new();
    let mut i: usize = 0;
    while i < n
        invariant
            n == all_ids.len(),
            all_govs.len() == n,
            n <= u32::MAX as int + 1,
            ids@ == all_ids,
            i <= n,
            governors@ == all_govs.skip(i as int),
            v@.len() == i,
            forall|j: int|
                0 <= j < i ==> #[trigger] v@[j]@ == cpu_component_view(
                    all_ids[j],
                    j as nat,
                    crate::api::opt_text_of(all_govs[j]),
                ),
        decreases n - i,
    {
        let g = governors.remove(0);
        assert(g == all_govs[i as int]);
        assert(all_govs.skip(i as int).remove(0) =~= all_govs.skip(i + 1));
        let c = cpu_component_state(ids[i], i as u32, g);
        v.push(c);
        i = i + 1;
    }
    v
}

/// The governor that applying `capability` writes to every CPU: only governor
/// control is supported.
pub fn governor_to_apply(capability: &Capability) -> (r: Result<String, Error>)
    ensures
        match capability@ {
            CapabilityView::GovernorControl { current, .. } => r matches Ok(g) && g@ == current,
            _ => r matches Err(Error::CapabilityNotSupported(t)) && t@ == capability_debug_text(
                capability@,
            ),
        },
{
    match capability {
        Capability::GovernorControl { current, .. } => Ok(current.clone()),
        _ => Err(capability_not_supported(capability)),
    }
}

/// Whether the CPU driver can apply `capability`: governor control only.
pub fn cpu_validates(capability: &Capability) -> (r: bool)
    ensures
        r == (capability@ is GovernorControl),
{
    match capability {
        Capability::GovernorControl { .. } => true,
        _ => false,
    }
}

/// The measurement point of a RAPL power meter: the CPU package, named by
/// the name its zone reports, or `package-0` when that cannot be read.
pub fn rapl_measurement_point(id: ComponentId, zone_name: Option<String>) -> (p: MeasurementPoint)
    ensures
        p.id == id,
        p.measurement_type == MeasurementType::Rapl,
        p.name@ == match zone_name {
            Some(n) => n@,
            None => "package-0"@,
        },
{
    let name = match zone_name {
        Some(n) => n,
        None => String::from_str("package-0"),
    };
    MeasurementPoint { id, name, measurement_type: MeasurementType::Rapl }
}

/// The power limit, in microwatts, that a RAPL meter reports: the one read
/// from its constraint file, or 15 W when that cannot be read.
pub fn rapl_limit_microwatts(read: Result<u64, Error>) -> (uw: u64)
    ensures
        uw == match read {
            Ok(v) => v,
            Err(_) => 15_000_000u64,
        },
{
    match read {
        Ok(v) => v,
        Err(_) => 15_000_000,
    }
}

} // verus!
