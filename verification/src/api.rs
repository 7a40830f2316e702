//! Domain types shared by the daemon, its drivers and the command-line client.

use vstd::prelude::*;
use vstd::string::*;
use crate::text::{decimal_string, decimal_text};

verus! {

/// Bits of a UUID's 128-bit value that hold its version nibble and its variant bits.
pub open spec fn uuid_version_variant_mask() -> u128 {
    0xF000_C000_0000_0000_0000u128
}

/// What those bits hold in a random (version 4, RFC 4122 variant) UUID.
pub open spec fn uuid_v4_marker() -> u128 {
    0x4000_8000_0000_0000_0000u128
}

/// Calls `uuid::Uuid::new_v4` and returns the UUID as its 128-bit value
/// (`Uuid::as_u128`). The value is random; what the crate's source shows of
/// every outcome is that the version nibble reads 4 and the variant bits read
/// `10`, which `new_v4` masks in.
#[verifier::external_body]
fn random_v4_value() -> (v: u128)
    ensures
        v & uuid_version_variant_mask() == uuid_v4_marker(),
{
    uuid::Uuid::new_v4().as_u128()
}

/// Unique identifier for hardware components: the 128-bit value of a UUID.
#[derive(Clone, Copy, Debug, PartialEq, Eq, Hash, Structural)]
pub struct ComponentId(pub u128);

impl ComponentId {
    /// A fresh random (version 4) identifier.
    pub fn new() -> (id: Self)
        ensures
            id.0 & uuid_version_variant_mask() == uuid_v4_marker(),
    {
        ComponentId(random_v4_value())
    }
}


/// A span of time: whole seconds and the nanoseconds beyond them, fewer
/// than a billion (what `std::time::Duration` holds).
#[derive(Clone, Copy, Debug, PartialEq, Eq, Structural)]
pub struct TimeSpan {
    secs: u64,
    nanos: u32,
}

impl TimeSpan {
    #[verifier::type_invariant]
    closed spec fn inv(self) -> bool {
        self.nanos < 1_000_000_000
    }

    /// The whole seconds.
    pub closed spec fn spec_secs(self) -> u64 {
        self.secs
    }

    /// The nanoseconds beyond the whole seconds.
    pub closed spec fn spec_nanos(self) -> u32 {
        self.nanos
    }

    /// A span of whole seconds.
    pub closed spec fn spec_from_secs(secs: u64) -> TimeSpan {
        TimeSpan { secs, nanos: 0 }
    }

    /// The nanoseconds of a span are fewer than a billion.
    pub fn subsec_nanos(&self) -> (n: u32)
        ensures
            n == self.spec_nanos(),
            n < 1_000_000_000,
    {
        proof {
            use_type_invariant(self);
        }
        self.nanos
    }

    /// The whole seconds of a span.
    pub fn as_secs(&self) -> (n: u64)
        ensures
            n == self.spec_secs(),
    {
        self.secs
    }

    /// A span of whole seconds.
    #[verifier::when_used_as_spec(spec_from_secs)]
    pub fn from_secs(secs: u64) -> (span: Self)
        ensures
            span == Self::spec_from_secs(secs),
            span.spec_secs() == secs,
            span.spec_nanos() == 0,
    {
        TimeSpan { secs, nanos: 0 }
    }

    /// The span of `secs` seconds and `nanos` nanoseconds, whole seconds
    /// carried out of the nanoseconds (`Duration::new`, which panics where
    /// the carry overflows the seconds).
    pub fn new(secs: u64, nanos: u32) -> (span: Self)
        requires
            secs + nanos / 1_000_000_000 <= u64::MAX,
        ensures
            span.spec_secs() == secs + nanos / 1_000_000_000,
            span.spec_nanos() == nanos % 1_000_000_000,
    {
        TimeSpan { secs: secs + (nanos / 1_000_000_000) as u64, nanos: nanos % 1_000_000_000 }
    }
}

/// A point in time: seconds since the Unix epoch (UTC) and the nanoseconds
/// beyond them. Leap seconds show as `nanos` of a billion or more.
#[derive(Clone, Copy, Debug, PartialEq, Eq, Structural)]
pub struct Timestamp {
    pub secs: i64,
    pub nanos: u32,
}

impl Timestamp {
    /// `self` comes strictly after `other`: seconds first, then nanoseconds.
    pub open spec fn spec_after(self, other: Timestamp) -> bool {
        self.secs > other.secs || (self.secs == other.secs && self.nanos > other.nanos)
    }

    /// Whether `self` comes strictly after `other`.
    pub fn is_after(&self, other: &Timestamp) -> (r: bool)
        ensures
            r == self.spec_after(*other),
    {
        self.secs > other.secs || (self.secs == other.secs && self.nanos > other.nanos)
    }
}

/// Law: timestamps are ordered by their seconds, and by their nanoseconds
/// only between equal seconds; "after" is a strict total order. A timestamp
/// with fewer seconds is never after one with more, whatever the
/// nanoseconds.
pub proof fn law_timestamp_order(a: Timestamp, b: Timestamp, c: Timestamp)
    ensures
        a.secs < b.secs ==> !a.spec_after(b),
        a.secs > b.secs ==> a.spec_after(b),
        a.secs == b.secs ==> (a.spec_after(b) <==> a.nanos > b.nanos),
        !a.spec_after(a),
        a.spec_after(b) ==> !b.spec_after(a),
        a.spec_after(b) && b.spec_after(c) ==> a.spec_after(c),
        a == b || a.spec_after(b) || b.spec_after(a),
{
}

/// Power measurement with uncertainty bounds. The two readings are held as
/// the IEEE-754 bit patterns of the watts they measure (`f64::to_bits`): the
/// library stores, orders and selects measurements, it never computes on them.
#[derive(Clone, Copy, Debug, PartialEq, Eq, Structural)]
pub struct PowerMeasurement {
    pub watts_bits: u64,
    pub uncertainty_bits: u64,
    pub timestamp: Timestamp,
}

/// Hardware component types.
#[derive(Clone, Copy, Debug, PartialEq, Eq, Hash, Structural)]
pub enum ComponentType {
    Cpu,
    Gpu,
    Disk,
    Network,
    Display,
    Usb,
    Audio,
    Memory,
    Pcie,
    Custom,
}

/// The texts of a list of `String`s.
pub open spec fn texts_of(v: Seq<String>) -> Seq<Seq<char>> {
    v.map_values(|s: String| s@)
}

/// The text of an optional `String`.
pub open spec fn opt_text_of(o: Option<String>) -> Option<Seq<char>> {
    match o {
        Some(s) => Some(s@),
        None => None,
    }
}

/// Copies an optional `String`.
pub fn copy_opt_string(o: &Option<String>) -> (r: Option<String>)
    ensures
        opt_text_of(r) == opt_text_of(*o),
{
    match o {
        Some(s) => Some(s.clone()),
        None => None,
    }
}

/// Copies a list of `String`s, keeping their order.
pub fn copy_strings(v: &Vec<String>) -> (r: Vec<String>)
    ensures
        texts_of(r@) == texts_of(v@),
{
    let mut r: Vec<String> = Vec::new();
    let mut i: usize = 0;
    while i < v.len()
        invariant
            i <= v.len(),
            r@.len() == i,
            forall|j: int| 0 <= j < i ==> #[trigger] r@[j]@ == v@[j]@,
        decreases v.len() - i,
    {
        r.push(v[i].clone());
        i = i + 1;
    }
    assert(texts_of(r@) =~= texts_of(v@));
    r
}

/// Component metadata, as key and value texts.
pub open spec fn pairs_text(v: Seq<(String, String)>) -> Seq<(Seq<char>, Seq<char>)> {
    v.map_values(|p: (String, String)| (p.0@, p.1@))
}

/// Descriptive properties of a component; the metadata as key/value pairs,
/// in the order given. Nothing here keeps a key from occurring twice; the
/// wire form, a map, keeps one value per key.
#[derive(Debug)]
pub struct ComponentProperties {
    pub vendor: Option<String>,
    pub model: Option<String>,
    pub driver: Option<String>,
    pub metadata: Vec<(String, String)>,
}

/// The abstract value of [`ComponentProperties`].
pub struct ComponentPropertiesView {
    pub vendor: Option<Seq<char>>,
    pub model: Option<Seq<char>>,
    pub driver: Option<Seq<char>>,
    pub metadata: Seq<(Seq<char>, Seq<char>)>,
}

impl View for ComponentProperties {
    type V = ComponentPropertiesView;

    open spec fn view(&self) -> ComponentPropertiesView {
        ComponentPropertiesView {
            vendor: opt_text_of(self.vendor),
            model: opt_text_of(self.model),
            driver: opt_text_of(self.driver),
            metadata: pairs_text(self.metadata@),
        }
    }
}

impl Clone for ComponentProperties {
    fn clone(&self) -> (res: Self)
        ensures
            res@ == self@,
    {
        let mut metadata: Vec<(String, String)> = Vec::new();
        let mut i: usize = 0;
        while i < self.metadata.len()
            invariant
                i <= self.metadata.len(),
                metadata@.len() == i,
                forall|j: int|
                    0 <= j < i ==> (#[trigger] metadata@[j]).0@ == self.metadata@[j].0@
                        && metadata@[j].1@ == self.metadata@[j].1@,
            decreases self.metadata.len() - i,
        {
            let k = self.metadata[i].0.clone();
            let v = self.metadata[i].1.clone();
            metadata.push((k, v));
            i = i + 1;
        }
        assert(pairs_text(metadata@) =~= pairs_text(self.metadata@));
        ComponentProperties {
            vendor: copy_opt_string(&self.vendor),
            model: copy_opt_string(&self.model),
            driver: copy_opt_string(&self.driver),
            metadata,
        }
    }
}

#[verifier::external_type_specification]
#[verifier::external_body]
pub struct ExJsonValue(serde_json::Value);

/// Calls `<serde_json::Value as Clone>::clone`. `Value` derives `Clone`, so the
/// copy is the same JSON value as the original.
#[verifier::external_body]
fn copy_json(v: &serde_json::Value) -> (r: serde_json::Value)
    ensures
        r == *v,
{
    v.clone()
}

/// Capabilities that components can support.
#[derive(Debug, PartialEq, Eq)]
#[allow(inconsistent_fields)]
pub enum Capability {
    // CPU
    FrequencyScaling { min: u64, max: u64, current: u64 },
    GovernorControl { available: Vec<String>, current: String },
    CoreControl { total: u32, online: u32 },
    TurboBoost { enabled: bool },
    // GPU
    PowerLimit { min: u64, max: u64, current: u64 },
    PerformanceLevel { levels: Vec<String>, current: String },
    // Disk
    Apm { level: u8 },
    WriteCache { enabled: bool },
    // Network
    WakeOnLan { enabled: bool },
    PowerSave { enabled: bool },
    // Display
    Brightness { min: u8, max: u8, current: u8 },
    AutoBrightness { enabled: bool },
    // Generic
    RuntimePowerManagement { enabled: bool, autosuspend_delay: Option<TimeSpan> },
    Custom { name: String, value: serde_json::Value },
}

/// The abstract value of a [`Capability`]: texts in place of `String`s.
#[allow(inconsistent_fields)]
pub enum CapabilityView {
    FrequencyScaling { min: u64, max: u64, current: u64 },
    GovernorControl { available: Seq<Seq<char>>, current: Seq<char> },
    CoreControl { total: u32, online: u32 },
    TurboBoost { enabled: bool },
    PowerLimit { min: u64, max: u64, current: u64 },
    PerformanceLevel { levels: Seq<Seq<char>>, current: Seq<char> },
    Apm { level: u8 },
    WriteCache { enabled: bool },
    WakeOnLan { enabled: bool },
    PowerSave { enabled: bool },
    Brightness { min: u8, max: u8, current: u8 },
    AutoBrightness { enabled: bool },
    RuntimePowerManagement { enabled: bool, autosuspend_delay: Option<TimeSpan> },
    Custom { name: Seq<char>, value: serde_json::Value },
}

impl View for Capability {
    type V = CapabilityView;

    open spec fn view(&self) -> CapabilityView {
        match self {
            Capability::FrequencyScaling { min, max, current } => CapabilityView::FrequencyScaling {
                min: *min,
                max: *max,
                current: *current,
            },
            Capability::GovernorControl { available, current } => CapabilityView::GovernorControl {
                available: texts_of(available@),
                current: current@,
            },
            Capability::CoreControl { total, online } => CapabilityView::CoreControl {
                total: *total,
                online: *online,
            },
            Capability::TurboBoost { enabled } => CapabilityView::TurboBoost { enabled: *enabled },
            Capability::PowerLimit { min, max, current } => CapabilityView::PowerLimit {
                min: *min,
                max: *max,
                current: *current,
            },
            Capability::PerformanceLevel { levels, current } => CapabilityView::PerformanceLevel {
                levels: texts_of(levels@),
                current: current@,
            },
            Capability::Apm { level } => CapabilityView::Apm { level: *level },
            Capability::WriteCache { enabled } => CapabilityView::WriteCache { enabled: *enabled },
            Capability::WakeOnLan { enabled } => CapabilityView::WakeOnLan { enabled: *enabled },
            Capability::PowerSave { enabled } => CapabilityView::PowerSave { enabled: *enabled },
            Capability::Brightness { min, max, current } => CapabilityView::Brightness {
                min: *min,
                max: *max,
                current: *current,
            },
            Capability::AutoBrightness { enabled } => CapabilityView::AutoBrightness {
                enabled: *enabled,
            },
            Capability::RuntimePowerManagement { enabled, autosuspend_delay } =>
                CapabilityView::RuntimePowerManagement {
                enabled: *enabled,
                autosuspend_delay: *autosuspend_delay,
            },
            Capability::Custom { name, value } => CapabilityView::Custom {
                name: name@,
                value: *value,
            },
        }
    }
}

impl Clone for Capability {
    fn clone(&self) -> (res: Self)
        ensures
            res@ == self@,
    {
        match self {
            Capability::FrequencyScaling { min, max, current } => Capability::FrequencyScaling {
                min: *min,
                max: *max,
                current: *current,
            },
            Capability::GovernorControl { available, current } => Capability::GovernorControl {
                available: copy_strings(available),
                current: current.clone(),
            },
            Capability::CoreControl { total, online } => Capability::CoreControl {
                total: *total,
                online: *online,
            },
            Capability::TurboBoost { enabled } => Capability::TurboBoost { enabled: *enabled },
            Capability::PowerLimit { min, max, current } => Capability::PowerLimit {
                min: *min,
                max: *max,
                current: *current,
            },
            Capability::PerformanceLevel { levels, current } => Capability::PerformanceLevel {
                levels: copy_strings(levels),
                current: current.clone(),
            },
            Capability::Apm { level } => Capability::Apm { level: *level },
            Capability::WriteCache { enabled } => Capability::WriteCache { enabled: *enabled },
            Capability::WakeOnLan { enabled } => Capability::WakeOnLan { enabled: *enabled },
            Capability::PowerSave { enabled } => Capability::PowerSave { enabled: *enabled },
            Capability::Brightness { min, max, current } => Capability::Brightness {
                min: *min,
                max: *max,
                current: *current,
            },
            Capability::AutoBrightness { enabled } => Capability::AutoBrightness {
                enabled: *enabled,
            },
            Capability::RuntimePowerManagement { enabled, autosuspend_delay } =>
                Capability::RuntimePowerManagement {
                enabled: *enabled,
                autosuspend_delay: *autosuspend_delay,
            },
            Capability::Custom { name, value } => Capability::Custom {
                name: name.clone(),
                value: copy_json(value),
            },
        }
    }
}

/// The abstract values of a list of capabilities.
pub open spec fn capability_views(v: Seq<Capability>) -> Seq<CapabilityView> {
    v.map_values(|c: Capability| c@)
}

/// Copies a list of capabilities, keeping their order.
pub fn copy_capabilities(v: &Vec<Capability>) -> (r: Vec<Capability>)
    ensures
        capability_views(r@) == capability_views(v@),
{
    let mut r: Vec<Capability> = Vec::new();
    let mut i: usize = 0;
    while i < v.len()
        invariant
            i <= v.len(),
            r@.len() == i,
            forall|j: int| 0 <= j < i ==> #[trigger] r@[j]@ == v@[j]@,
        decreases v.len() - i,
    {
        r.push(v[i].clone());
        i = i + 1;
    }
    assert(capability_views(r@) =~= capability_views(v@));
    r
}

/// Component state representation.
#[derive(Debug)]
pub struct ComponentState {
    pub id: ComponentId,
    pub component_type: ComponentType,
    pub name: String,
    pub power: Option<PowerMeasurement>,
    pub properties: ComponentProperties,
    pub capabilities: Vec<Capability>,
}

/// The abstract value of a [`ComponentState`].
pub struct ComponentStateView {
    pub id: ComponentId,
    pub component_type: ComponentType,
    pub name: Seq<char>,
    pub power: Option<PowerMeasurement>,
    pub properties: ComponentPropertiesView,
    pub capabilities: Seq<CapabilityView>,
}

impl View for ComponentState {
    type V = ComponentStateView;

    open spec fn view(&self) -> ComponentStateView {
        ComponentStateView {
            id: self.id,
            component_type: self.component_type,
            name: self.name@,
            power: self.power,
            properties: self.properties@,
            capabilities: capability_views(self.capabilities@),
        }
    }
}

impl Clone for ComponentState {
    fn clone(&self) -> (res: Self)
        ensures
            res@ == self@,
    {
        ComponentState {
            id: self.id,
            component_type: self.component_type,
            name: self.name.clone(),
            power: self.power,
            properties: self.properties.clone(),
            capabilities: copy_capabilities(&self.capabilities),
        }
    }
}

/// The abstract values of a list of component states.
pub open spec fn component_views(v: Seq<ComponentState>) -> Seq<ComponentStateView> {
    v.map_values(|c: ComponentState| c@)
}

/// Power profiles the system can run under.
#[derive(Clone, Copy, Debug, PartialEq, Eq, Structural)]
pub enum PowerProfile {
    Performance,
    Balanced,
    PowerSave,
    Custom,
}

/// Battery state. The percentage and health readings are held as the bit
/// patterns of their `f32` values (`f32::to_bits`).
#[derive(Clone, Copy, Debug, PartialEq, Eq, Structural)]
pub struct BatteryState {
    pub present: bool,
    pub charging: bool,
    pub percentage_bits: Option<u32>,
    pub time_to_empty: Option<TimeSpan>,
    pub time_to_full: Option<TimeSpan>,
    pub health_bits: Option<u32>,
}

/// Severity of a thermal event.
#[derive(Clone, Copy, Debug, PartialEq, Eq, Structural)]
pub enum ThermalSeverity {
    Normal,
    Warning,
    Critical,
}

/// A thermal zone's reading. Temperatures are held as the bit patterns of
/// their `f32` values (`f32::to_bits`).
#[derive(Debug)]
pub struct ThermalEvent {
    pub zone: String,
    pub temperature_bits: u32,
    pub threshold_bits: Option<u32>,
    pub severity: ThermalSeverity,
}

/// Events emitted by the system.
#[derive(Debug)]
pub enum SystemEvent {
    ComponentDiscovered(ComponentState),
    ComponentRemoved(ComponentId),
    ComponentStateChanged { id: ComponentId, capability: Capability },
    PowerMeasurement { id: ComponentId, measurement: PowerMeasurement },
    PowerProfileChanged { from: PowerProfile, to: PowerProfile },
    BatteryStateChanged(BatteryState),
    ThermalEvent(ThermalEvent),
    PolicyViolation { policy: String, reason: String },
}

/// Errors of the power-management operations.
#[derive(Debug)]
pub enum Error {
    ComponentNotFound(ComponentId),
    CapabilityNotSupported(String),
    PermissionDenied(String),
    HardwareError(String),
    ConfigError(String),
    /// An I/O error, by its message.
    Io(String),
    Parse(String),
    /// Any other error, by its message.
    Other(String),
}

/// Version of the IPC protocol between the daemon and its clients.
#[derive(Clone, Copy, Debug, PartialEq, Eq, Structural)]
pub struct ProtocolVersion {
    pub major: u16,
    pub minor: u16,
}

/// Major version of the protocol this library speaks.
pub const PROTOCOL_MAJOR: u16 = 1;

/// Minor version of the protocol this library speaks.
pub const PROTOCOL_MINOR: u16 = 1;

/// The protocol version this library speaks.
pub open spec fn spec_protocol() -> ProtocolVersion {
    ProtocolVersion { major: PROTOCOL_MAJOR, minor: PROTOCOL_MINOR }
}

/// The protocol version this library speaks.
#[verifier::when_used_as_spec(spec_protocol)]
pub fn protocol() -> (v: ProtocolVersion)
    ensures
        v == spec_protocol(),
{
    ProtocolVersion { major: PROTOCOL_MAJOR, minor: PROTOCOL_MINOR }
}

/// Requests a client sends the daemon.
#[derive(Debug)]
pub enum IpcRequest {
    Hello(ProtocolVersion),
    GetProfile,
    SetProfile(PowerProfile),
    GetComponents,
    ApplyCapability { id: ComponentId, capability: Capability },
    GetTotalPower,
}

/// Responses of the daemon. The total power is held as the bit pattern of
/// its `f64` watts (`f64::to_bits`).
#[derive(Debug)]
pub enum IpcResponse {
    HelloAck(ProtocolVersion),
    Success,
    Error(String),
    Profile(PowerProfile),
    Components(Vec<ComponentState>),
    TotalPower(u64),
}

/// A name for what `str`'s `Debug` writes for a text: the text in double
/// quotes, with quotes, backslashes and unprintable characters escaped.
pub uninterp spec fn str_debug_text(s: Seq<char>) -> Seq<char>;

/// Calls `format!("{:?}", s)` on a `str`.
#[verifier::external_body]
fn str_debug(s: &str) -> (r: String)
    ensures
        r@ == str_debug_text(s@),
{
    format!("{:?}", s)
}

/// A name for what `Duration`'s `Debug` writes for the duration of `secs`
/// seconds and `nanos` nanoseconds (such as `2s` or `1.5ms`).
pub uninterp spec fn duration_debug_text(secs: u64, nanos: u32) -> Seq<char>;

/// Calls `format!("{:?}", Duration::new(secs, nanos))`; with fewer than a
/// billion nanoseconds, `Duration::new` carries nothing and cannot panic.
#[verifier::external_body]
fn duration_debug(secs: u64, nanos: u32) -> (r: String)
    requires
        nanos < 1_000_000_000,
    ensures
        r@ == duration_debug_text(secs, nanos),
{
    format!("{:?}", std::time::Duration::new(secs, nanos))
}

/// A name for what `serde_json::Value`'s `Debug` writes for a JSON value.
pub uninterp spec fn json_debug_text(v: serde_json::Value) -> Seq<char>;

/// Calls `format!("{:?}", v)` on a `serde_json::Value`.
#[verifier::external_body]
fn json_debug(v: &serde_json::Value) -> (r: String)
    ensures
        r@ == json_debug_text(*v),
{
    format!("{:?}", v)
}

/// What `Debug` writes for a `bool`.
pub open spec fn bool_debug_text(b: bool) -> Seq<char> {
    if b {
        "true"@
    } else {
        "false"@
    }
}

/// What `Debug` writes for an unsigned integer: its decimal text.
pub open spec fn num_debug_text(n: nat) -> Seq<char> {
    decimal_text(n)
}

/// The `Debug` texts of `items` joined by `, `.
pub open spec fn joined_debug_text(items: Seq<Seq<char>>) -> Seq<char>
    decreases items.len(),
{
    if items.len() == 0 {
        Seq::empty()
    } else if items.len() == 1 {
        str_debug_text(items[0])
    } else {
        joined_debug_text(items.drop_last()) + ", "@ + str_debug_text(items.last())
    }
}

/// What `Debug` writes for a list of texts: `["a", "b"]`.
pub open spec fn list_debug_text(items: Seq<Seq<char>>) -> Seq<char> {
    "["@ + joined_debug_text(items) + "]"@
}

/// What `Debug` writes for an optional span: `Some(2s)` or `None`.
pub open spec fn opt_span_debug_text(o: Option<TimeSpan>) -> Seq<char> {
    match o {
        Some(t) => "Some("@ + duration_debug_text(t.spec_secs(), t.spec_nanos()) + ")"@,
        None => "None"@,
    }
}

/// What the derived `Debug` of `Capability` writes (`{:?}`): the variant's
/// name, then its fields as `name: value`, separated by `, `, in braces.
pub open spec fn capability_debug_text(c: CapabilityView) -> Seq<char> {
    match c {
        CapabilityView::FrequencyScaling { min, max, current } => "FrequencyScaling { min: "@
            + num_debug_text(min as nat) + ", max: "@ + num_debug_text(max as nat) + ", current: "@
            + num_debug_text(current as nat) + " }"@,
        CapabilityView::GovernorControl { available, current } => "GovernorControl { available: "@
            + list_debug_text(available) + ", current: "@ + str_debug_text(current) + " }"@,
        CapabilityView::CoreControl { total, online } => "CoreControl { total: "@ + num_debug_text(
            total as nat,
        ) + ", online: "@ + num_debug_text(online as nat) + " }"@,
        CapabilityView::TurboBoost { enabled } => "TurboBoost { enabled: "@ + bool_debug_text(enabled)
            + " }"@,
        CapabilityView::PowerLimit { min, max, current } => "PowerLimit { min: "@ + num_debug_text(
            min as nat,
        ) + ", max: "@ + num_debug_text(max as nat) + ", current: "@ + num_debug_text(current as nat)
            + " }"@,
        CapabilityView::PerformanceLevel { levels, current } => "PerformanceLevel { levels: "@
            + list_debug_text(levels) + ", current: "@ + str_debug_text(current) + " }"@,
        CapabilityView::Apm { level } => "Apm { level: "@ + num_debug_text(level as nat) + " }"@,
        CapabilityView::WriteCache { enabled } => "WriteCache { enabled: "@ + bool_debug_text(enabled)
            + " }"@,
        CapabilityView::WakeOnLan { enabled } => "WakeOnLan { enabled: "@ + bool_debug_text(enabled)
            + " }"@,
        CapabilityView::PowerSave { enabled } => "PowerSave { enabled: "@ + bool_debug_text(enabled)
            + " }"@,
        CapabilityView::Brightness { min, max, current } => "Brightness { min: "@ + num_debug_text(
            min as nat,
        ) + ", max: "@ + num_debug_text(max as nat) + ", current: "@ + num_debug_text(current as nat)
            + " }"@,
        CapabilityView::AutoBrightness { enabled } => "AutoBrightness { enabled: "@ + bool_debug_text(
            enabled,
        ) + " }"@,
        CapabilityView::RuntimePowerManagement { enabled, autosuspend_delay } =>
            "RuntimePowerManagement { enabled: "@ + bool_debug_text(enabled)
            + ", autosuspend_delay: "@ + opt_span_debug_text(autosuspend_delay) + " }"@,
        CapabilityView::Custom { name, value } => "Custom { name: "@ + str_debug_text(name)
            + ", value: "@ + json_debug_text(value) + " }"@,
    }
}

fn append_num(s: &mut String, n: u64)
    ensures
        final(s)@ == old(s)@ + num_debug_text(n as nat),
{
    let t = decimal_string(n);
    s.append(t.as_str());
}

fn append_bool(s: &mut String, b: bool)
    ensures
        final(s)@ == old(s)@ + bool_debug_text(b),
{
    if b {
        s.append("true");
    } else {
        s.append("false");
    }
}

fn append_str_debug(s: &mut String, t: &String)
    ensures
        final(s)@ == old(s)@ + str_debug_text(t@),
{
    let d = str_debug(t.as_str());
    s.append(d.as_str());
}

fn append_list_debug(s: &mut String, items: &Vec<String>)
    ensures
        final(s)@ == old(s)@ + list_debug_text(texts_of(items@)),
{
    let ghost start = s@;
    let ghost texts = texts_of(items@);
    s.append("[");
    let mut i: usize = 0;
    while i < items.len()
        invariant
            i <= items@.len(),
            texts == texts_of(items@),
            s@ == start + "["@ + joined_debug_text(texts.take(i as int)),
        decreases items.len() - i,
    {
        let ghost before = s@;
        if i > 0 {
            s.append(", ");
        }
        append_str_debug(s, &items[i]);
        proof {
            let t = texts.take(i + 1);
            assert(t.drop_last() =~= texts.take(i as int));
            assert(t.last() == items@[i as int]@);
            if i == 0 {
                assert(t.len() == 1);
                assert(joined_debug_text(texts.take(0)) =~= Seq::<char>::empty());
                assert(t[0] == items@[0]@);
            }
        }
        i = i + 1;
    }
    assert(texts.take(items.len() as int) =~= texts);
    s.append("]");
}

fn append_opt_span(s: &mut String, o: &Option<TimeSpan>)
    ensures
        final(s)@ == old(s)@ + opt_span_debug_text(*o),
{
    match o {
        Some(t) => {
            s.append("Some(");
            let d = duration_debug(t.as_secs(), t.subsec_nanos());
            s.append(d.as_str());
            s.append(")");
        },
        None => {
            s.append("None");
        },
    }
}

impl Capability {
    /// What the derived `Debug` writes for this capability (`{:?}`).
    pub fn debug_text(&self) -> (s: String)
        ensures
            s@ == capability_debug_text(self@),
    {
        let mut s = String::new();
        match self {
            Capability::FrequencyScaling { min, max, current } => {
                s.append("FrequencyScaling { min: ");
                append_num(&mut s, *min);
                s.append(", max: ");
                append_num(&mut s, *max);
                s.append(", current: ");
                append_num(&mut s, *current);
                s.append(" }");
            },
            Capability::GovernorControl { available, current } => {
                s.append("GovernorControl { available: ");
                append_list_debug(&mut s, available);
                s.append(", current: ");
                append_str_debug(&mut s, current);
                s.append(" }");
            },
            Capability::CoreControl { total, online } => {
                s.append("CoreControl { total: ");
                append_num(&mut s, *total as u64);
                s.append(", online: ");
                append_num(&mut s, *online as u64);
                s.append(" }");
            },
            Capability::TurboBoost { enabled } => {
                s.append("TurboBoost { enabled: ");
                append_bool(&mut s, *enabled);
                s.append(" }");
            },
            Capability::PowerLimit { min, max, current } => {
                s.append("PowerLimit { min: ");
                append_num(&mut s, *min);
                s.append(", max: ");
                append_num(&mut s, *max);
                s.append(", current: ");
                append_num(&mut s, *current);
                s.append(" }");
            },
            Capability::PerformanceLevel { levels, current } => {
                s.append("PerformanceLevel { levels: ");
                append_list_debug(&mut s, levels);
                s.append(", current: ");
                append_str_debug(&mut s, current);
                s.append(" }");
            },
            Capability::Apm { level } => {
                s.append("Apm { level: ");
                append_num(&mut s, *level as u64);
                s.append(" }");
            },
            Capability::WriteCache { enabled } => {
                s.append("WriteCache { enabled: ");
                append_bool(&mut s, *enabled);
                s.append(" }");
            },
            Capability::WakeOnLan { enabled } => {
                s.append("WakeOnLan { enabled: ");
                append_bool(&mut s, *enabled);
                s.append(" }");
            },
            Capability::PowerSave { enabled } => {
                s.append("PowerSave { enabled: ");
                append_bool(&mut s, *enabled);
                s.append(" }");
            },
            Capability::Brightness { min, max, current } => {
                s.append("Brightness { min: ");
                append_num(&mut s, *min as u64);
                s.append(", max: ");
                append_num(&mut s, *max as u64);
                s.append(", current: ");
                append_num(&mut s, *current as u64);
                s.append(" }");
            },
            Capability::AutoBrightness { enabled } => {
                s.append("AutoBrightness { enabled: ");
                append_bool(&mut s, *enabled);
                s.append(" }");
            },
            Capability::RuntimePowerManagement { enabled, autosuspend_delay } => {
                s.append("RuntimePowerManagement { enabled: ");
                append_bool(&mut s, *enabled);
                s.append(", autosuspend_delay: ");
                append_opt_span(&mut s, autosuspend_delay);
                s.append(" }");
            },
            Capability::Custom { name, value } => {
                s.append("Custom { name: ");
                append_str_debug(&mut s, name);
                s.append(", value: ");
                let d = json_debug(value);
                s.append(d.as_str());
                s.append(" }");
            },
        }
        s
    }
}

/// The error that a capability no handler supports is reported with.
pub fn capability_not_supported(c: &Capability) -> (e: Error)
    ensures
        e matches Error::CapabilityNotSupported(t) && t@ == capability_debug_text(c@),
{
    Error::CapabilityNotSupported(c.debug_text())
}

} // verus!
