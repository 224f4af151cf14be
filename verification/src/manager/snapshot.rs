//! The state that the web layer renders from: the console, its AC units and
//! its zones.

use std::collections::BTreeMap;
use vstd::prelude::*;
use crate::text;

verus! {

/// A temperature in tenths of a degree Celsius.
#[derive(Copy, Clone, Debug, PartialEq, Eq, Structural)]
pub struct Temperature {
    pub deci: i16,
}

/// What a zone is doing.
#[derive(Copy, Clone, Debug, PartialEq, Eq, Structural)]
pub enum ZonePowerView {
    Off,
    On,
    Turbo,
}

/// How a zone is controlled.
#[derive(Copy, Clone, Debug, PartialEq, Eq, Structural)]
pub enum ControlModeView {
    Airflow,
    Temperature,
    Unknown,
}

/// What a zone's sensor reads.
#[derive(Copy, Clone, Debug, PartialEq, Eq, Structural)]
pub enum SensorView {
    NotAvailable,
    Temperature(Temperature),
}

/// The mode that the bar for all zones shows.
#[derive(Copy, Clone, Debug, PartialEq, Eq, Structural)]
pub enum BulkModeView {
    Airflow,
    Temperature,
}

/// The console, as discovered.
#[derive(Debug, PartialEq, Eq)]
pub struct ConsoleInfo {
    pub name: String,
    pub address: String,
    pub airtouch_id: u32,
    pub console_id: String,
    pub versions: Vec<String>,
    pub update_available: bool,
}

/// The live status of an AC unit.
#[derive(Debug, PartialEq, Eq)]
pub struct AcStatusView {
    /// `On`, `Off`, `AwayOff`, `AwayOn` or `Sleep`; none while unknown.
    pub power: Option<&'static str>,
    pub mode: Option<&'static str>,
    /// The speed, and whether the unit picks it itself.
    pub fan_speed: Option<(&'static str, bool)>,
    pub setpoint: Option<Temperature>,
    pub temperature: Option<Temperature>,
    pub flags: Vec<&'static str>,
    pub error: Option<u16>,
}

/// An AC unit: what it can do, and its status once one was received.
#[derive(Debug, PartialEq, Eq)]
pub struct AcView {
    pub id: u8,
    pub name: String,
    pub zone_start_index: u8,
    pub zone_count: u8,
    pub supported_modes: Vec<&'static str>,
    pub supported_fan_speeds: Vec<&'static str>,
    pub setpoint_cool: (u8, u8),
    pub setpoint_heat: (u8, u8),
    pub status: Option<AcStatusView>,
}

/// A zone and its status.
#[derive(Debug, PartialEq, Eq)]
pub struct ZoneView {
    pub id: u8,
    pub name: String,
    /// The AC unit that serves the zone, and the slug of its operating mode,
    /// by which the zone's row is tinted.
    pub ac_id: Option<u8>,
    pub ac_mode_slug: Option<&'static str>,
    pub power: ZonePowerView,
    pub has_sensor: bool,
    pub control_mode: ControlModeView,
    pub airflow_pct: u8,
    pub setpoint: Option<Temperature>,
    pub sensor: Option<SensorView>,
    pub flags: Vec<&'static str>,
}

/// Everything that is known at one moment, each AC unit and each zone by its id.
#[derive(Debug, PartialEq, Eq)]
pub struct Snapshot {
    pub connected: bool,
    pub console: ConsoleInfo,
    pub acs: BTreeMap<u8, AcView>,
    pub zones: BTreeMap<u8, ZoneView>,
    /// The mode that the bar for all zones shows, as the manager derives it
    /// from the zones.
    pub bulk_mode: BulkModeView,
}

/// What a [`ConsoleInfo`] holds.
#[verifier::ext_equal]
pub struct ConsoleModel {
    pub name: Seq<char>,
    pub address: Seq<char>,
    pub airtouch_id: u32,
    pub console_id: Seq<char>,
    pub versions: Seq<Seq<char>>,
    pub update_available: bool,
}

/// What an [`AcStatusView`] holds.
#[verifier::ext_equal]
pub struct AcStatusModel {
    pub power: Option<Seq<char>>,
    pub mode: Option<Seq<char>>,
    pub fan_speed: Option<(Seq<char>, bool)>,
    pub setpoint: Option<Temperature>,
    pub temperature: Option<Temperature>,
    pub flags: Seq<Seq<char>>,
    pub error: Option<u16>,
}

/// What an [`AcView`] holds.
#[verifier::ext_equal]
pub struct AcModel {
    pub id: u8,
    pub name: Seq<char>,
    pub zone_start_index: u8,
    pub zone_count: u8,
    pub supported_modes: Seq<Seq<char>>,
    pub supported_fan_speeds: Seq<Seq<char>>,
    pub setpoint_cool: (u8, u8),
    pub setpoint_heat: (u8, u8),
    pub status: Option<AcStatusModel>,
}

/// What a [`ZoneView`] holds.
#[verifier::ext_equal]
pub struct ZoneModel {
    pub id: u8,
    pub name: Seq<char>,
    pub ac_id: Option<u8>,
    pub ac_mode_slug: Option<Seq<char>>,
    pub power: ZonePowerView,
    pub has_sensor: bool,
    pub control_mode: ControlModeView,
    pub airflow_pct: u8,
    pub setpoint: Option<Temperature>,
    pub sensor: Option<SensorView>,
    pub flags: Seq<Seq<char>>,
}

/// What a [`Snapshot`] holds.
#[verifier::ext_equal]
pub struct SnapshotModel {
    pub connected: bool,
    pub console: ConsoleModel,
    pub acs: Map<u8, AcModel>,
    pub zones: Map<u8, ZoneModel>,
    pub bulk_mode: BulkModeView,
}

impl View for ConsoleInfo {
    type V = ConsoleModel;

    open spec fn view(&self) -> ConsoleModel {
        ConsoleModel {
            name: self.name@,
            address: self.address@,
            airtouch_id: self.airtouch_id,
            console_id: self.console_id@,
            versions: text::texts(self.versions@),
            update_available: self.update_available,
        }
    }
}

impl View for AcStatusView {
    type V = AcStatusModel;

    open spec fn view(&self) -> AcStatusModel {
        AcStatusModel {
            power: text::opt_text(self.power),
            mode: text::opt_text(self.mode),
            fan_speed: match self.fan_speed {
                Some(f) => Some((f.0@, f.1)),
                None => None,
            },
            setpoint: self.setpoint,
            temperature: self.temperature,
            flags: text::slugs(self.flags@),
            error: self.error,
        }
    }
}

impl View for AcView {
    type V = AcModel;

    open spec fn view(&self) -> AcModel {
        AcModel {
            id: self.id,
            name: self.name@,
            zone_start_index: self.zone_start_index,
            zone_count: self.zone_count,
            supported_modes: text::slugs(self.supported_modes@),
            supported_fan_speeds: text::slugs(self.supported_fan_speeds@),
            setpoint_cool: self.setpoint_cool,
            setpoint_heat: self.setpoint_heat,
            status: match self.status {
                Some(s) => Some(s@),
                None => None,
            },
        }
    }
}

impl View for ZoneView {
    type V = ZoneModel;

    open spec fn view(&self) -> ZoneModel {
        ZoneModel {
            id: self.id,
            name: self.name@,
            ac_id: self.ac_id,
            ac_mode_slug: text::opt_text(self.ac_mode_slug),
            power: self.power,
            has_sensor: self.has_sensor,
            control_mode: self.control_mode,
            airflow_pct: self.airflow_pct,
            setpoint: self.setpoint,
            sensor: self.sensor,
            flags: text::slugs(self.flags@),
        }
    }
}

/// What the AC units of a map hold.
pub open spec fn ac_models(acs: Map<u8, AcView>) -> Map<u8, AcModel> {
    acs.map_values(|a: AcView| a@)
}

/// What the zones of a map hold.
pub open spec fn zone_models(zones: Map<u8, ZoneView>) -> Map<u8, ZoneModel> {
    zones.map_values(|z: ZoneView| z@)
}

impl View for Snapshot {
    type V = SnapshotModel;

    open spec fn view(&self) -> SnapshotModel {
        SnapshotModel {
            connected: self.connected,
            console: self.console@,
            acs: ac_models(self.acs@),
            zones: zone_models(self.zones@),
            bulk_mode: self.bulk_mode,
        }
    }
}

impl ConsoleInfo {
    /// Whether two consoles hold the same.
    pub fn same(&self, other: &ConsoleInfo) -> (r: bool)
        ensures
            r == (self@ == other@),
    {
        text::same(self.name.as_str(), other.name.as_str()) && text::same(
            self.address.as_str(),
            other.address.as_str(),
        ) && self.airtouch_id == other.airtouch_id && text::same(
            self.console_id.as_str(),
            other.console_id.as_str(),
        ) && text::same_texts(&self.versions, &other.versions) && self.update_available
            == other.update_available
    }
}

impl AcStatusView {
    /// Whether two statuses hold the same.
    pub fn same(&self, other: &AcStatusView) -> (r: bool)
        ensures
            r == (self@ == other@),
    {
        let fan = match (self.fan_speed, other.fan_speed) {
            (Some(a), Some(b)) => text::same(a.0, b.0) && a.1 == b.1,
            (None, None) => true,
            _ => false,
        };
        text::same_opt(self.power, other.power) && text::same_opt(self.mode, other.mode) && fan
            && self.setpoint == other.setpoint && self.temperature == other.temperature
            && text::same_slugs(&self.flags, &other.flags) && self.error == other.error
    }
}

impl AcView {
    /// The unit's power status.
    pub fn power(&self) -> (r: Option<&'static str>)
        ensures
            r == match self.status {
                Some(s) => s.power,
                None => None,
            },
    {
        match &self.status {
            Some(s) => s.power,
            None => None,
        }
    }

    /// Whether two units hold the same.
    pub fn same(&self, other: &AcView) -> (r: bool)
        ensures
            r == (self@ == other@),
    {
        let status = match (&self.status, &other.status) {
            (Some(a), Some(b)) => a.same(b),
            (None, None) => true,
            _ => false,
        };
        self.id == other.id && text::same(self.name.as_str(), other.name.as_str())
            && self.zone_start_index == other.zone_start_index && self.zone_count
            == other.zone_count && text::same_slugs(&self.supported_modes, &other.supported_modes)
            && text::same_slugs(&self.supported_fan_speeds, &other.supported_fan_speeds)
            && self.setpoint_cool.0 == other.setpoint_cool.0 && self.setpoint_cool.1
            == other.setpoint_cool.1 && self.setpoint_heat.0 == other.setpoint_heat.0
            && self.setpoint_heat.1 == other.setpoint_heat.1 && status
    }
}

impl ZoneView {
    /// Whether the zone is open: on, turbo counted.
    pub fn is_on(&self) -> (r: bool)
        ensures
            r == (self.power != ZonePowerView::Off),
    {
        self.power != ZonePowerView::Off
    }

    /// Whether the zone is controlled by temperature.
    pub fn is_temp(&self) -> (r: bool)
        ensures
            r == (self.control_mode == ControlModeView::Temperature),
    {
        self.control_mode == ControlModeView::Temperature
    }

    /// Whether two zones hold the same.
    pub fn same(&self, other: &ZoneView) -> (r: bool)
        ensures
            r == (self@ == other@),
    {
        self.id == other.id && text::same(self.name.as_str(), other.name.as_str()) && self.ac_id
            == other.ac_id && text::same_opt(self.ac_mode_slug, other.ac_mode_slug) && self.power
            == other.power && self.has_sensor == other.has_sensor && self.control_mode
            == other.control_mode && self.airflow_pct == other.airflow_pct && self.setpoint
            == other.setpoint && self.sensor == other.sensor && text::same_slugs(
            &self.flags,
            &other.flags,
        )
    }
}

/// The members of `dom` below `n`, in ascending order.
pub open spec fn ids_below(dom: Set<u8>, n: nat) -> Seq<u8>
    decreases n,
{
    if n == 0 {
        Seq::empty()
    } else {
        let below = ids_below(dom, (n - 1) as nat);
        if dom.contains((n - 1) as u8) {
            below.push((n - 1) as u8)
        } else {
            below
        }
    }
}

/// The ids of a map's domain, in ascending order.
pub open spec fn ids(dom: Set<u8>) -> Seq<u8> {
    ids_below(dom, 256)
}

/// The members below a bound are listed once each, in ascending order.
proof fn lemma_ids_below(dom: Set<u8>, n: nat)
    requires
        n <= 256,
    ensures
        forall|i: int|
            0 <= i < ids_below(dom, n).len() ==> dom.contains(#[trigger] ids_below(dom, n)[i])
                && ids_below(dom, n)[i] < n,
        forall|i: int, j: int|
            0 <= i < j < ids_below(dom, n).len() ==> ids_below(dom, n)[i] < ids_below(dom, n)[j],
        forall|id: u8|
            id < n && #[trigger] dom.contains(id) ==> ids_below(dom, n).contains(id),
    decreases n,
{
    if n > 0 {
        let below = ids_below(dom, (n - 1) as nat);
        lemma_ids_below(dom, (n - 1) as nat);
        if dom.contains((n - 1) as u8) {
            assert forall|id: u8| id < n && #[trigger] dom.contains(id) implies ids_below(
                dom,
                n,
            ).contains(id) by {
                if id < n - 1 {
                    let k = choose|k: int| 0 <= k < below.len() && below[k] == id;
                    assert(ids_below(dom, n)[k] == id);
                } else {
                    assert(ids_below(dom, n)[below.len() as int] == id);
                }
            }
        }
    }
}

/// The ids of a domain are exactly its members, each once, in ascending order.
pub proof fn lemma_ids(dom: Set<u8>)
    ensures
        forall|i: int| 0 <= i < ids(dom).len() ==> dom.contains(#[trigger] ids(dom)[i]),
        forall|i: int, j: int| 0 <= i < j < ids(dom).len() ==> ids(dom)[i] < ids(dom)[j],
        forall|id: u8| #[trigger] dom.contains(id) ==> ids(dom).contains(id),
{
    lemma_ids_below(dom, 256);
}

impl Snapshot {
    /// The AC unit with an id.
    pub fn ac(&self, id: u8) -> (r: Option<&AcView>)
        ensures
            match r {
                Some(ac) => self.acs@.contains_key(id) && *ac == self.acs@[id],
                None => !self.acs@.contains_key(id),
            },
    {
        broadcast use vstd::std_specs::btree::group_btree_axioms;

        self.acs.get(&id)
    }

    /// The zone with an id.
    pub fn zone(&self, id: u8) -> (r: Option<&ZoneView>)
        ensures
            match r {
                Some(zone) => self.zones@.contains_key(id) && *zone == self.zones@[id],
                None => !self.zones@.contains_key(id),
            },
    {
        broadcast use vstd::std_specs::btree::group_btree_axioms;

        self.zones.get(&id)
    }

    /// The ids of the AC units, in ascending order.
    pub fn ac_ids(&self) -> (r: Vec<u8>)
        ensures
            r@ == ids(self.acs@.dom()),
    {
        let mut out: Vec<u8> = Vec::new();
        for n in 0..256u16
            invariant
                out@ == ids_below(self.acs@.dom(), n as nat),
        {
            if self.ac(n as u8).is_some() {
                out.push(n as u8);
            }
        }
        out
    }

    /// The ids of the zones, in ascending order.
    pub fn zone_ids(&self) -> (r: Vec<u8>)
        ensures
            r@ == ids(self.zones@.dom()),
    {
        let mut out: Vec<u8> = Vec::new();
        for n in 0..256u16
            invariant
                out@ == ids_below(self.zones@.dom(), n as nat),
        {
            if self.zone(n as u8).is_some() {
                out.push(n as u8);
            }
        }
        out
    }

    /// Whether `zone` is an open zone of the AC unit `ac`.
    pub open spec fn open_zone(&self, ac: u8, zone: u8) -> bool {
        self.zones@.contains_key(zone) && self.zones@[zone].ac_id == Some(ac)
            && self.zones@[zone].power != ZonePowerView::Off
    }

    /// Whether at least one zone of an AC unit is open.
    pub fn ac_has_open_zone(&self, id: u8) -> (r: bool)
        ensures
            r == exists|zone: u8| self.open_zone(id, zone),
            r == exists|zone: u8| #[trigger]
                self.zones@.contains_key(zone) && self.zones@[zone].ac_id == Some(id)
                    && self.zones@[zone].power != ZonePowerView::Off,
    {
        for n in 0..256u16
            invariant
                forall|zone: u8| zone < n ==> !#[trigger] self.open_zone(id, zone),
        {
            if let Some(zone) = self.zone(n as u8) {
                if zone.is_on() {
                    if let Some(ac) = zone.ac_id {
                        if ac == id {
                            assert(self.open_zone(id, n as u8));
                            assert(self.zones@.contains_key(n as u8));
                            return true;
                        }
                    }
                }
            }
        }
        assert forall|zone: u8| #[trigger] self.zones@.contains_key(zone) implies !(
        self.zones@[zone].ac_id == Some(id) && self.zones@[zone].power != ZonePowerView::Off) by {
            assert(!self.open_zone(id, zone));
        }
        false
    }

    /// The mode that the bar for all zones shows.
    pub fn bulk_mode(&self) -> (r: BulkModeView)
        ensures
            r == self.bulk_mode,
    {
        self.bulk_mode
    }

    /// Whether the AC unit with an id is held the same by both snapshots.
    pub fn same_ac(&self, other: &Snapshot, id: u8) -> (r: bool)
        ensures
            r == same_entry(self@.acs, other@.acs, id),
    {
        match (self.ac(id), other.ac(id)) {
            (Some(a), Some(b)) => a.same(b),
            (None, None) => true,
            _ => false,
        }
    }

    /// Whether the zone with an id is held the same by both snapshots.
    pub fn same_zone(&self, other: &Snapshot, id: u8) -> (r: bool)
        ensures
            r == same_entry(self@.zones, other@.zones, id),
    {
        match (self.zone(id), other.zone(id)) {
            (Some(a), Some(b)) => a.same(b),
            (None, None) => true,
            _ => false,
        }
    }

    /// Whether two snapshots hold the same.
    pub fn same(&self, other: &Snapshot) -> (r: bool)
        ensures
            r == (self@ == other@),
    {
        for n in 0..256u16
            invariant
                forall|id: u8| id < n ==> #[trigger] same_entry(self@.acs, other@.acs, id),
                forall|id: u8| id < n ==> #[trigger] same_entry(self@.zones, other@.zones, id),
        {
            let id: u8 = n as u8;
            if !self.same_ac(other, id) || !self.same_zone(other, id) {
                return false;
            }
        }
        proof {
            lemma_same_entries(self@.acs, other@.acs);
            lemma_same_entries(self@.zones, other@.zones);
        }
        self.connected == other.connected && self.console.same(&other.console) && self.bulk_mode
            == other.bulk_mode
    }
}

/// Whether two maps hold the same under an id.
pub open spec fn same_entry<V>(a: Map<u8, V>, b: Map<u8, V>, id: u8) -> bool {
    a.contains_key(id) == b.contains_key(id) && (a.contains_key(id) ==> a[id] == b[id])
}

/// Maps that hold the same under every id are equal.
pub(crate) proof fn lemma_same_entries<V>(a: Map<u8, V>, b: Map<u8, V>)
    requires
        forall|id: u8| same_entry(a, b, id),
    ensures
        a == b,
{
    assert forall|id: u8| #[trigger] a.dom().contains(id) == b.dom().contains(id) by {
        assert(same_entry(a, b, id));
    }
    assert(a.dom() =~= b.dom());
    assert forall|id: u8| #[trigger] a.dom().contains(id) implies a[id] == b[id] by {
        assert(same_entry(a, b, id));
    }
    assert(a =~= b);
}

} // verus!
