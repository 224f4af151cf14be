//! The automation programs: what the web layer shows of them, and which changes
//! of state count as a user's.

use vstd::prelude::*;
use crate::manager::snapshot::{
    AcModel, AcView, ControlModeView, Snapshot, SnapshotModel, Temperature, ZoneModel,
    ZonePowerView, ZoneView,
};
use crate::text;

verus! {

/// The configuration of the automation programs.
#[derive(Copy, Clone, Debug, PartialEq, Eq, Structural)]
pub struct AutomationConfig {
    /// Power an AC unit off once its zones have reached their setpoints.
    pub setpoint_off: bool,
    /// Power off when nothing was changed for this many minutes.
    pub idle_off_min: Option<u32>,
}

/// What the badge of the setpoint program shows: its countdown, if one runs.
#[derive(Debug, PartialEq, Eq)]
pub struct SetpointOffStatus {
    pub badge: Option<String>,
}

/// What the badge of the idle program shows: the time of powering off, if one
/// is set.
#[derive(Debug, PartialEq, Eq)]
pub struct IdleOffStatus {
    pub badge: Option<String>,
}

/// The characters that an optional badge holds.
pub open spec fn badge_text(badge: Option<String>) -> Option<Seq<char>> {
    match badge {
        Some(s) => Some(s@),
        None => None,
    }
}

/// Whether two badges show the same.
fn same_badge(a: &Option<String>, b: &Option<String>) -> (r: bool)
    ensures
        r == (badge_text(*a) == badge_text(*b)),
{
    match (a, b) {
        (Some(x), Some(y)) => text::same(x.as_str(), y.as_str()),
        (None, None) => true,
        _ => false,
    }
}

impl View for SetpointOffStatus {
    type V = Option<Seq<char>>;

    open spec fn view(&self) -> Option<Seq<char>> {
        badge_text(self.badge)
    }
}

impl View for IdleOffStatus {
    type V = Option<Seq<char>>;

    open spec fn view(&self) -> Option<Seq<char>> {
        badge_text(self.badge)
    }
}

impl SetpointOffStatus {
    /// Whether two statuses show the same.
    pub fn same(&self, other: &SetpointOffStatus) -> (r: bool)
        ensures
            r == (self@ == other@),
    {
        same_badge(&self.badge, &other.badge)
    }
}

impl IdleOffStatus {
    /// Whether two statuses show the same.
    pub fn same(&self, other: &IdleOffStatus) -> (r: bool)
        ensures
            r == (self@ == other@),
    {
        same_badge(&self.badge, &other.badge)
    }
}

/// The automation programs at one moment: their configuration, and the status
/// that each derives for one snapshot.
#[derive(Debug, PartialEq, Eq)]
pub struct AutomationStore {
    pub config: AutomationConfig,
    pub setpoint_off: SetpointOffStatus,
    pub idle_off: IdleOffStatus,
}

/// What a user controls of an AC unit: power, mode, fan speed and setpoint.
#[verifier::ext_equal]
pub struct AcControls {
    pub power: Option<Seq<char>>,
    pub mode: Option<Seq<char>>,
    pub fan_speed: Option<(Seq<char>, bool)>,
    pub setpoint: Option<Temperature>,
}

/// What a user controls of a zone: power, control mode, setpoint and airflow.
#[verifier::ext_equal]
pub struct ZoneControls {
    pub power: ZonePowerView,
    pub control_mode: ControlModeView,
    pub setpoint: Option<Temperature>,
    pub airflow_pct: u8,
}

/// The controls of an AC unit, none before its first status.
pub open spec fn ac_controls(ac: AcModel) -> Option<AcControls> {
    match ac.status {
        Some(s) => Some(
            AcControls {
                power: s.power,
                mode: s.mode,
                fan_speed: s.fan_speed,
                setpoint: s.setpoint,
            },
        ),
        None => None,
    }
}

/// The controls of a zone.
pub open spec fn zone_controls(zone: ZoneModel) -> ZoneControls {
    ZoneControls {
        power: zone.power,
        control_mode: zone.control_mode,
        setpoint: zone.setpoint,
        airflow_pct: zone.airflow_pct,
    }
}

/// The controls of the AC unit with an id, as far as there is one.
pub open spec fn ac_control_at(snap: SnapshotModel, id: u8) -> Option<Option<AcControls>> {
    if snap.acs.contains_key(id) {
        Some(ac_controls(snap.acs[id]))
    } else {
        None
    }
}

/// The controls of the zone with an id, as far as there is one.
pub open spec fn zone_control_at(snap: SnapshotModel, id: u8) -> Option<ZoneControls> {
    if snap.zones.contains_key(id) {
        Some(zone_controls(snap.zones[id]))
    } else {
        None
    }
}

/// Whether two snapshots agree on everything that a user controls.
pub open spec fn same_controls(a: SnapshotModel, b: SnapshotModel) -> bool {
    forall|id: u8|
        #![trigger ac_control_at(a, id)]
        #![trigger zone_control_at(a, id)]
        ac_control_at(a, id) == ac_control_at(b, id) && zone_control_at(a, id) == zone_control_at(
            b,
            id,
        )
}

/// Whether two AC units agree on what a user controls.
fn same_ac_controls(a: &AcView, b: &AcView) -> (r: bool)
    ensures
        r == (ac_controls(a@) == ac_controls(b@)),
{
    match (&a.status, &b.status) {
        (Some(s), Some(t)) => {
            let fan = match (s.fan_speed, t.fan_speed) {
                (Some(x), Some(y)) => text::same(x.0, y.0) && x.1 == y.1,
                (None, None) => true,
                _ => false,
            };
            text::same_opt(s.power, t.power) && text::same_opt(s.mode, t.mode) && fan && s.setpoint
                == t.setpoint
        },
        (None, None) => true,
        _ => false,
    }
}

/// Whether two zones agree on what a user controls.
fn same_zone_controls(a: &ZoneView, b: &ZoneView) -> (r: bool)
    ensures
        r == (zone_controls(a@) == zone_controls(b@)),
{
    a.power == b.power && a.control_mode == b.control_mode && a.setpoint == b.setpoint
        && a.airflow_pct == b.airflow_pct
}

/// Whether something that a user controls differs between two snapshots. Such a
/// change starts the idle countdown anew; a drifting sensor does not.
pub fn control_changed(prev: &Snapshot, new: &Snapshot) -> (r: bool)
    ensures
        r == !same_controls(prev@, new@),
{
    for n in 0..256u16
        invariant
            forall|id: u8|
                id < n ==> #[trigger] ac_control_at(prev@, id) == ac_control_at(new@, id),
            forall|id: u8|
                id < n ==> #[trigger] zone_control_at(prev@, id) == zone_control_at(new@, id),
    {
        let id: u8 = n as u8;
        let acs = match (prev.ac(id), new.ac(id)) {
            (Some(a), Some(b)) => same_ac_controls(a, b),
            (None, None) => true,
            _ => false,
        };
        let zones = match (prev.zone(id), new.zone(id)) {
            (Some(a), Some(b)) => same_zone_controls(a, b),
            (None, None) => true,
            _ => false,
        };
        assert(acs == (ac_control_at(prev@, id) == ac_control_at(new@, id)));
        assert(zones == (zone_control_at(prev@, id) == zone_control_at(new@, id)));
        if !acs || !zones {
            return true;
        }
    }
    false
}

} // verus!
