//! What it means that two snapshots hold the same, field by field.

use vstd::prelude::*;
use crate::automation::{
    ac_control_at, control_changed, same_controls, zone_control_at, IdleOffStatus,
    SetpointOffStatus,
};
use crate::manager::snapshot::{
    lemma_same_entries, same_entry, AcStatusView, AcView, ConsoleInfo, Snapshot, ZoneView,
};
use crate::text;

verus! {

/// Whether two optional texts read alike.
pub open spec fn slug_alike(a: Option<&'static str>, b: Option<&'static str>) -> bool {
    match (a, b) {
        (Some(x), Some(y)) => x@ == y@,
        (None, None) => true,
        _ => false,
    }
}

/// Whether two lists of slugs read alike, place by place.
pub open spec fn slugs_alike(a: Seq<&'static str>, b: Seq<&'static str>) -> bool {
    a.len() == b.len() && forall|i: int| 0 <= i < a.len() ==> (#[trigger] a[i])@ == b[i]@
}

/// Whether two lists of texts read alike, place by place.
pub open spec fn texts_alike(a: Seq<String>, b: Seq<String>) -> bool {
    a.len() == b.len() && forall|i: int| 0 <= i < a.len() ==> (#[trigger] a[i])@ == b[i]@
}

/// Whether two fan speeds are alike.
pub open spec fn fan_alike(
    a: Option<(&'static str, bool)>,
    b: Option<(&'static str, bool)>,
) -> bool {
    match (a, b) {
        (Some(x), Some(y)) => x.0@ == y.0@ && x.1 == y.1,
        (None, None) => true,
        _ => false,
    }
}

/// Whether two consoles agree in every field.
pub open spec fn console_alike(a: ConsoleInfo, b: ConsoleInfo) -> bool {
    &&& a.name@ == b.name@
    &&& a.address@ == b.address@
    &&& a.airtouch_id == b.airtouch_id
    &&& a.console_id@ == b.console_id@
    &&& texts_alike(a.versions@, b.versions@)
    &&& a.update_available == b.update_available
}

/// Whether two statuses of AC units agree in every field.
pub open spec fn status_alike(a: AcStatusView, b: AcStatusView) -> bool {
    &&& slug_alike(a.power, b.power)
    &&& slug_alike(a.mode, b.mode)
    &&& fan_alike(a.fan_speed, b.fan_speed)
    &&& a.setpoint == b.setpoint
    &&& a.temperature == b.temperature
    &&& slugs_alike(a.flags@, b.flags@)
    &&& a.error == b.error
}

/// Whether two AC units agree in every field.
pub open spec fn ac_alike(a: AcView, b: AcView) -> bool {
    &&& a.id == b.id
    &&& a.name@ == b.name@
    &&& a.zone_start_index == b.zone_start_index
    &&& a.zone_count == b.zone_count
    &&& slugs_alike(a.supported_modes@, b.supported_modes@)
    &&& slugs_alike(a.supported_fan_speeds@, b.supported_fan_speeds@)
    &&& a.setpoint_cool == b.setpoint_cool
    &&& a.setpoint_heat == b.setpoint_heat
    &&& match (a.status, b.status) {
        (Some(s), Some(t)) => status_alike(s, t),
        (None, None) => true,
        _ => false,
    }
}

/// Whether two zones agree in every field.
pub open spec fn zone_alike(a: ZoneView, b: ZoneView) -> bool {
    &&& a.id == b.id
    &&& a.name@ == b.name@
    &&& a.ac_id == b.ac_id
    &&& slug_alike(a.ac_mode_slug, b.ac_mode_slug)
    &&& a.power == b.power
    &&& a.has_sensor == b.has_sensor
    &&& a.control_mode == b.control_mode
    &&& a.airflow_pct == b.airflow_pct
    &&& a.setpoint == b.setpoint
    &&& a.sensor == b.sensor
    &&& slugs_alike(a.flags@, b.flags@)
}

/// Whether two snapshots agree in every field, unit by unit and zone by zone.
pub open spec fn snapshot_alike(a: Snapshot, b: Snapshot) -> bool {
    &&& a.connected == b.connected
    &&& console_alike(a.console, b.console)
    &&& a.bulk_mode == b.bulk_mode
    &&& forall|id: u8| #[trigger] ac_at_alike(a, b, id)
    &&& forall|id: u8| #[trigger] zone_at_alike(a, b, id)
}

/// Whether two snapshots hold alike AC units under an id, or none.
pub open spec fn ac_at_alike(a: Snapshot, b: Snapshot, id: u8) -> bool {
    a.acs@.contains_key(id) == b.acs@.contains_key(id) && (a.acs@.contains_key(id) ==> ac_alike(
        a.acs@[id],
        b.acs@[id],
    ))
}

/// Whether two snapshots hold alike zones under an id, or none.
pub open spec fn zone_at_alike(a: Snapshot, b: Snapshot, id: u8) -> bool {
    a.zones@.contains_key(id) == b.zones@.contains_key(id) && (a.zones@.contains_key(id)
        ==> zone_alike(a.zones@[id], b.zones@[id]))
}

/// Lists of slugs hold the same exactly where they read alike.
proof fn lemma_slugs(a: Seq<&'static str>, b: Seq<&'static str>)
    ensures
        text::slugs(a) == text::slugs(b) <==> slugs_alike(a, b),
{
    if text::slugs(a) == text::slugs(b) {
        assert(text::slugs(a).len() == text::slugs(b).len());
        assert forall|i: int| 0 <= i < a.len() implies (#[trigger] a[i])@ == b[i]@ by {
            assert(text::slugs(a)[i] == text::slugs(b)[i]);
        }
    }
    if slugs_alike(a, b) {
        assert(text::slugs(a) =~= text::slugs(b));
    }
}

/// Lists of texts hold the same exactly where they read alike.
pub proof fn lemma_texts(a: Seq<String>, b: Seq<String>)
    ensures
        text::texts(a) == text::texts(b) <==> texts_alike(a, b),
{
    if text::texts(a) == text::texts(b) {
        assert(text::texts(a).len() == text::texts(b).len());
        assert forall|i: int| 0 <= i < a.len() implies (#[trigger] a[i])@ == b[i]@ by {
            assert(text::texts(a)[i] == text::texts(b)[i]);
        }
    }
    if texts_alike(a, b) {
        assert(text::texts(a) =~= text::texts(b));
    }
}

/// Two consoles hold the same exactly where every field agrees.
pub proof fn law_console_fields(a: ConsoleInfo, b: ConsoleInfo)
    ensures
        a@ == b@ <==> console_alike(a, b),
{
    lemma_texts(a.versions@, b.versions@);
}

/// Two statuses hold the same exactly where every field agrees.
pub proof fn law_status_fields(a: AcStatusView, b: AcStatusView)
    ensures
        a@ == b@ <==> status_alike(a, b),
{
    lemma_slugs(a.flags@, b.flags@);
}

/// Two AC units hold the same exactly where every field agrees.
pub proof fn law_ac_fields(a: AcView, b: AcView)
    ensures
        a@ == b@ <==> ac_alike(a, b),
{
    lemma_slugs(a.supported_modes@, b.supported_modes@);
    lemma_slugs(a.supported_fan_speeds@, b.supported_fan_speeds@);
    if a.status is Some && b.status is Some {
        law_status_fields(a.status->0, b.status->0);
    }
}

/// Two zones hold the same exactly where every field agrees, what the sensor reads
/// among them.
pub proof fn law_zone_fields(a: ZoneView, b: ZoneView)
    ensures
        a@ == b@ <==> zone_alike(a, b),
{
    lemma_slugs(a.flags@, b.flags@);
}

/// Two snapshots hold the same under an id exactly where every field of what they hold
/// there agrees.
pub proof fn law_entry_fields(a: Snapshot, b: Snapshot, id: u8)
    ensures
        same_entry(a@.acs, b@.acs, id) <==> ac_at_alike(a, b, id),
        same_entry(a@.zones, b@.zones, id) <==> zone_at_alike(a, b, id),
{
    law_ac_fields(a.acs@[id], b.acs@[id]);
    law_zone_fields(a.zones@[id], b.zones@[id]);
}

/// Two snapshots hold the same exactly where every field of them, of their AC units and
/// of their zones agrees.
pub proof fn law_snapshot_fields(a: Snapshot, b: Snapshot)
    ensures
        a@ == b@ <==> snapshot_alike(a, b),
{
    law_console_fields(a.console, b.console);
    if a@ == b@ {
        assert forall|id: u8| #[trigger] ac_at_alike(a, b, id) by {
            law_entry_fields(a, b, id);
        }
        assert forall|id: u8| #[trigger] zone_at_alike(a, b, id) by {
            law_entry_fields(a, b, id);
        }
    }
    if snapshot_alike(a, b) {
        assert forall|id: u8| same_entry(a@.acs, b@.acs, id) by {
            assert(ac_at_alike(a, b, id));
            law_entry_fields(a, b, id);
        }
        assert forall|id: u8| same_entry(a@.zones, b@.zones, id) by {
            assert(zone_at_alike(a, b, id));
            law_entry_fields(a, b, id);
        }
        lemma_same_entries(a@.acs, b@.acs);
        lemma_same_entries(a@.zones, b@.zones);
    }
}

/// Asked whether two of a kind hold the same, the answer goes by every field.
pub proof fn law_same(
    consoles: (ConsoleInfo, ConsoleInfo),
    acs: (AcView, AcView),
    zones: (ZoneView, ZoneView),
    snapshots: (Snapshot, Snapshot),
    r: bool,
)
    ensures
        call_ensures(ConsoleInfo::same, (&consoles.0, &consoles.1), r) ==> r == console_alike(
            consoles.0,
            consoles.1,
        ),
        call_ensures(AcView::same, (&acs.0, &acs.1), r) ==> r == ac_alike(acs.0, acs.1),
        call_ensures(ZoneView::same, (&zones.0, &zones.1), r) ==> r == zone_alike(
            zones.0,
            zones.1,
        ),
        call_ensures(Snapshot::same, (&snapshots.0, &snapshots.1), r) ==> r == snapshot_alike(
            snapshots.0,
            snapshots.1,
        ),
{
    law_console_fields(consoles.0, consoles.1);
    law_ac_fields(acs.0, acs.1);
    law_zone_fields(zones.0, zones.1);
    law_snapshot_fields(snapshots.0, snapshots.1);
}

/// Two badges hold the same exactly where both are blank or both show the same text.
pub proof fn law_badges(
    setpoints: (SetpointOffStatus, SetpointOffStatus),
    idles: (IdleOffStatus, IdleOffStatus),
)
    ensures
        setpoints.0@ == setpoints.1@ <==> badge_alike(setpoints.0.badge, setpoints.1.badge),
        idles.0@ == idles.1@ <==> badge_alike(idles.0.badge, idles.1.badge),
{
}

/// Whether two badges show alike.
pub open spec fn badge_alike(a: Option<String>, b: Option<String>) -> bool {
    match (a, b) {
        (Some(x), Some(y)) => x@ == y@,
        (None, None) => true,
        _ => false,
    }
}

/// Whether two AC units agree in what a user sets: power, mode, fan speed and setpoint.
pub open spec fn ac_set_alike(a: AcView, b: AcView) -> bool {
    match (a.status, b.status) {
        (Some(s), Some(t)) => {
            &&& slug_alike(s.power, t.power)
            &&& slug_alike(s.mode, t.mode)
            &&& fan_alike(s.fan_speed, t.fan_speed)
            &&& s.setpoint == t.setpoint
        },
        (None, None) => true,
        _ => false,
    }
}

/// Whether two zones agree in what a user sets: power, control mode, setpoint and
/// airflow.
pub open spec fn zone_set_alike(a: ZoneView, b: ZoneView) -> bool {
    &&& a.power == b.power
    &&& a.control_mode == b.control_mode
    &&& a.setpoint == b.setpoint
    &&& a.airflow_pct == b.airflow_pct
}

/// Whether two snapshots agree, under an id, in what a user sets.
pub open spec fn set_alike_at(a: Snapshot, b: Snapshot, id: u8) -> bool {
    &&& a.acs@.contains_key(id) == b.acs@.contains_key(id)
    &&& a.acs@.contains_key(id) ==> ac_set_alike(a.acs@[id], b.acs@[id])
    &&& a.zones@.contains_key(id) == b.zones@.contains_key(id)
    &&& a.zones@.contains_key(id) ==> zone_set_alike(a.zones@[id], b.zones@[id])
}

/// Whether two snapshots agree, under every id, in what a user sets.
pub open spec fn sets_alike(a: Snapshot, b: Snapshot) -> bool {
    forall|id: u8| #[trigger] set_alike_at(a, b, id)
}

/// Two snapshots agree in the controls exactly where they agree, under every id, in what
/// a user sets.
pub proof fn law_controls(a: Snapshot, b: Snapshot)
    ensures
        same_controls(a@, b@) <==> sets_alike(a, b),
{
    assert forall|id: u8|
        set_alike_at(a, b, id) <==> (#[trigger] ac_control_at(a@, id) == ac_control_at(b@, id)
            && zone_control_at(a@, id) == zone_control_at(b@, id)) by {}
    if same_controls(a@, b@) {
        assert forall|id: u8| #[trigger] set_alike_at(a, b, id) by {
            assert(ac_control_at(a@, id) == ac_control_at(b@, id));
        }
    }
    if sets_alike(a, b) {
        assert forall|id: u8|
            ac_control_at(a@, id) == ac_control_at(b@, id) && zone_control_at(a@, id)
                == zone_control_at(b@, id) by {
            assert(set_alike_at(a, b, id));
        }
    }
}

/// A control counts as changed exactly where some id shows a difference in what a user
/// sets. What a sensor reads, what a unit measures and what anything is named do not
/// count.
pub proof fn law_control_changed(prev: Snapshot, new: Snapshot, r: bool)
    requires
        call_ensures(control_changed, (&prev, &new), r),
    ensures
        r <==> !sets_alike(prev, new),
{
    law_controls(prev, new);
}

} // verus!
