//! Requests that control zones.

use vstd::prelude::*;
use crate::manager::command::{Command, ZoneControlReq, ZonePower};
use crate::manager::snapshot::{
    ids, lemma_ids, BulkModeView, ControlModeView, Snapshot, Temperature, ZonePowerView, ZoneView,
};
use crate::manager::values;
use crate::templates::Fragment;
use crate::text;
use crate::web::error::{missing, missing_text, unknown, unknown_text, AppError};
use crate::web::form::{field, spec_field};
use crate::web::interaction::{answered, meets, render_answer, Answer, Interaction, Plan};
use crate::web::state::AppState;

verus! {

/// The request to one zone, on its way.
fn send_zone(id: u8, req: ZoneControlReq) -> (r: Result<Interaction, AppError>)
    ensures
        meets(r, Ok(seq![Command::ControlZone { id, req }]), Answer::Zone(id)),
{
    let mut commands: Vec<Command> = Vec::new();
    commands.push(Command::ControlZone { id, req });
    assert(commands@ =~= seq![Command::ControlZone { id, req }]);
    Ok(Interaction::start(commands, Answer::Zone(id)))
}

/// The power command that a word stands for.
pub open spec fn zone_power(word: Seq<char>) -> Option<ZonePower> {
    if word == "on"@ {
        Some(ZonePower::On)
    } else if word == "off"@ {
        Some(ZonePower::Off)
    } else if word == "turbo"@ {
        Some(ZonePower::Turbo)
    } else if word == "toggle"@ {
        Some(ZonePower::Toggle)
    } else {
        None
    }
}

/// What a request for a zone's power comes to.
pub open spec fn power_plan(id: u8, word: Seq<char>) -> Plan {
    match zone_power(word) {
        Some(power) => Ok(
            seq![Command::ControlZone { id, req: ZoneControlReq::Power(power) }],
        ),
        None => Err(unknown_text("power"@, word)),
    }
}

/// `POST /zone/:id/power`, form field `power = on | off | turbo | toggle`.
pub fn power(id: u8, form: &Vec<(String, String)>) -> (r: Result<Interaction, AppError>)
    ensures
        meets(r, power_plan(id, spec_field(form@, "power"@)), Answer::Zone(id)),
{
    let p = field(form, "power");
    let word = p.as_str();
    let power = if text::same(word, "on") {
        ZonePower::On
    } else if text::same(word, "off") {
        ZonePower::Off
    } else if text::same(word, "turbo") {
        ZonePower::Turbo
    } else if text::same(word, "toggle") {
        ZonePower::Toggle
    } else {
        return Err(unknown("power", word));
    };
    send_zone(id, ZoneControlReq::Power(power))
}

/// The setpoint of a zone, or the neutral one where it has none, in tenths of a
/// degree.
pub open spec fn zone_deci(zone: ZoneView) -> int {
    match zone.setpoint {
        Some(t) => t.deci as int,
        None => values::SETPOINT_DEFAULT as int,
    }
}

/// The setpoint of a zone, or the neutral one where it has none.
fn zone_setpoint(zone: &ZoneView) -> (r: Temperature)
    ensures
        r.deci == zone_deci(*zone),
{
    match zone.setpoint {
        Some(t) => t,
        None => Temperature { deci: values::SETPOINT_DEFAULT },
    }
}

/// What a request for a zone's control mode comes to. The mode is switched by an
/// absolute value in the target mode, which leaves the power alone.
pub open spec fn control_type_plan(snap: Snapshot, id: u8, word: Seq<char>) -> Plan {
    if !snap.zones@.contains_key(id) {
        Err(missing_text("zone"@, id))
    } else {
        let zone = snap.zones@[id];
        if word == "airflow"@ {
            Ok(
                seq![
                    Command::ControlZone { id, req: ZoneControlReq::SetAirflow(zone.airflow_pct) },
                ],
            )
        } else if word == "temperature"@ {
            if !zone.has_sensor {
                Err("zone has no sensor; cannot temperature-control"@)
            } else {
                let deci = values::spec_clamp_setpoint(zone_deci(zone)) as i16;
                Ok(
                    seq![
                        Command::ControlZone {
                            id,
                            req: ZoneControlReq::SetTemperature(Temperature { deci }),
                        },
                    ],
                )
            }
        } else {
            Err(unknown_text("control type"@, word))
        }
    }
}

/// Switches a zone to the control mode that a word stands for.
fn switch_control_type(snap: &Snapshot, id: u8, word: &str) -> (r: Result<Interaction, AppError>)
    ensures
        meets(r, control_type_plan(*snap, id, word@), Answer::Zone(id)),
{
    let zone = match snap.zone(id) {
        Some(zone) => zone,
        None => return Err(missing("zone", id)),
    };
    let req = if text::same(word, "airflow") {
        ZoneControlReq::SetAirflow(zone.airflow_pct)
    } else if text::same(word, "temperature") {
        if !zone.has_sensor {
            return Err(AppError::msg("zone has no sensor; cannot temperature-control"));
        }
        ZoneControlReq::SetTemperature(values::clamp_setpoint(zone_setpoint(zone)))
    } else {
        return Err(unknown("control type", word));
    };
    send_zone(id, req)
}

/// `POST /zone/:id/control-type`, form field `type = airflow | temperature`.
/// Temperature control is refused for a zone without a sensor.
pub fn control_type(state: &AppState, id: u8, form: &Vec<(String, String)>) -> (r: Result<
    Interaction,
    AppError,
>)
    ensures
        meets(
            r,
            control_type_plan(state.snap(), id, spec_field(form@, "type"@)),
            Answer::Zone(id),
        ),
{
    let t = field(form, "type");
    switch_control_type(state.snapshot(), id, t.as_str())
}

/// What a request to switch a zone's control mode comes to.
pub open spec fn toggle_plan(snap: Snapshot, id: u8) -> Plan {
    if snap.zones@.contains_key(id) && snap.zones@[id].control_mode
        == ControlModeView::Temperature {
        control_type_plan(snap, id, "airflow"@)
    } else {
        control_type_plan(snap, id, "temperature"@)
    }
}

/// `POST /zone/:id/control-type/toggle`: airflow control to temperature control,
/// or back.
pub fn toggle_control_type(state: &AppState, id: u8) -> (r: Result<Interaction, AppError>)
    ensures
        meets(r, toggle_plan(state.snap(), id), Answer::Zone(id)),
{
    let snap = state.snapshot();
    let temp = match snap.zone(id) {
        Some(zone) => zone.is_temp(),
        None => return Err(missing("zone", id)),
    };
    if temp {
        switch_control_type(snap, id, "airflow")
    } else {
        switch_control_type(snap, id, "temperature")
    }
}

/// A percentage, at most 100 and at least 0.
pub open spec fn clamp_pct(pct: int) -> int {
    if pct < 0 {
        0
    } else if pct > 100 {
        100
    } else {
        pct
    }
}

/// What a zone is set to by one step up or down in its control mode.
pub open spec fn step_req(zone: ZoneView, up: bool) -> ZoneControlReq {
    if zone.control_mode == ControlModeView::Temperature {
        let deci = values::spec_clamp_setpoint(
            zone_deci(zone) + if up {
                10int
            } else {
                -10int
            },
        ) as i16;
        ZoneControlReq::SetTemperature(Temperature { deci })
    } else {
        ZoneControlReq::SetAirflow(
            clamp_pct(
                zone.airflow_pct + if up {
                    5int
                } else {
                    -5int
                },
            ) as u8,
        )
    }
}

/// The direction that a word stands for: whether it is up.
pub open spec fn step_dir(word: Seq<char>) -> Option<bool> {
    if word == "up"@ {
        Some(true)
    } else if word == "down"@ {
        Some(false)
    } else {
        None
    }
}

/// What a request to step a zone comes to.
pub open spec fn step_plan(snap: Snapshot, id: u8, word: Seq<char>) -> Plan {
    match step_dir(word) {
        None => Err(unknown_text("dir"@, word)),
        Some(up) => if snap.zones@.contains_key(id) {
            Ok(seq![Command::ControlZone { id, req: step_req(snap.zones@[id], up) }])
        } else {
            Err(missing_text("zone"@, id))
        },
    }
}

/// `POST /zone/:id/step`, form field `dir = up | down`: 5 % of airflow or one
/// degree, within the limits. The target goes out as an absolute value, which
/// leaves the power alone.
pub fn step(state: &AppState, id: u8, form: &Vec<(String, String)>) -> (r: Result<
    Interaction,
    AppError,
>)
    ensures
        meets(r, step_plan(state.snap(), id, spec_field(form@, "dir"@)), Answer::Zone(id)),
{
    let dir = field(form, "dir");
    let up = if text::same(dir.as_str(), "up") {
        true
    } else if text::same(dir.as_str(), "down") {
        false
    } else {
        return Err(unknown("dir", dir.as_str()));
    };
    let zone = match state.snapshot().zone(id) {
        Some(zone) => zone,
        None => return Err(missing("zone", id)),
    };
    let req = if zone.is_temp() {
        let cur: i32 = zone_setpoint(zone).deci as i32;
        let target: i32 = if up {
            cur + 10
        } else {
            cur - 10
        };
        let deci: i16 = if target < values::SETPOINT_MIN as i32 {
            values::SETPOINT_MIN
        } else if target > values::SETPOINT_MAX as i32 {
            values::SETPOINT_MAX
        } else {
            target as i16
        };
        ZoneControlReq::SetTemperature(Temperature { deci })
    } else {
        let cur: i16 = zone.airflow_pct as i16;
        let target: i16 = if up {
            cur + 5
        } else {
            cur - 5
        };
        let pct: u8 = if target < 0 {
            0
        } else if target > 100 {
            100
        } else {
            target as u8
        };
        ZoneControlReq::SetAirflow(pct)
    };
    send_zone(id, req)
}

/// The percentage that a text stands for, or the message that refuses it.
pub open spec fn airflow_of(value: Seq<char>) -> Result<u8, Seq<char>> {
    match values::spec_number(value) {
        Some(n) => if n <= 100 {
            Ok(n as u8)
        } else {
            Err(values::bad_airflow(value))
        },
        None => Err(values::bad_airflow(value)),
    }
}

/// What a request for a zone's airflow comes to.
pub open spec fn airflow_plan(id: u8, value: Seq<char>) -> Plan {
    match airflow_of(value) {
        Ok(pct) => Ok(seq![Command::ControlZone { id, req: ZoneControlReq::SetAirflow(pct) }]),
        Err(message) => Err(message),
    }
}

/// `POST /zone/:id/airflow`, form field `pct = 0..100`.
pub fn airflow(id: u8, form: &Vec<(String, String)>) -> (r: Result<Interaction, AppError>)
    ensures
        meets(r, airflow_plan(id, spec_field(form@, "pct"@)), Answer::Zone(id)),
{
    let pct = field(form, "pct");
    match values::parse_airflow(pct.as_str()) {
        Ok(pct) => send_zone(id, ZoneControlReq::SetAirflow(pct)),
        Err(e) => Err(e),
    }
}

/// What a request for a zone's setpoint comes to, by what its text reads as. A zone
/// without a sensor cannot be under temperature control; a zone that does not exist
/// is left to the manager to refuse.
pub open spec fn setpoint_plan(snap: Snapshot, id: u8, value: Seq<char>, read: Option<i16>) -> Plan {
    match values::spec_setpoint(read) {
        None => Err(values::bad_setpoint(value)),
        Some(t) => if snap.zones@.contains_key(id) && !snap.zones@[id].has_sensor {
            Err("zone has no sensor; cannot temperature-control"@)
        } else {
            Ok(seq![Command::ControlZone { id, req: ZoneControlReq::SetTemperature(t) }])
        },
    }
}

/// Sets a zone to the temperature that a text was read as.
pub fn setpoint_read(state: &AppState, id: u8, value: &str, read: Option<i16>) -> (r: Result<
    Interaction,
    AppError,
>)
    ensures
        meets(r, setpoint_plan(state.snap(), id, value@, read), Answer::Zone(id)),
{
    match values::accept_setpoint(value, read) {
        Ok(t) => {
            if let Some(zone) = state.snapshot().zone(id) {
                if !zone.has_sensor {
                    return Err(AppError::msg("zone has no sensor; cannot temperature-control"));
                }
            }
            send_zone(id, ZoneControlReq::SetTemperature(t))
        },
        Err(e) => Err(e),
    }
}

/// `POST /zone/:id/setpoint`, form field `temp = 10.0..25.0`. Refused for a zone
/// without a sensor.
pub fn setpoint(state: &AppState, id: u8, form: &Vec<(String, String)>) -> (r: Result<
    Interaction,
    AppError,
>)
    ensures
        meets(
            r,
            setpoint_plan(
                state.snap(),
                id,
                spec_field(form@, "temp"@),
                values::read_deci(spec_field(form@, "temp"@)),
            ),
            Answer::Zone(id),
        ),
        values::spec_tenths(spec_field(form@, "temp"@)) is Some ==> meets(
            r,
            setpoint_plan(
                state.snap(),
                id,
                spec_field(form@, "temp"@),
                values::spec_tenths(spec_field(form@, "temp"@)),
            ),
            Answer::Zone(id),
        ),
        spec_field(form@, "temp"@).len() == 0 ==> r is Err,
{
    let value = field(form, "temp");
    setpoint_read(state, id, value.as_str(), values::read_temperature(value.as_str()))
}

/// The power command for all zones that a word stands for: plain on and plain off.
pub open spec fn bulk_power(word: Seq<char>) -> Option<ZonePower> {
    if word == "on"@ {
        Some(ZonePower::On)
    } else if word == "off"@ {
        Some(ZonePower::Off)
    } else {
        None
    }
}

/// Whether a zone is already what a power command for all zones makes it.
pub open spec fn already(zone: ZoneView, power: ZonePower) -> bool {
    match power {
        ZonePower::On => zone.power != ZonePowerView::Off,
        ZonePower::Off => zone.power == ZonePowerView::Off,
        _ => false,
    }
}

/// One command for each wanted zone of a list, in the order of the list.
pub open spec fn to_each(list: Seq<u8>, wanted: spec_fn(u8) -> bool, req: ZoneControlReq) -> Seq<
    Command,
> {
    list.filter(wanted).map_values(|id: u8| Command::ControlZone { id, req })
}

/// One more zone in a list adds its command where it is wanted.
proof fn lemma_to_each(list: Seq<u8>, wanted: spec_fn(u8) -> bool, req: ZoneControlReq, n: int)
    requires
        0 <= n < list.len(),
    ensures
        to_each(list.take(n + 1), wanted, req) == if wanted(list[n]) {
            to_each(list.take(n), wanted, req).push(Command::ControlZone { id: list[n], req })
        } else {
            to_each(list.take(n), wanted, req)
        },
{
    reveal(Seq::filter);
    let make = |id: u8| Command::ControlZone { id, req };
    assert(list.take(n + 1).drop_last() =~= list.take(n));
    let before = list.take(n).filter(wanted);
    if wanted(list[n]) {
        assert(list.take(n + 1).filter(wanted) == before.push(list[n]));
        assert(before.push(list[n]).map_values(make) =~= before.map_values(make).push(
            make(list[n]),
        ));
    }
}

/// No zone, no command.
proof fn lemma_to_none(list: Seq<u8>, wanted: spec_fn(u8) -> bool, req: ZoneControlReq)
    ensures
        to_each(list.take(0), wanted, req) == Seq::<Command>::empty(),
{
    reveal(Seq::filter);
    assert(to_each(list.take(0), wanted, req) =~= Seq::<Command>::empty());
}

/// The commands that give power to, or take it from, those of some zones that
/// are not yet so.
pub open spec fn all_power(zones: Map<u8, ZoneView>, ids: Seq<u8>, power: ZonePower) -> Seq<
    Command,
> {
    to_each(ids, |id: u8| !already(zones[id], power), ZoneControlReq::Power(power))
}

/// What a request for the power of all zones comes to.
pub open spec fn set_all_power_plan(snap: Snapshot, word: Seq<char>) -> Plan {
    match bulk_power(word) {
        Some(power) => Ok(all_power(snap.zones@, ids(snap.zones@.dom()), power)),
        None => Err(unknown_text("power"@, word)),
    }
}

/// `POST /zones/power`, form field `power = on | off`: turns every zone on or off,
/// in ascending order of their ids. A zone already in the target state is left
/// alone: a second command could reset a turbo timer.
pub fn set_all_power(state: &AppState, form: &Vec<(String, String)>) -> (r: Result<
    Interaction,
    AppError,
>)
    ensures
        meets(
            r,
            set_all_power_plan(state.snap(), spec_field(form@, "power"@)),
            Answer::Zones(None),
        ),
{
    let p = field(form, "power");
    let power = if text::same(p.as_str(), "on") {
        ZonePower::On
    } else if text::same(p.as_str(), "off") {
        ZonePower::Off
    } else {
        return Err(unknown("power", p.as_str()));
    };
    let snap = state.snapshot();
    let ids = snap.zone_ids();
    let mut commands: Vec<Command> = Vec::new();
    let req = ZoneControlReq::Power(power);
    let ghost wanted = |id: u8| !already(snap.zones@[id], power);
    proof {
        lemma_ids(snap.zones@.dom());
        lemma_to_none(ids@, wanted, req);
    }
    for i in 0..ids.len()
        invariant
            forall|k: int| 0 <= k < ids@.len() ==> snap.zones@.contains_key(#[trigger] ids@[k]),
            wanted == (|id: u8| !already(snap.zones@[id], power)),
            req == ZoneControlReq::Power(power),
            commands@ == to_each(ids@.take(i as int), wanted, req),
    {
        let id: u8 = ids[i];
        proof {
            lemma_to_each(ids@, wanted, req, i as int);
        }
        if let Some(zone) = snap.zone(id) {
            let already = match power {
                ZonePower::On => zone.is_on(),
                ZonePower::Off => !zone.is_on(),
                _ => false,
            };
            if !already {
                commands.push(Command::ControlZone { id, req });
            }
        }
    }
    assert(ids@.take(ids@.len() as int) =~= ids@);
    Ok(Interaction::start(commands, Answer::Zones(None)))
}

/// The commands that set each of some zones to an airflow.
pub open spec fn all_airflow(ids: Seq<u8>, pct: u8) -> Seq<Command> {
    Seq::new(
        ids.len(),
        |i: int| Command::ControlZone { id: ids[i], req: ZoneControlReq::SetAirflow(pct) },
    )
}

/// The commands that set those of some zones that have a sensor to a temperature.
pub open spec fn all_temperature(zones: Map<u8, ZoneView>, ids: Seq<u8>, t: Temperature) -> Seq<
    Command,
> {
    to_each(ids, |id: u8| zones[id].has_sensor, ZoneControlReq::SetTemperature(t))
}

/// What a request to set all zones comes to, by what its value reads as where it
/// is a temperature.
pub open spec fn set_all_preset_plan(
    snap: Snapshot,
    mode: Seq<char>,
    value: Seq<char>,
    read: Option<i16>,
) -> Plan {
    let ids = ids(snap.zones@.dom());
    if mode == "airflow"@ {
        match airflow_of(value) {
            Ok(pct) => Ok(all_airflow(ids, pct)),
            Err(message) => Err(message),
        }
    } else if mode == "temperature"@ {
        match values::spec_setpoint(read) {
            Some(t) => Ok(all_temperature(snap.zones@, ids, t)),
            None => Err(values::bad_setpoint(value)),
        }
    } else {
        Err(unknown_text("mode"@, mode))
    }
}

/// What the bar for all zones shows after they were set in a mode: that mode.
pub open spec fn preset_answer(mode: Seq<char>) -> Answer {
    if mode == "airflow"@ {
        Answer::Zones(Some(BulkModeView::Airflow))
    } else {
        Answer::Zones(Some(BulkModeView::Temperature))
    }
}

/// Sets all zones, by what the value was read as where it is a temperature.
pub fn set_all_preset_read(state: &AppState, mode: &str, value: &str, read: Option<i16>) -> (r:
    Result<Interaction, AppError>)
    ensures
        meets(r, set_all_preset_plan(state.snap(), mode@, value@, read), preset_answer(mode@)),
{
    let snap = state.snapshot();
    let ids = snap.zone_ids();
    let mut commands: Vec<Command> = Vec::new();
    if text::same(mode, "airflow") {
        let pct: u8 = match values::parse_airflow(value) {
            Ok(pct) => pct,
            Err(e) => return Err(e),
        };
        for i in 0..ids.len()
            invariant
                commands@ == all_airflow(ids@, pct).take(i as int),
        {
            commands.push(
                Command::ControlZone { id: ids[i], req: ZoneControlReq::SetAirflow(pct) },
            );
            assert(commands@ =~= all_airflow(ids@, pct).take(i + 1));
        }
        assert(commands@ =~= all_airflow(ids@, pct));
        Ok(Interaction::start(commands, Answer::Zones(Some(BulkModeView::Airflow))))
    } else if text::same(mode, "temperature") {
        let t = match values::accept_setpoint(value, read) {
            Ok(t) => t,
            Err(e) => return Err(e),
        };
        let req = ZoneControlReq::SetTemperature(t);
        let ghost wanted = |id: u8| snap.zones@[id].has_sensor;
        proof {
            lemma_ids(snap.zones@.dom());
            lemma_to_none(ids@, wanted, req);
        }
        for i in 0..ids.len()
            invariant
                forall|k: int|
                    0 <= k < ids@.len() ==> snap.zones@.contains_key(#[trigger] ids@[k]),
                wanted == (|id: u8| snap.zones@[id].has_sensor),
                req == ZoneControlReq::SetTemperature(t),
                commands@ == to_each(ids@.take(i as int), wanted, req),
        {
            let id: u8 = ids[i];
            proof {
                lemma_to_each(ids@, wanted, req, i as int);
            }
            if let Some(zone) = snap.zone(id) {
                if zone.has_sensor {
                    commands.push(Command::ControlZone { id, req });
                }
            }
        }
        assert(ids@.take(ids@.len() as int) =~= ids@);
        Ok(Interaction::start(commands, Answer::Zones(Some(BulkModeView::Temperature))))
    } else {
        Err(unknown("mode", mode))
    }
}

/// `POST /zones/preset`, form fields `mode = airflow | temperature` and `value`: sets
/// every zone to a value in a mode, in ascending order of their ids. A temperature
/// goes to the zones with a sensor only.
pub fn set_all_preset(state: &AppState, form: &Vec<(String, String)>) -> (r: Result<
    Interaction,
    AppError,
>)
    ensures
        meets(
            r,
            set_all_preset_plan(
                state.snap(),
                spec_field(form@, "mode"@),
                spec_field(form@, "value"@),
                values::read_deci(spec_field(form@, "value"@)),
            ),
            preset_answer(spec_field(form@, "mode"@)),
        ),
        values::spec_tenths(spec_field(form@, "value"@)) is Some ==> meets(
            r,
            set_all_preset_plan(
                state.snap(),
                spec_field(form@, "mode"@),
                spec_field(form@, "value"@),
                values::spec_tenths(spec_field(form@, "value"@)),
            ),
            preset_answer(spec_field(form@, "mode"@)),
        ),
        spec_field(form@, "value"@).len() == 0 ==> r is Err,
{
    let mode = field(form, "mode");
    let value = field(form, "value");
    let read = values::read_temperature(value.as_str());
    set_all_preset_read(state, mode.as_str(), value.as_str(), read)
}

/// `GET /partials/zone/:id`, and the answer to every request about one zone: the
/// row of the zone as it stands.
pub fn render_current_zone<'a>(state: &'a AppState, id: u8) -> (r: Result<Fragment<'a>, AppError>)
    ensures
        answered(*state, Answer::Zone(id), r),
{
    render_answer(state, Answer::Zone(id))
}

} // verus!
