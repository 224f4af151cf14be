//! What holds of the control requests as a whole.

use vstd::prelude::*;
use crate::manager::command::{
    reply_error, sets_power, AcControlReq, AcPower, Command, Reply, ZoneControlReq, ZonePower,
};
use crate::manager::snapshot::{
    ids, lemma_ids, ControlModeView, Snapshot, Temperature, ZonePowerView, ZoneView,
};
use crate::manager::values;
use crate::web::handlers::ac;
use crate::web::handlers::zone;
use crate::web::interaction::{Interaction, Plan};

verus! {

/// Commands go out in the order of the request, each only after all before it were
/// carried out; the first that was not is the last to go out, and a request is
/// answered only where every command was carried out. `states` are the states that a
/// request goes through with these replies, of which only the last may be a refusal.
pub proof fn law_run(states: Seq<Interaction>, replies: Seq<Reply>)
    requires
        states.len() == replies.len() + 1,
        states[0].done == 0,
        forall|k: int|
            0 <= k < replies.len() ==> (#[trigger] states[k]).offered() is Some
                && states[k].replied(replies[k], states[k + 1]),
        forall|k: int|
            0 <= k < replies.len() - 1 ==> reply_error(#[trigger] replies[k]) is None,
    ensures
        replies.len() <= states[0].commands@.len(),
        forall|k: int|
            0 <= k < replies.len() ==> (#[trigger] states[k]).offered() == Some(
                states[0].commands@[k],
            ),
        states.last().offered() is None <==> replies.len() == states[0].commands@.len() && (
        replies.len() > 0 ==> reply_error(replies.last()) is None),
    decreases replies.len(),
{
    if replies.len() > 0 {
        let n = replies.len() - 1;
        let before = states.drop_last();
        assert forall|k: int| 0 <= k < n implies (#[trigger] before[k]).offered() is Some
            && before[k].replied(replies.drop_last()[k], before[k + 1]) by {
            assert(states[k].offered() is Some);
        }
        law_run(before, replies.drop_last());
        assert(states[n].offered() is Some);
        assert(before.last() == states[n]);
        lemma_done(before, replies.drop_last());
        assert forall|k: int| 0 <= k < replies.len() implies (#[trigger] states[k]).offered()
            == Some(states[0].commands@[k]) by {
            if k < n {
                assert(before[k].offered() == Some(before[0].commands@[k]));
            }
        }
        assert(states.last() == states[n + 1]);
    }
}

/// After only commands that were carried out, as many are done as there were replies.
proof fn lemma_done(states: Seq<Interaction>, replies: Seq<Reply>)
    requires
        states.len() == replies.len() + 1,
        states[0].done == 0,
        forall|k: int|
            0 <= k < replies.len() ==> (#[trigger] states[k]).offered() is Some
                && states[k].replied(replies[k], states[k + 1]),
        forall|k: int| 0 <= k < replies.len() ==> reply_error(#[trigger] replies[k]) is None,
    ensures
        states.last().done == replies.len(),
        states.last().commands == states[0].commands,
    decreases replies.len(),
{
    if replies.len() > 0 {
        let n = replies.len() - 1;
        let before = states.drop_last();
        assert forall|k: int| 0 <= k < n implies (#[trigger] before[k]).offered() is Some
            && before[k].replied(replies.drop_last()[k], before[k + 1]) by {
            assert(states[k].offered() is Some);
        }
        lemma_done(before, replies.drop_last());
        assert(before.last() == states[n]);
        assert(states[n].replied(replies[n], states[n + 1]));
    }
}

/// Whether no command of a plan touches a power.
pub open spec fn leaves_power(plan: Plan) -> bool {
    plan matches Ok(commands) ==> forall|i: int|
        0 <= i < commands.len() ==> !sets_power(#[trigger] commands[i])
}

/// Adjusting a zone never wakes it or puts it to sleep: switching its control mode,
/// stepping its value, setting its airflow or its setpoint, alone or with all the
/// others, leaves every power alone.
pub proof fn law_adjusting_leaves_power(
    snap: Snapshot,
    id: u8,
    word: Seq<char>,
    value: Seq<char>,
    read: Option<i16>,
)
    ensures
        leaves_power(zone::control_type_plan(snap, id, word)),
        leaves_power(zone::toggle_plan(snap, id)),
        leaves_power(zone::step_plan(snap, id, word)),
        leaves_power(zone::airflow_plan(id, value)),
        leaves_power(zone::setpoint_plan(snap, id, value, read)),
        leaves_power(zone::set_all_preset_plan(snap, word, value, read)),
        leaves_power(ac::mode_plan(id, word)),
        leaves_power(ac::fan_plan(id, word)),
        leaves_power(ac::setpoint_plan(snap, id, value, read)),
{
}

/// Every setpoint that a request on a zone sends is within the limits.
pub proof fn law_setpoints_in_range(
    snap: Snapshot,
    id: u8,
    word: Seq<char>,
    value: Seq<char>,
    read: Option<i16>,
)
    ensures
        setpoints_in_range(zone::control_type_plan(snap, id, word)),
        setpoints_in_range(zone::toggle_plan(snap, id)),
        setpoints_in_range(zone::step_plan(snap, id, word)),
        setpoints_in_range(zone::setpoint_plan(snap, id, value, read)),
        setpoints_in_range(zone::set_all_preset_plan(snap, word, value, read)),
        setpoints_in_range(ac::setpoint_plan(snap, id, value, read)),
{
}

/// Whether a command's setpoint, if it carries one, is one that a console takes.
pub open spec fn setpoint_ok(command: Command) -> bool {
    match command {
        Command::ControlZone { id, req: ZoneControlReq::SetTemperature(t) } => values::SETPOINT_MIN
            <= t.deci <= values::SETPOINT_MAX,
        Command::ControlAc { id, req: AcControlReq::Setpoint(t) } => values::SETPOINT_MIN <= t.deci
            <= values::SETPOINT_MAX,
        _ => true,
    }
}

/// Whether every setpoint of a plan is one that a console takes.
pub open spec fn setpoints_in_range(plan: Plan) -> bool {
    plan matches Ok(commands) ==> forall|i: int|
        0 <= i < commands.len() ==> setpoint_ok(#[trigger] commands[i])
}

/// A zone with the value that a request sets it to.
pub open spec fn with_value(z: ZoneView, req: ZoneControlReq) -> ZoneView {
    match req {
        ZoneControlReq::SetAirflow(pct) => ZoneView {
            airflow_pct: pct,
            control_mode: ControlModeView::Airflow,
            ..z
        },
        ZoneControlReq::SetTemperature(t) => ZoneView {
            setpoint: Some(t),
            control_mode: ControlModeView::Temperature,
            ..z
        },
        ZoneControlReq::Power(_) => z,
    }
}

/// A step keeps to the control mode and to the limits: it moves the airflow by 5 %
/// within 0 and 100, or the setpoint by one degree within its limits.
pub proof fn law_step(z: ZoneView, up: bool)
    ensures
        if z.control_mode == ControlModeView::Temperature {
            zone::step_req(z, up) matches ZoneControlReq::SetTemperature(t) && t.deci
                == values::spec_clamp_setpoint(zone::zone_deci(z) + if up { 10int } else { -10 })
                && values::SETPOINT_MIN <= t.deci <= values::SETPOINT_MAX
        } else {
            zone::step_req(z, up) matches ZoneControlReq::SetAirflow(pct) && pct
                == zone::clamp_pct(z.airflow_pct + if up { 5int } else { -5 }) && pct <= 100
        },
{
}

/// A step up and a step down undo each other where neither meets a limit.
pub proof fn law_step_back(z: ZoneView, up: bool)
    requires
        z.control_mode == ControlModeView::Temperature || z.control_mode
            == ControlModeView::Airflow,
        z.control_mode == ControlModeView::Temperature ==> z.setpoint is Some
            && values::SETPOINT_MIN <= z.setpoint->0.deci <= values::SETPOINT_MAX
            && values::SETPOINT_MIN <= z.setpoint->0.deci + (if up { 10int } else { -10 })
            <= values::SETPOINT_MAX,
        z.control_mode == ControlModeView::Airflow ==> z.airflow_pct <= 100 && 0 <= z.airflow_pct
            + (if up { 5int } else { -5 }) <= 100,
    ensures
        with_value(
            with_value(z, zone::step_req(z, up)),
            zone::step_req(with_value(z, zone::step_req(z, up)), !up),
        ) == z,
{
}

/// The commands of a request on one zone.
pub open spec fn to_zone(id: u8, req: ZoneControlReq) -> Plan {
    Ok(seq![Command::ControlZone { id, req }])
}

/// Switching the control mode twice brings a zone with a sensor back to the mode it
/// had, with its airflow unchanged. `first` is what the first request sends, and
/// `after` the state that it leads to.
pub proof fn law_toggle_twice(snap: Snapshot, id: u8, first: ZoneControlReq, after: Snapshot)
    requires
        snap.zones@.contains_key(id),
        snap.zones@[id].has_sensor,
        snap.zones@[id].control_mode != ControlModeView::Unknown,
        zone::toggle_plan(snap, id) == to_zone(id, first),
        after.zones@ == snap.zones@.insert(id, with_value(snap.zones@[id], first)),
    ensures
        exists|second: ZoneControlReq|
            #![trigger to_zone(id, second)]
            zone::toggle_plan(after, id) == to_zone(id, second) && with_value(
                after.zones@[id],
                second,
            ).control_mode == snap.zones@[id].control_mode && with_value(
                after.zones@[id],
                second,
            ).airflow_pct == snap.zones@[id].airflow_pct,
{
    reveal_strlit("airflow");
    reveal_strlit("temperature");
    assert("airflow"@[0] != "temperature"@[0]);
    assert(to_zone(id, first)->Ok_0[0] == Command::ControlZone { id, req: first });
    let z = after.zones@[id];
    let second = if z.control_mode == ControlModeView::Temperature {
        ZoneControlReq::SetAirflow(z.airflow_pct)
    } else {
        ZoneControlReq::SetTemperature(
            Temperature { deci: values::spec_clamp_setpoint(zone::zone_deci(z)) as i16 },
        )
    };
    assert(zone::toggle_plan(after, id) == to_zone(id, second));
}

/// No zone without a sensor comes under temperature control: neither by switching its
/// control mode nor by setting its setpoint.
pub proof fn law_temperature_needs_sensor(
    snap: Snapshot,
    id: u8,
    word: Seq<char>,
    read: Option<i16>,
    t: Temperature,
)
    requires
        snap.zones@.contains_key(id),
        zone::control_type_plan(snap, id, word) == to_zone(id, ZoneControlReq::SetTemperature(t))
            || zone::toggle_plan(snap, id) == to_zone(id, ZoneControlReq::SetTemperature(t))
            || zone::setpoint_plan(snap, id, word, read) == to_zone(
            id,
            ZoneControlReq::SetTemperature(t),
        ),
    ensures
        snap.zones@[id].has_sensor,
{
    let sent = to_zone(id, ZoneControlReq::SetTemperature(t))->Ok_0;
    assert(sent[0] == Command::ControlZone { id, req: ZoneControlReq::SetTemperature(t) });
    let pct = snap.zones@[id].airflow_pct;
    let other = to_zone(id, ZoneControlReq::SetAirflow(pct))->Ok_0;
    assert(other[0] == Command::ControlZone { id, req: ZoneControlReq::SetAirflow(pct) });
}

/// A unit is sent only a setpoint that it takes: one within its range for cooling or
/// within that for heating.
pub proof fn law_ac_setpoint_in_range(
    snap: Snapshot,
    id: u8,
    value: Seq<char>,
    read: Option<i16>,
    t: Temperature,
)
    requires
        snap.acs@.contains_key(id),
        ac::setpoint_plan(snap, id, value, read) == Ok::<Seq<Command>, Seq<char>>(
            seq![Command::ControlAc { id, req: AcControlReq::Setpoint(t) }],
        ),
    ensures
        ac::takes_setpoint(snap.acs@[id], t),
{
    let sent = seq![Command::ControlAc { id, req: AcControlReq::Setpoint(t) }];
    assert(sent[0] == ac::setpoint_plan(snap, id, value, read)->Ok_0[0]);
}

/// Turning all zones on or off reaches exactly the zones that are not yet so: each of
/// them gets one command, in ascending order of the ids, and a zone on turbo is not
/// touched when all are turned on.
pub proof fn law_set_all_power(snap: Snapshot, word: Seq<char>)
    requires
        zone::bulk_power(word) is Some,
    ensures
        ({
            let power = zone::bulk_power(word)->0;
            let off = power == ZonePower::Off;
            let touched = ids(snap.zones@.dom()).filter(
                |id: u8| (snap.zones@[id].power == ZonePowerView::Off) != off,
            );
            &&& zone::set_all_power_plan(snap, word) == Ok::<Seq<Command>, Seq<char>>(
                touched.map_values(
                    |id: u8| Command::ControlZone { id, req: ZoneControlReq::Power(power) },
                ),
            )
            &&& forall|id: u8|
                #![trigger snap.zones@.contains_key(id)]
                touched.contains(id) <==> snap.zones@.contains_key(id) && (
                snap.zones@[id].power == ZonePowerView::Off) != off
            &&& forall|i: int, j: int| 0 <= i < j < touched.len() ==> touched[i] < touched[j]
        }),
{
    let power = zone::bulk_power(word)->0;
    let off = power == ZonePower::Off;
    let list = ids(snap.zones@.dom());
    let wanted = |id: u8| (snap.zones@[id].power == ZonePowerView::Off) != off;
    lemma_ids(snap.zones@.dom());
    assert((|id: u8| !zone::already(snap.zones@[id], power)) =~= wanted);
    lemma_filtered_ids(list, wanted);
    assert forall|id: u8|
        #![trigger snap.zones@.contains_key(id)]
        list.filter(wanted).contains(id) <==> snap.zones@.contains_key(id) && wanted(id) by {
        assert(snap.zones@.dom().contains(id) == snap.zones@.contains_key(id));
        if list.contains(id) {
            let k = choose|k: int| 0 <= k < list.len() && list[k] == id;
            assert(snap.zones@.dom().contains(list[k]));
        }
    }
}

/// What is kept of an ascending list is ascending, and is exactly what was wanted.
proof fn lemma_filtered_ids(list: Seq<u8>, wanted: spec_fn(u8) -> bool)
    requires
        forall|i: int, j: int| 0 <= i < j < list.len() ==> list[i] < list[j],
    ensures
        forall|id: u8| #[trigger]
            list.filter(wanted).contains(id) <==> list.contains(id) && wanted(id),
        forall|i: int, j: int|
            0 <= i < j < list.filter(wanted).len() ==> list.filter(wanted)[i] < list.filter(
                wanted,
            )[j],
    decreases list.len(),
{
    reveal(Seq::filter);
    let kept = list.filter(wanted);
    if list.len() > 0 {
        let short = list.drop_last();
        let before = short.filter(wanted);
        lemma_filtered_ids(short, wanted);
        assert forall|id: u8| list.contains(id) <==> short.contains(id) || id == list.last() by {
            if list.contains(id) {
                let k = choose|k: int| 0 <= k < list.len() && list[k] == id;
                if k < short.len() {
                    assert(short[k] == id);
                }
            }
            if short.contains(id) {
                let k = choose|k: int| 0 <= k < short.len() && short[k] == id;
                assert(list[k] == id);
            }
            assert(list[list.len() - 1] == list.last());
        }
        if wanted(list.last()) {
            assert(kept == before.push(list.last()));
            assert forall|id: u8| #[trigger] kept.contains(id) <==> before.contains(id) || id
                == list.last() by {
                if kept.contains(id) {
                    let k = choose|k: int| 0 <= k < kept.len() && kept[k] == id;
                    if k < before.len() {
                        assert(before[k] == id);
                    }
                }
                if before.contains(id) {
                    let k = choose|k: int| 0 <= k < before.len() && before[k] == id;
                    assert(kept[k] == id);
                }
                assert(kept[before.len() as int] == list.last());
            }
            assert forall|i: int| 0 <= i < before.len() implies before[i] < list.last() by {
                assert(before.contains(before[i]));
                assert(short.contains(before[i]));
                let k = choose|k: int| 0 <= k < short.len() && short[k] == before[i];
                assert(list[k] < list[list.len() - 1]);
            }
        } else {
            assert(kept == before);
            assert forall|id: u8| #[trigger] kept.contains(id) <==> list.contains(id) && wanted(
                id,
            ) by {
                assert(before.contains(id) <==> short.contains(id) && wanted(id));
            }
        }
    }
}

/// Setting all zones to a temperature reaches exactly the zones with a sensor, each
/// once, in ascending order of the ids; setting all to an airflow reaches every zone.
pub proof fn law_set_all_preset(snap: Snapshot, t: Temperature, pct: u8)
    ensures
        ({
            let all = ids(snap.zones@.dom());
            let touched = all.filter(|id: u8| snap.zones@[id].has_sensor);
            &&& zone::all_temperature(snap.zones@, all, t) == touched.map_values(
                |id: u8| Command::ControlZone { id, req: ZoneControlReq::SetTemperature(t) },
            )
            &&& forall|id: u8|
                #![trigger snap.zones@.contains_key(id)]
                touched.contains(id) <==> snap.zones@.contains_key(id) && snap.zones@[id].has_sensor
            &&& zone::all_airflow(all, pct) == all.map_values(
                |id: u8| Command::ControlZone { id, req: ZoneControlReq::SetAirflow(pct) },
            )
            &&& forall|id: u8|
                #![trigger snap.zones@.contains_key(id)]
                all.contains(id) <==> snap.zones@.contains_key(id)
        }),
{
    let all = ids(snap.zones@.dom());
    let wanted = |id: u8| snap.zones@[id].has_sensor;
    lemma_ids(snap.zones@.dom());
    lemma_filtered_ids(all, wanted);
    assert(zone::all_airflow(all, pct) =~= all.map_values(
        |id: u8| Command::ControlZone { id, req: ZoneControlReq::SetAirflow(pct) },
    ));
    assert forall|id: u8|
        #![trigger snap.zones@.contains_key(id)]
        all.contains(id) <==> snap.zones@.contains_key(id) by {
        assert(snap.zones@.dom().contains(id) == snap.zones@.contains_key(id));
        if all.contains(id) {
            let k = choose|k: int| 0 <= k < all.len() && all[k] == id;
            assert(snap.zones@.dom().contains(all[k]));
        }
    }
}

/// A request never starts an AC unit whose zones are all off: a command that starts
/// a unit is sent only where one of its zones is open.
pub proof fn law_start_guard(snap: Snapshot, id: u8, word: Seq<char>, power: AcPower)
    requires
        snap.acs@.contains_key(id),
        ac::power_plan(snap, id, word) == Ok::<Seq<Command>, Seq<char>>(
            seq![Command::ControlAc { id, req: AcControlReq::Power(power) }],
        ),
        ac::starts(snap, id, power),
    ensures
        exists|z: u8| snap.open_zone(id, z),
{
    let sent = seq![Command::ControlAc { id, req: AcControlReq::Power(power) }];
    assert(sent[0] == ac::power_plan(snap, id, word)->Ok_0[0]);
}

} // verus!
