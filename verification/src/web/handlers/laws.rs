//! What each request on a zone comes to, by what it says and by the state it meets.

use vstd::prelude::*;
use crate::manager::command::{Command, ZoneControlReq, ZonePower};
use crate::manager::snapshot::{
    ids, lemma_ids, BulkModeView, ControlModeView, Temperature, ZonePowerView, ZoneView,
};
use crate::manager::values;
use crate::text;
use crate::web::error::{debug_text, AppError};
use crate::web::form;
use crate::web::handlers::zone;
use crate::web::interaction::{meets, Answer, Interaction};
use crate::web::state::AppState;

verus! {

/// What a form says under a key: the value of the first field of that key, or nothing,
/// where there is none.
pub open spec fn says(form: Seq<(String, String)>, key: Seq<char>, word: Seq<char>) -> bool {
    ||| exists|i: int|
        0 <= i < form.len() && (#[trigger] form[i]).0@ == key && form[i].1@ == word && forall|j: int|
            0 <= j < i ==> (#[trigger] form[j]).0@ != key
    ||| word.len() == 0 && forall|i: int| 0 <= i < form.len() ==> (#[trigger] form[i]).0@ != key
}

/// Every form says one thing under a key.
pub(crate) proof fn lemma_says(form: Seq<(String, String)>, key: Seq<char>, word: Seq<char>)
    requires
        says(form, key, word),
    ensures
        form::spec_field(form, key) == word,
    decreases form.len(),
{
    if form.len() > 0 && form[0].0@ != key {
        let rest = form.drop_first();
        assert(says(rest, key, word)) by {
            if exists|i: int|
                0 <= i < form.len() && (#[trigger] form[i]).0@ == key && form[i].1@ == word
                    && forall|j: int| 0 <= j < i ==> (#[trigger] form[j]).0@ != key {
                let i = choose|i: int|
                    0 <= i < form.len() && (#[trigger] form[i]).0@ == key && form[i].1@ == word
                        && forall|j: int| 0 <= j < i ==> (#[trigger] form[j]).0@ != key;
                assert(rest[i - 1] == form[i]);
                assert forall|j: int| 0 <= j < i - 1 implies (#[trigger] rest[j]).0@ != key by {
                    assert(rest[j] == form[j + 1]);
                }
            } else {
                assert forall|i: int| 0 <= i < rest.len() implies (#[trigger] rest[i]).0@ != key by {
                    assert(rest[i] == form[i + 1]);
                }
            }
        }
        lemma_says(rest, key, word);
    } else {
        assert(word =~= form::spec_field(form, key));
    }
}

/// Reading a field gives what the form says under its key.
pub proof fn law_field(fields: Vec<(String, String)>, key: &str, word: Seq<char>, r: String)
    requires
        call_ensures(form::field, (&fields, key), r),
        says(fields@, key@, word),
    ensures
        r@ == word,
{
    lemma_says(fields@, key@, word);
}

/// Whether a request sends one command and nothing else, and is answered with this.
pub open spec fn sends(r: Result<Interaction, AppError>, command: Command, answer: Answer) -> bool {
    r matches Ok(i) && i.commands@.len() == 1 && i.commands@[0] == command && i.done == 0
        && i.answer == answer
}

/// Whether a request is refused with a message.
pub open spec fn refuses(r: Result<Interaction, AppError>, message: Seq<char>) -> bool {
    r matches Err(e) && e.message@ == message
}

/// Whether a request on one zone sends it one request and nothing else.
pub open spec fn asks_zone(r: Result<Interaction, AppError>, id: u8, req: ZoneControlReq) -> bool {
    sends(r, Command::ControlZone { id, req }, Answer::Zone(id))
}

/// The words that requests use, told apart.
pub(crate) proof fn lemma_words()
    ensures
        "on"@ != "off"@,
        "on"@ != "turbo"@,
        "on"@ != "toggle"@,
        "on"@ != "away"@,
        "on"@ != "sleep"@,
        "off"@ != "turbo"@,
        "off"@ != "toggle"@,
        "off"@ != "away"@,
        "off"@ != "sleep"@,
        "turbo"@ != "toggle"@,
        "away"@ != "sleep"@,
        "away"@ != "toggle"@,
        "sleep"@ != "toggle"@,
        "airflow"@ != "temperature"@,
        "up"@ != "down"@,
{
    reveal_strlit("on");
    reveal_strlit("off");
    reveal_strlit("turbo");
    reveal_strlit("toggle");
    reveal_strlit("away");
    reveal_strlit("sleep");
    reveal_strlit("airflow");
    reveal_strlit("temperature");
    reveal_strlit("up");
    reveal_strlit("down");
    assert("on"@.len() == 2 && "off"@.len() == 3 && "turbo"@.len() == 5 && "toggle"@.len() == 6
        && "away"@.len() == 4 && "sleep"@.len() == 5 && "airflow"@.len() == 7
        && "temperature"@.len() == 11 && "up"@.len() == 2 && "down"@.len() == 4);
}

/// A request for a zone's power sends the power that its word names, whatever the zone
/// is doing, and is refused where the word names none.
pub proof fn law_zone_power(
    id: u8,
    form: Vec<(String, String)>,
    word: Seq<char>,
    r: Result<Interaction, AppError>,
)
    requires
        call_ensures(zone::power, (id, &form), r),
        says(form@, "power"@, word),
    ensures
        word == "on"@ ==> asks_zone(r, id, ZoneControlReq::Power(ZonePower::On)),
        word == "off"@ ==> asks_zone(r, id, ZoneControlReq::Power(ZonePower::Off)),
        word == "turbo"@ ==> asks_zone(r, id, ZoneControlReq::Power(ZonePower::Turbo)),
        word == "toggle"@ ==> asks_zone(r, id, ZoneControlReq::Power(ZonePower::Toggle)),
        word != "on"@ && word != "off"@ && word != "turbo"@ && word != "toggle"@ ==> refuses(
            r,
            "unknown "@ + "power"@ + ": "@ + debug_text(word),
        ),
{
    lemma_says(form@, "power"@, word);
    lemma_words();
}

/// Whether a temperature is the one that a zone is put under temperature control with:
/// the setpoint it holds, brought within 10.0 and 25.0 degrees, or 20.0 degrees where
/// it holds none. What its sensor reads does not matter.
pub open spec fn keeps_setpoint(z: ZoneView, t: Temperature) -> bool {
    match z.setpoint {
        None => t.deci == 200,
        Some(s) => {
            &&& 100 <= s.deci <= 250 ==> t.deci == s.deci
            &&& s.deci < 100 ==> t.deci == 100
            &&& s.deci > 250 ==> t.deci == 250
        },
    }
}

/// A request for a zone's control mode sends the zone the value that it holds in that
/// mode, and nothing about its power: its airflow as it is, or its setpoint within the
/// limits. It is refused for a zone that does not exist, for temperature control
/// without a sensor, and for any other word.
pub proof fn law_control_type(
    state: AppState,
    id: u8,
    form: Vec<(String, String)>,
    word: Seq<char>,
    r: Result<Interaction, AppError>,
)
    requires
        call_ensures(zone::control_type, (&state, id, &form), r),
        says(form@, "type"@, word),
    ensures
        ({
            let zones = state.manager.snapshot.zones@;
            let z = zones[id];
            &&& !zones.contains_key(id) ==> refuses(
                r,
                "zone"@ + " "@ + text::spec_decimal(id as nat) + " not found"@,
            )
            &&& zones.contains_key(id) && word == "airflow"@ ==> asks_zone(
                r,
                id,
                ZoneControlReq::SetAirflow(z.airflow_pct),
            )
            &&& zones.contains_key(id) && word == "temperature"@ && z.has_sensor ==> exists|
                t: Temperature,
            | #[trigger]
                asks_zone(r, id, ZoneControlReq::SetTemperature(t)) && keeps_setpoint(z, t)
            &&& zones.contains_key(id) && word == "temperature"@ && !z.has_sensor ==> refuses(
                r,
                "zone has no sensor; cannot temperature-control"@,
            )
            &&& zones.contains_key(id) && word != "airflow"@ && word != "temperature"@ ==> refuses(
                r,
                "unknown "@ + "control type"@ + ": "@ + debug_text(word),
            )
        }),
{
    lemma_says(form@, "type"@, word);
    lemma_words();
    let zones = state.manager.snapshot.zones@;
    if zones.contains_key(id) && word == "temperature"@ && zones[id].has_sensor {
        let deci = values::spec_clamp_setpoint(zone::zone_deci(zones[id])) as i16;
        assert(asks_zone(r, id, ZoneControlReq::SetTemperature(Temperature { deci })));
    }
}

/// Switching a zone's control mode asks for the other mode: a zone under temperature
/// control is sent its airflow, and any other its setpoint within the limits. What its
/// sensor reads, and whether it is on, does not matter.
pub proof fn law_toggle_control_type(state: AppState, id: u8, r: Result<Interaction, AppError>)
    requires
        call_ensures(zone::toggle_control_type, (&state, id), r),
    ensures
        ({
            let zones = state.manager.snapshot.zones@;
            let z = zones[id];
            let temp = z.control_mode == ControlModeView::Temperature;
            &&& !zones.contains_key(id) ==> refuses(
                r,
                "zone"@ + " "@ + text::spec_decimal(id as nat) + " not found"@,
            )
            &&& zones.contains_key(id) && temp ==> asks_zone(
                r,
                id,
                ZoneControlReq::SetAirflow(z.airflow_pct),
            )
            &&& zones.contains_key(id) && !temp && z.has_sensor ==> exists|t: Temperature| #[trigger]
                asks_zone(r, id, ZoneControlReq::SetTemperature(t)) && keeps_setpoint(z, t)
            &&& zones.contains_key(id) && !temp && !z.has_sensor ==> refuses(
                r,
                "zone has no sensor; cannot temperature-control"@,
            )
        }),
{
    lemma_words();
    let zones = state.manager.snapshot.zones@;
    let z = zones[id];
    if zones.contains_key(id) && z.control_mode != ControlModeView::Temperature && z.has_sensor {
        let deci = values::spec_clamp_setpoint(zone::zone_deci(z)) as i16;
        assert(asks_zone(r, id, ZoneControlReq::SetTemperature(Temperature { deci })));
    }
}

/// What a zone is sent to switch its control mode depends on its control mode, its airflow,
/// its setpoint and whether it has a sensor: not on what the sensor reads, nor on whether
/// the zone is on.
pub proof fn law_control_ignores_reading(
    a: AppState,
    b: AppState,
    id: u8,
    form: Vec<(String, String)>,
    typed: (Result<Interaction, AppError>, Result<Interaction, AppError>),
    toggled: (Result<Interaction, AppError>, Result<Interaction, AppError>),
)
    requires
        call_ensures(zone::control_type, (&a, id, &form), typed.0),
        call_ensures(zone::control_type, (&b, id, &form), typed.1),
        call_ensures(zone::toggle_control_type, (&a, id), toggled.0),
        call_ensures(zone::toggle_control_type, (&b, id), toggled.1),
        a.manager.snapshot.zones@.contains_key(id),
        b.manager.snapshot.zones@.contains_key(id),
        ({
            let x = a.manager.snapshot.zones@[id];
            let y = b.manager.snapshot.zones@[id];
            &&& x.control_mode == y.control_mode
            &&& x.airflow_pct == y.airflow_pct
            &&& x.setpoint == y.setpoint
            &&& x.has_sensor == y.has_sensor
        }),
    ensures
        typed.0 is Ok == typed.1 is Ok,
        typed.0 is Ok ==> typed.0->Ok_0.commands@ == typed.1->Ok_0.commands@,
        toggled.0 is Ok == toggled.1 is Ok,
        toggled.0 is Ok ==> toggled.0->Ok_0.commands@ == toggled.1->Ok_0.commands@,
{
}

/// Whether a request is one step from where a zone stands, up or down, in its control
/// mode: 5 % of airflow within 0 and 100, or ten tenths of a degree within 10.0 and 25.0
/// degrees, counted from 20.0 where the zone has no setpoint.
pub open spec fn one_step(z: ZoneView, up: bool, req: ZoneControlReq) -> bool {
    if z.control_mode == ControlModeView::Temperature {
        let from = if z.setpoint is Some {
            z.setpoint->0.deci as int
        } else {
            200
        };
        let target = if up {
            from + 10
        } else {
            from - 10
        };
        req matches ZoneControlReq::SetTemperature(t) && (100 <= target <= 250 ==> t.deci == target)
            && (target < 100 ==> t.deci == 100) && (target > 250 ==> t.deci == 250)
    } else {
        let target = if up {
            z.airflow_pct + 5
        } else {
            z.airflow_pct - 5
        };
        req matches ZoneControlReq::SetAirflow(pct) && (0 <= target <= 100 ==> pct == target) && (
        target < 0 ==> pct == 0) && (target > 100 ==> pct == 100)
    }
}

/// A step goes the way that the word says, whatever the zone is doing: up for `up` and
/// down for `down`. It is refused for any other word, and for a zone that does not
/// exist.
pub proof fn law_step_word(
    state: AppState,
    id: u8,
    form: Vec<(String, String)>,
    word: Seq<char>,
    r: Result<Interaction, AppError>,
)
    requires
        call_ensures(zone::step, (&state, id, &form), r),
        says(form@, "dir"@, word),
    ensures
        ({
            let zones = state.manager.snapshot.zones@;
            &&& word == "up"@ && zones.contains_key(id) ==> exists|req: ZoneControlReq| #[trigger]
                asks_zone(r, id, req) && one_step(zones[id], true, req)
            &&& word == "down"@ && zones.contains_key(id) ==> exists|req: ZoneControlReq| #[trigger]
                asks_zone(r, id, req) && one_step(zones[id], false, req)
            &&& (word == "up"@ || word == "down"@) && !zones.contains_key(id) ==> refuses(
                r,
                "zone"@ + " "@ + text::spec_decimal(id as nat) + " not found"@,
            )
            &&& word != "up"@ && word != "down"@ ==> refuses(
                r,
                "unknown "@ + "dir"@ + ": "@ + debug_text(word),
            )
        }),
{
    lemma_says(form@, "dir"@, word);
    lemma_words();
    let zones = state.manager.snapshot.zones@;
    if zones.contains_key(id) && (word == "up"@ || word == "down"@) {
        let req = zone::step_req(zones[id], word == "up"@);
        assert(asks_zone(r, id, req));
    }
}

/// What a step sends depends on the zone's control mode and value alone: two zones that
/// agree on these, one on and one off, are sent the same.
pub proof fn law_step_ignores_power(
    a: AppState,
    b: AppState,
    id: u8,
    form: Vec<(String, String)>,
    ra: Result<Interaction, AppError>,
    rb: Result<Interaction, AppError>,
)
    requires
        call_ensures(zone::step, (&a, id, &form), ra),
        call_ensures(zone::step, (&b, id, &form), rb),
        a.manager.snapshot.zones@.contains_key(id),
        b.manager.snapshot.zones@.contains_key(id),
        a.manager.snapshot.zones@[id].control_mode == b.manager.snapshot.zones@[id].control_mode,
        a.manager.snapshot.zones@[id].setpoint == b.manager.snapshot.zones@[id].setpoint,
        a.manager.snapshot.zones@[id].airflow_pct == b.manager.snapshot.zones@[id].airflow_pct,
    ensures
        ra is Ok == rb is Ok,
        ra is Ok ==> ra->Ok_0.commands@ == rb->Ok_0.commands@,
{
}

/// A request for a zone's airflow sends the percentage that its text writes, and is
/// refused where the text writes none of 0 to 100.
pub proof fn law_airflow(
    id: u8,
    form: Vec<(String, String)>,
    word: Seq<char>,
    r: Result<Interaction, AppError>,
)
    requires
        call_ensures(zone::airflow, (id, &form), r),
        says(form@, "pct"@, word),
    ensures
        ({
            let n = values::spec_number(word);
            &&& n is Some && n->0 <= 100 ==> asks_zone(
                r,
                id,
                ZoneControlReq::SetAirflow(n->0 as u8),
            )
            &&& n is None || n->0 > 100 ==> refuses(r, "invalid airflow: "@ + debug_text(word))
        }),
{
    lemma_says(form@, "pct"@, word);
}

/// What a request for a zone's setpoint comes to, by what its text reads as: that
/// temperature, where it is one of 10.0 to 25.0 degrees and the zone, if it is known, has
/// a sensor.
pub open spec fn zone_set(
    state: AppState,
    id: u8,
    value: Seq<char>,
    read: Option<i16>,
    r: Result<Interaction, AppError>,
) -> bool {
    let zones = state.manager.snapshot.zones@;
    let good = read is Some && 100 <= read->0 <= 250;
    let bare = zones.contains_key(id) && !zones[id].has_sensor;
    &&& good && !bare ==> asks_zone(
        r,
        id,
        ZoneControlReq::SetTemperature(Temperature { deci: read->0 }),
    )
    &&& good && bare ==> refuses(r, "zone has no sensor; cannot temperature-control"@)
    &&& !good ==> refuses(r, "invalid setpoint: "@ + debug_text(value))
}

/// A request for a zone's setpoint sends the temperature that its text reads as, or is
/// refused. Degrees written in digits, with one decimal or none, read as what they say,
/// and an empty text as none.
pub proof fn law_zone_setpoint(
    state: AppState,
    id: u8,
    form: Vec<(String, String)>,
    word: Seq<char>,
    r: Result<Interaction, AppError>,
)
    requires
        call_ensures(zone::setpoint, (&state, id, &form), r),
        says(form@, "temp"@, word),
    ensures
        zone_set(state, id, word, values::read_deci(word), r),
        values::spec_tenths(word) is Some ==> zone_set(
            state,
            id,
            word,
            values::spec_tenths(word),
            r,
        ),
        word.len() == 0 ==> r is Err,
{
    lemma_says(form@, "temp"@, word);
}

/// The same of what a text was read as, whatever that is.
pub proof fn law_zone_setpoint_read(
    state: AppState,
    id: u8,
    value: &str,
    read: Option<i16>,
    r: Result<Interaction, AppError>,
)
    requires
        call_ensures(zone::setpoint_read, (&state, id, value, read), r),
    ensures
        zone_set(state, id, value@, read, r),
{
}

/// Picking from an ascending list leaves what is picked, in ascending order.
pub(crate) proof fn lemma_pick(list: Seq<u8>, wanted: spec_fn(u8) -> bool)
    requires
        forall|i: int, j: int| 0 <= i < j < list.len() ==> list[i] < list[j],
    ensures
        forall|i: int|
            0 <= i < list.filter(wanted).len() ==> wanted(#[trigger] list.filter(wanted)[i])
                && list.contains(list.filter(wanted)[i]),
        forall|i: int, j: int|
            0 <= i < j < list.filter(wanted).len() ==> list.filter(wanted)[i] < list.filter(
                wanted,
            )[j],
        forall|i: int|
            0 <= i < list.len() && wanted(#[trigger] list[i]) ==> list.filter(wanted).contains(
                list[i],
            ),
    decreases list.len(),
{
    reveal(Seq::filter);
    if list.len() > 0 {
        let rest = list.drop_last();
        let last = list.last();
        lemma_pick(rest, wanted);
        let some = rest.filter(wanted);
        let all = list.filter(wanted);
        assert forall|i: int| 0 <= i < all.len() implies wanted(#[trigger] all[i])
            && list.contains(all[i]) by {
            if i < some.len() {
                assert(all[i] == some[i]);
                let k = choose|k: int| 0 <= k < rest.len() && rest[k] == some[i];
                assert(list[k] == all[i]);
            } else {
                assert(list[list.len() - 1] == all[i]);
            }
        }
        assert forall|i: int, j: int| 0 <= i < j < all.len() implies all[i] < all[j] by {
            assert(all[i] == some[i]);
            let k = choose|k: int| 0 <= k < rest.len() && rest[k] == some[i];
            assert(list[k] < last);
        }
        assert forall|i: int| 0 <= i < list.len() && wanted(#[trigger] list[i]) implies all.contains(
            list[i],
        ) by {
            if i < rest.len() {
                assert(rest[i] == list[i]);
                let k = choose|k: int| 0 <= k < some.len() && some[k] == rest[i];
                assert(all[k] == list[i]);
            } else {
                assert(all[some.len() as int] == last);
            }
        }
    }
}

/// Whether commands are one request each for the wanted of some zones and no others, in
/// ascending order of their ids.
pub open spec fn one_each(
    commands: Seq<Command>,
    zones: Map<u8, ZoneView>,
    wanted: spec_fn(ZoneView) -> bool,
    req: ZoneControlReq,
) -> bool {
    &&& forall|k: int|
        0 <= k < commands.len() ==> (#[trigger] commands[k] matches Command::ControlZone {
            id,
            req: sent,
        } && sent == req && zones.contains_key(id) && wanted(zones[id]))
    &&& forall|j: int, k: int|
        0 <= j < k < commands.len() ==> (#[trigger] commands[j])->ControlZone_id < (
        #[trigger] commands[k])->ControlZone_id
    &&& forall|id: u8| #[trigger]
        zones.contains_key(id) && wanted(zones[id]) ==> commands.contains(
            Command::ControlZone { id, req },
        )
}

/// A command for each wanted zone of a list of all zones is one for each of them.
proof fn lemma_one_each(
    zones: Map<u8, ZoneView>,
    by_id: spec_fn(u8) -> bool,
    wanted: spec_fn(ZoneView) -> bool,
    req: ZoneControlReq,
)
    requires
        forall|id: u8| #[trigger] zones.contains_key(id) ==> by_id(id) == wanted(zones[id]),
    ensures
        one_each(zone::to_each(ids(zones.dom()), by_id, req), zones, wanted, req),
{
    let list = ids(zones.dom());
    let commands = zone::to_each(list, by_id, req);
    let picked = list.filter(by_id);
    lemma_ids(zones.dom());
    lemma_pick(list, by_id);
    assert forall|k: int| 0 <= k < commands.len() implies (
    #[trigger] commands[k] matches Command::ControlZone { id, req: sent } && sent == req
        && zones.contains_key(id) && wanted(zones[id])) by {
        assert(by_id(picked[k]));
        assert(list.contains(picked[k]));
        assert(zones.dom().contains(picked[k]));
    }
    assert forall|id: u8| #[trigger] zones.contains_key(id) && wanted(
        zones[id],
    ) implies commands.contains(Command::ControlZone { id, req }) by {
        assert(zones.dom().contains(id));
        let i = choose|i: int| 0 <= i < list.len() && list[i] == id;
        assert(by_id(list[i]));
        let k = choose|k: int| 0 <= k < picked.len() && picked[k] == id;
        assert(commands[k] == Command::ControlZone { id, req });
    }
}

/// A request for the power of all zones sends one command to each zone that is not yet
/// so, in ascending order, and nothing else: `on` to those that are off, and `off` to
/// those that are not.
pub proof fn law_all_power(
    state: AppState,
    form: Vec<(String, String)>,
    word: Seq<char>,
    r: Result<Interaction, AppError>,
)
    requires
        call_ensures(zone::set_all_power, (&state, &form), r),
        says(form@, "power"@, word),
    ensures
        ({
            let zones = state.manager.snapshot.zones@;
            &&& word == "on"@ ==> r is Ok && r->Ok_0.done == 0 && r->Ok_0.answer == Answer::Zones(
                None,
            ) && one_each(
                r->Ok_0.commands@,
                zones,
                |z: ZoneView| z.power == ZonePowerView::Off,
                ZoneControlReq::Power(ZonePower::On),
            )
            &&& word == "off"@ ==> r is Ok && r->Ok_0.done == 0 && r->Ok_0.answer == Answer::Zones(
                None,
            ) && one_each(
                r->Ok_0.commands@,
                zones,
                |z: ZoneView| z.power != ZonePowerView::Off,
                ZoneControlReq::Power(ZonePower::Off),
            )
            &&& word != "on"@ && word != "off"@ ==> refuses(
                r,
                "unknown "@ + "power"@ + ": "@ + debug_text(word),
            )
        }),
{
    lemma_says(form@, "power"@, word);
    lemma_words();
    let zones = state.manager.snapshot.zones@;
    let by_on = |id: u8| !zone::already(zones[id], ZonePower::On);
    let by_off = |id: u8| !zone::already(zones[id], ZonePower::Off);
    lemma_one_each(
        zones,
        by_on,
        |z: ZoneView| z.power == ZonePowerView::Off,
        ZoneControlReq::Power(ZonePower::On),
    );
    lemma_one_each(
        zones,
        by_off,
        |z: ZoneView| z.power != ZonePowerView::Off,
        ZoneControlReq::Power(ZonePower::Off),
    );
}

/// Setting all zones sends every zone the airflow, or every zone with a sensor the
/// temperature, in ascending order of their ids, and answers with the mode it set. It
/// is refused where the value is none for the mode, and for any other mode.
pub proof fn law_all_preset_read(
    state: AppState,
    mode: &str,
    value: &str,
    read: Option<i16>,
    r: Result<Interaction, AppError>,
)
    requires
        call_ensures(zone::set_all_preset_read, (&state, mode, value, read), r),
    ensures
        preset_sent(state, mode@, value@, read, r),
{
    lemma_words();
    lemma_preset_sent(state, mode@, value@, read, r);
}

/// The same of a form, whose value is read as a number or as a temperature by its mode.
pub proof fn law_all_preset(
    state: AppState,
    form: Vec<(String, String)>,
    mode: Seq<char>,
    value: Seq<char>,
    r: Result<Interaction, AppError>,
)
    requires
        call_ensures(zone::set_all_preset, (&state, &form), r),
        says(form@, "mode"@, mode),
        says(form@, "value"@, value),
    ensures
        preset_sent(state, mode, value, values::read_deci(value), r),
        values::spec_tenths(value) is Some ==> preset_sent(
            state,
            mode,
            value,
            values::spec_tenths(value),
            r,
        ),
{
    lemma_says(form@, "mode"@, mode);
    lemma_says(form@, "value"@, value);
    lemma_words();
    lemma_preset_sent(state, mode, value, values::read_deci(value), r);
    if values::spec_tenths(value) is Some {
        lemma_preset_sent(state, mode, value, values::spec_tenths(value), r);
    }
}

/// What setting all zones comes to, by the mode, the value, and what the value reads as
/// where it is a temperature.
pub open spec fn preset_sent(
    state: AppState,
    mode: Seq<char>,
    value: Seq<char>,
    read: Option<i16>,
    r: Result<Interaction, AppError>,
) -> bool {
    let zones = state.manager.snapshot.zones@;
    let n = values::spec_number(value);
    let good_pct = n is Some && n->0 <= 100;
    let good_temp = read is Some && 100 <= read->0 <= 250;
    &&& mode == "airflow"@ && good_pct ==> r is Ok && r->Ok_0.done == 0 && r->Ok_0.answer
        == Answer::Zones(Some(BulkModeView::Airflow)) && one_each(
        r->Ok_0.commands@,
        zones,
        |z: ZoneView| true,
        ZoneControlReq::SetAirflow(n->0 as u8),
    )
    &&& mode == "airflow"@ && !good_pct ==> refuses(r, "invalid airflow: "@ + debug_text(value))
    &&& mode == "temperature"@ && good_temp ==> r is Ok && r->Ok_0.done == 0 && r->Ok_0.answer
        == Answer::Zones(Some(BulkModeView::Temperature)) && one_each(
        r->Ok_0.commands@,
        zones,
        |z: ZoneView| z.has_sensor,
        ZoneControlReq::SetTemperature(Temperature { deci: read->0 }),
    )
    &&& mode == "temperature"@ && !good_temp ==> refuses(
        r,
        "invalid setpoint: "@ + debug_text(value),
    )
    &&& mode != "airflow"@ && mode != "temperature"@ ==> refuses(
        r,
        "unknown "@ + "mode"@ + ": "@ + debug_text(mode),
    )
}

/// What the handler promises is what is sent.
proof fn lemma_preset_sent(
    state: AppState,
    mode: Seq<char>,
    value: Seq<char>,
    read: Option<i16>,
    r: Result<Interaction, AppError>,
)
    requires
        meets(
            r,
            zone::set_all_preset_plan(state.snap(), mode, value, read),
            zone::preset_answer(mode),
        ),
        "airflow"@ != "temperature"@,
    ensures
        preset_sent(state, mode, value, read, r),
{
    let zones = state.manager.snapshot.zones@;
    let list = ids(zones.dom());
    let n = values::spec_number(value);
    if mode == "airflow"@ && n is Some && n->0 <= 100 {
        let req = ZoneControlReq::SetAirflow(n->0 as u8);
        let every = |id: u8| true;
        lemma_one_each(zones, every, |z: ZoneView| true, req);
        text::lemma_filter_all(list, every);
        assert(r->Ok_0.commands@ =~= zone::to_each(list, every, req));
    }
    if mode == "temperature"@ && read is Some && 100 <= read->0 <= 250 {
        let req = ZoneControlReq::SetTemperature(Temperature { deci: read->0 });
        lemma_one_each(
            zones,
            |id: u8| zones[id].has_sensor,
            |z: ZoneView| z.has_sensor,
            req,
        );
    }
}

} // verus!
