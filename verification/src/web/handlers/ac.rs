//! Requests that control AC units.

use vstd::prelude::*;
use crate::manager::command::{AcControlReq, AcMode, AcPower, Command, FanSpeed};
use crate::manager::snapshot::{AcView, Snapshot, Temperature};
use crate::manager::values;
use crate::templates::Fragment;
use crate::text;
use crate::web::error::{unknown, unknown_text, AppError};
use crate::web::form::{field, spec_field};
use crate::web::interaction::{answered, meets, render_answer, Answer, Interaction, Plan};
use crate::web::state::AppState;

verus! {

/// The request to one AC unit, on its way.
fn send_ac(id: u8, req: AcControlReq) -> (r: Result<Interaction, AppError>)
    ensures
        meets(r, Ok(seq![Command::ControlAc { id, req }]), Answer::Ac(id)),
{
    let mut commands: Vec<Command> = Vec::new();
    commands.push(Command::ControlAc { id, req });
    assert(commands@ =~= seq![Command::ControlAc { id, req }]);
    Ok(Interaction::start(commands, Answer::Ac(id)))
}

/// The power command that a word stands for.
pub open spec fn ac_power(word: Seq<char>) -> Option<AcPower> {
    if word == "on"@ {
        Some(AcPower::On)
    } else if word == "off"@ {
        Some(AcPower::Off)
    } else if word == "away"@ {
        Some(AcPower::Away)
    } else if word == "sleep"@ {
        Some(AcPower::Sleep)
    } else if word == "toggle"@ {
        Some(AcPower::Toggle)
    } else {
        None
    }
}

/// The power status of an AC unit, as far as it is known.
pub open spec fn status_power(ac: AcView) -> Option<Seq<char>> {
    match ac.status {
        Some(s) => text::opt_text(s.power),
        None => None,
    }
}

/// Whether an AC unit counts as running: on, asleep or away.
pub open spec fn running(ac: AcView) -> bool {
    match status_power(ac) {
        Some(power) => power == "On"@ || power == "Sleep"@ || power == "AwayOff"@ || power
            == "AwayOn"@,
        None => false,
    }
}

/// Whether an AC unit counts as running: on, asleep or away.
fn is_running(ac: &AcView) -> (r: bool)
    ensures
        r == running(*ac),
{
    match ac.power() {
        Some(p) => text::same(p, "On") || text::same(p, "Sleep") || text::same(p, "AwayOff")
            || text::same(p, "AwayOn"),
        None => false,
    }
}

/// Whether a power command starts an AC unit: on, or a toggle where it is not
/// running.
pub open spec fn starts(snap: Snapshot, id: u8, power: AcPower) -> bool {
    match power {
        AcPower::On => true,
        AcPower::Toggle => !(snap.acs@.contains_key(id) && running(snap.acs@[id])),
        _ => false,
    }
}

/// Whether a power command would run an AC unit with no open zone.
pub open spec fn starts_shut(snap: Snapshot, id: u8, power: AcPower) -> bool {
    starts(snap, id, power) && snap.acs@.contains_key(id) && !exists|zone: u8|
        snap.open_zone(id, zone)
}

/// What a request for an AC unit's power comes to.
pub open spec fn power_plan(snap: Snapshot, id: u8, word: Seq<char>) -> Plan {
    match ac_power(word) {
        None => Err(unknown_text("power"@, word)),
        Some(power) => if starts_shut(snap, id, power) {
            Err("turn on at least one zone for this AC before starting it"@)
        } else {
            Ok(seq![Command::ControlAc { id, req: AcControlReq::Power(power) }])
        },
    }
}

/// `POST /ac/:id/power`, form field `power = on | off | away | sleep | toggle`.
/// Starting a unit is refused while every zone of it is off: it would run with no
/// open airflow path. A unit that does not exist is left to the manager to refuse.
pub fn power(state: &AppState, id: u8, form: &Vec<(String, String)>) -> (r: Result<
    Interaction,
    AppError,
>)
    ensures
        meets(r, power_plan(state.snap(), id, spec_field(form@, "power"@)), Answer::Ac(id)),
{
    let p = field(form, "power");
    let word = p.as_str();
    let power = if text::same(word, "on") {
        AcPower::On
    } else if text::same(word, "off") {
        AcPower::Off
    } else if text::same(word, "away") {
        AcPower::Away
    } else if text::same(word, "sleep") {
        AcPower::Sleep
    } else if text::same(word, "toggle") {
        AcPower::Toggle
    } else {
        return Err(unknown("power", word));
    };
    let snap = state.snapshot();
    let turns_on = match power {
        AcPower::On => true,
        AcPower::Toggle => match snap.ac(id) {
            Some(ac) => !is_running(ac),
            None => true,
        },
        _ => false,
    };
    if turns_on && snap.ac(id).is_some() && !snap.ac_has_open_zone(id) {
        return Err(AppError::msg("turn on at least one zone for this AC before starting it"));
    }
    send_ac(id, AcControlReq::Power(power))
}

/// The operating mode that a word stands for.
pub open spec fn spec_slug_to_mode(slug: Seq<char>) -> Option<AcMode> {
    if slug == "auto"@ {
        Some(AcMode::Auto)
    } else if slug == "heat"@ {
        Some(AcMode::Heat)
    } else if slug == "dry"@ {
        Some(AcMode::Dry)
    } else if slug == "fan"@ {
        Some(AcMode::Fan)
    } else if slug == "cool"@ {
        Some(AcMode::Cool)
    } else {
        None
    }
}

/// The operating mode that a word stands for; none where it is unknown or empty.
pub fn slug_to_mode(slug: &str) -> (r: Option<AcMode>)
    ensures
        r == spec_slug_to_mode(slug@),
{
    if text::same(slug, "auto") {
        Some(AcMode::Auto)
    } else if text::same(slug, "heat") {
        Some(AcMode::Heat)
    } else if text::same(slug, "dry") {
        Some(AcMode::Dry)
    } else if text::same(slug, "fan") {
        Some(AcMode::Fan)
    } else if text::same(slug, "cool") {
        Some(AcMode::Cool)
    } else {
        None
    }
}

/// The fan speed that a word stands for.
pub open spec fn spec_slug_to_fan(slug: Seq<char>) -> Option<FanSpeed> {
    if slug == "auto"@ {
        Some(FanSpeed::Auto)
    } else if slug == "quiet"@ {
        Some(FanSpeed::Quiet)
    } else if slug == "low"@ {
        Some(FanSpeed::Low)
    } else if slug == "medium"@ {
        Some(FanSpeed::Medium)
    } else if slug == "high"@ {
        Some(FanSpeed::High)
    } else if slug == "powerful"@ {
        Some(FanSpeed::Powerful)
    } else if slug == "turbo"@ {
        Some(FanSpeed::Turbo)
    } else if slug == "intelligentauto"@ {
        Some(FanSpeed::IntelligentAuto)
    } else {
        None
    }
}

/// The fan speed that a word stands for; none where it is unknown or empty.
pub fn slug_to_fan(slug: &str) -> (r: Option<FanSpeed>)
    ensures
        r == spec_slug_to_fan(slug@),
{
    if text::same(slug, "auto") {
        Some(FanSpeed::Auto)
    } else if text::same(slug, "quiet") {
        Some(FanSpeed::Quiet)
    } else if text::same(slug, "low") {
        Some(FanSpeed::Low)
    } else if text::same(slug, "medium") {
        Some(FanSpeed::Medium)
    } else if text::same(slug, "high") {
        Some(FanSpeed::High)
    } else if text::same(slug, "powerful") {
        Some(FanSpeed::Powerful)
    } else if text::same(slug, "turbo") {
        Some(FanSpeed::Turbo)
    } else if text::same(slug, "intelligentauto") {
        Some(FanSpeed::IntelligentAuto)
    } else {
        None
    }
}

/// What a request for an AC unit's mode comes to.
pub open spec fn mode_plan(id: u8, word: Seq<char>) -> Plan {
    match spec_slug_to_mode(word) {
        Some(mode) => Ok(seq![Command::ControlAc { id, req: AcControlReq::Mode(mode) }]),
        None => Err(unknown_text("mode"@, word)),
    }
}

/// `POST /ac/:id/mode`, form field `mode = auto | heat | dry | fan | cool`.
pub fn mode(id: u8, form: &Vec<(String, String)>) -> (r: Result<Interaction, AppError>)
    ensures
        meets(r, mode_plan(id, spec_field(form@, "mode"@)), Answer::Ac(id)),
{
    let m = field(form, "mode");
    match slug_to_mode(m.as_str()) {
        Some(mode) => send_ac(id, AcControlReq::Mode(mode)),
        None => Err(unknown("mode", m.as_str())),
    }
}

/// What a request for an AC unit's fan speed comes to.
pub open spec fn fan_plan(id: u8, word: Seq<char>) -> Plan {
    match spec_slug_to_fan(word) {
        Some(fan) => Ok(seq![Command::ControlAc { id, req: AcControlReq::FanSpeed(fan) }]),
        None => Err(unknown_text("fan"@, word)),
    }
}

/// `POST /ac/:id/fan`, form field `fan = auto | quiet | low | medium | high | powerful |
/// turbo | intelligentauto`.
pub fn fan(id: u8, form: &Vec<(String, String)>) -> (r: Result<Interaction, AppError>)
    ensures
        meets(r, fan_plan(id, spec_field(form@, "fan"@)), Answer::Ac(id)),
{
    let f = field(form, "fan");
    match slug_to_fan(f.as_str()) {
        Some(fan) => send_ac(id, AcControlReq::FanSpeed(fan)),
        None => Err(unknown("fan", f.as_str())),
    }
}

/// Whether a temperature lies within a range of whole degrees, in tenths of a degree.
pub open spec fn within(deci: i16, range: (u8, u8)) -> bool {
    range.0 * 10 <= deci <= range.1 * 10
}

/// Whether an AC unit can be set to a temperature: it lies within the unit's range
/// for cooling or within that for heating.
pub open spec fn takes_setpoint(ac: AcView, t: Temperature) -> bool {
    within(t.deci, ac.setpoint_cool) || within(t.deci, ac.setpoint_heat)
}

/// Whether an AC unit can be set to a temperature.
fn can_take(ac: &AcView, t: Temperature) -> (r: bool)
    ensures
        r == takes_setpoint(*ac, t),
{
    let deci: i32 = t.deci as i32;
    let cool = ac.setpoint_cool;
    let heat = ac.setpoint_heat;
    (cool.0 as i32 * 10 <= deci && deci <= cool.1 as i32 * 10) || (heat.0 as i32 * 10 <= deci
        && deci <= heat.1 as i32 * 10)
}

/// What a request for an AC unit's setpoint comes to, by what its text reads as. A
/// unit that does not exist is left to the manager to refuse.
pub open spec fn setpoint_plan(snap: Snapshot, id: u8, value: Seq<char>, read: Option<i16>) -> Plan {
    match values::spec_setpoint(read) {
        None => Err(values::bad_setpoint(value)),
        Some(t) => if snap.acs@.contains_key(id) && !takes_setpoint(snap.acs@[id], t) {
            Err("setpoint is outside the range of this AC"@)
        } else {
            Ok(seq![Command::ControlAc { id, req: AcControlReq::Setpoint(t) }])
        },
    }
}

/// Sets an AC unit to the temperature that a text was read as.
pub fn setpoint_read(state: &AppState, id: u8, value: &str, read: Option<i16>) -> (r: Result<
    Interaction,
    AppError,
>)
    ensures
        meets(r, setpoint_plan(state.snap(), id, value@, read), Answer::Ac(id)),
{
    match values::accept_setpoint(value, read) {
        Ok(t) => {
            if let Some(ac) = state.snapshot().ac(id) {
                if !can_take(ac, t) {
                    return Err(AppError::msg("setpoint is outside the range of this AC"));
                }
            }
            send_ac(id, AcControlReq::Setpoint(t))
        },
        Err(e) => Err(e),
    }
}

/// `POST /ac/:id/setpoint`, form field `temp`: a temperature that the unit can be set
/// to for cooling or for heating.
pub fn setpoint(state: &AppState, id: u8, form: &Vec<(String, String)>) -> (r: Result<
    Interaction,
    AppError,
>)
    ensures
        meets(
            r,
            setpoint_plan(
                state.snap(),
                id,
                spec_field(form@, "temp"@),
                values::read_deci(spec_field(form@, "temp"@)),
            ),
            Answer::Ac(id),
        ),
        values::spec_tenths(spec_field(form@, "temp"@)) is Some ==> meets(
            r,
            setpoint_plan(
                state.snap(),
                id,
                spec_field(form@, "temp"@),
                values::spec_tenths(spec_field(form@, "temp"@)),
            ),
            Answer::Ac(id),
        ),
        spec_field(form@, "temp"@).len() == 0 ==> r is Err,
{
    let value = field(form, "temp");
    setpoint_read(state, id, value.as_str(), values::read_temperature(value.as_str()))
}

/// `GET /partials/ac/:id`, and the answer to every request about one AC unit: its
/// card as it stands.
pub fn render_current_ac<'a>(state: &'a AppState, id: u8) -> (r: Result<Fragment<'a>, AppError>)
    ensures
        answered(*state, Answer::Ac(id), r),
{
    render_answer(state, Answer::Ac(id))
}

} // verus!
