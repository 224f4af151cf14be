//! Requests about presets: saving the live state under a name, replaying a saved
//! one, removing the one that matches the live state.

use vstd::prelude::*;
use crate::manager::command::{AcControlReq, AcPower, Command, ZoneControlReq, ZonePower};
use crate::manager::snapshot::{Snapshot, Temperature, ZoneView};
use crate::manager::values;
use crate::scenes::{
    is_saved, position, upserted, without, Scene, SceneAc, SceneConfig, SceneZone,
};
use crate::templates::{opt_name, render_presets, rows, spec_rows, PresetsTemplate};
use crate::text;
use crate::web::error::{debug_text, quoted, AppError};
use crate::web::form::{field, spec_field};
use crate::web::handlers::ac::{slug_to_fan, slug_to_mode, spec_slug_to_fan, spec_slug_to_mode};
use crate::web::handlers::laws::{lemma_says, says};
use crate::web::interaction::{meets, Answer, Interaction, Plan};
use crate::web::state::AppState;

verus! {

/// A temperature brought within the setpoint limits.
pub open spec fn clamped(t: Temperature) -> Temperature {
    Temperature { deci: values::spec_clamp_setpoint(t.deci as int) as i16 }
}

/// The commands that set the mode, the fan speed and the setpoint of one AC unit.
pub open spec fn ac_settings(a: SceneAc) -> Seq<Command> {
    let mode = match spec_slug_to_mode(a.mode@) {
        Some(mode) => seq![Command::ControlAc { id: a.id, req: AcControlReq::Mode(mode) }],
        None => Seq::empty(),
    };
    let fan = match spec_slug_to_fan(a.fan@) {
        Some(fan) => seq![Command::ControlAc { id: a.id, req: AcControlReq::FanSpeed(fan) }],
        None => Seq::empty(),
    };
    let setpoint = match a.setpoint {
        Some(t) => seq![
            Command::ControlAc { id: a.id, req: AcControlReq::Setpoint(clamped(t)) },
        ],
        None => Seq::empty(),
    };
    mode + fan + setpoint
}

/// The first phase: the settings of each AC unit that exists.
pub open spec fn ac_phase(snap: Snapshot, acs: Seq<SceneAc>) -> Seq<Command>
    decreases acs.len(),
{
    if acs.len() == 0 {
        Seq::empty()
    } else {
        let before = ac_phase(snap, acs.drop_last());
        if snap.acs@.contains_key(acs.last().id) {
            before + ac_settings(acs.last())
        } else {
            before
        }
    }
}

/// What a preset sets a zone to. Temperature control needs a sensor; without one
/// the zone gets its airflow.
pub open spec fn zone_value(live: ZoneView, z: SceneZone) -> ZoneControlReq {
    if z.control_mode@ == "temperature"@ && live.has_sensor && z.setpoint is Some {
        ZoneControlReq::SetTemperature(clamped(z.setpoint->0))
    } else {
        ZoneControlReq::SetAirflow(z.airflow_pct)
    }
}

/// The commands that set one zone: its value, then its power.
pub open spec fn zone_settings(live: ZoneView, z: SceneZone) -> Seq<Command> {
    let power = if z.enabled {
        ZonePower::On
    } else {
        ZonePower::Off
    };
    seq![
        Command::ControlZone { id: z.id, req: zone_value(live, z) },
        Command::ControlZone { id: z.id, req: ZoneControlReq::Power(power) },
    ]
}

/// The second phase: value and power of each zone that exists.
pub open spec fn zone_phase(snap: Snapshot, zones: Seq<SceneZone>) -> Seq<Command>
    decreases zones.len(),
{
    if zones.len() == 0 {
        Seq::empty()
    } else {
        let before = zone_phase(snap, zones.drop_last());
        if snap.zones@.contains_key(zones.last().id) {
            before + zone_settings(snap.zones@[zones.last().id], zones.last())
        } else {
            before
        }
    }
}

/// The third phase: the power of each AC unit that exists.
pub open spec fn power_phase(snap: Snapshot, acs: Seq<SceneAc>) -> Seq<Command>
    decreases acs.len(),
{
    if acs.len() == 0 {
        Seq::empty()
    } else {
        let before = power_phase(snap, acs.drop_last());
        let a = acs.last();
        if snap.acs@.contains_key(a.id) {
            let power = if a.power {
                AcPower::On
            } else {
                AcPower::Off
            };
            before.push(Command::ControlAc { id: a.id, req: AcControlReq::Power(power) })
        } else {
            before
        }
    }
}

/// The commands that replay a preset.
pub open spec fn spec_apply_scene(snap: Snapshot, scene: Scene) -> Seq<Command> {
    ac_phase(snap, scene.acs@) + zone_phase(snap, scene.zones@) + power_phase(snap, scene.acs@)
}

/// Adds the commands that set the mode, the fan speed and the setpoint of one AC
/// unit.
fn push_ac_settings(commands: &mut Vec<Command>, a: &SceneAc)
    ensures
        final(commands)@ == old(commands)@ + ac_settings(*a),
{
    let ghost before = commands@;
    if let Some(mode) = slug_to_mode(a.mode.as_str()) {
        commands.push(Command::ControlAc { id: a.id, req: AcControlReq::Mode(mode) });
    }
    if let Some(fan) = slug_to_fan(a.fan.as_str()) {
        commands.push(Command::ControlAc { id: a.id, req: AcControlReq::FanSpeed(fan) });
    }
    if let Some(t) = a.setpoint {
        commands.push(
            Command::ControlAc {
                id: a.id,
                req: AcControlReq::Setpoint(values::clamp_setpoint(t)),
            },
        );
    }
    assert(commands@ =~= before + ac_settings(*a));
}

/// Adds the commands that set one zone: its value, then its power.
fn push_zone_settings(commands: &mut Vec<Command>, live: &ZoneView, z: &SceneZone)
    ensures
        final(commands)@ == old(commands)@ + zone_settings(*live, *z),
{
    let ghost before = commands@;
    let value = match z.setpoint {
        Some(t) => if text::same(z.control_mode.as_str(), "temperature") && live.has_sensor {
            ZoneControlReq::SetTemperature(values::clamp_setpoint(t))
        } else {
            ZoneControlReq::SetAirflow(z.airflow_pct)
        },
        None => ZoneControlReq::SetAirflow(z.airflow_pct),
    };
    commands.push(Command::ControlZone { id: z.id, req: value });
    let power = if z.enabled {
        ZonePower::On
    } else {
        ZonePower::Off
    };
    commands.push(Command::ControlZone { id: z.id, req: ZoneControlReq::Power(power) });
    assert(commands@ =~= before + zone_settings(*live, *z));
}

/// The commands that replay a preset, in three phases.
///
/// The settings of the AC units go first: a zone's row is tinted by the mode of its
/// unit, so each row emitted afterwards already has its final colour. The zones
/// follow: a value, which selects the control mode without waking the zone, then
/// the power. The power of the AC units goes last, so that a unit that is to run
/// has its zones open.
pub fn apply_scene(snap: &Snapshot, scene: &Scene) -> (r: Vec<Command>)
    ensures
        r@ == spec_apply_scene(*snap, *scene),
{
    let mut commands: Vec<Command> = Vec::new();
    for i in 0..scene.acs.len()
        invariant
            commands@ == ac_phase(*snap, scene.acs@.take(i as int)),
    {
        assert(scene.acs@.take(i + 1).drop_last() =~= scene.acs@.take(i as int));
        let a = &scene.acs[i];
        if snap.ac(a.id).is_some() {
            push_ac_settings(&mut commands, a);
        }
    }
    assert(scene.acs@.take(scene.acs@.len() as int) =~= scene.acs@);
    let ghost first = commands@;
    assert(commands@ =~= first + zone_phase(*snap, scene.zones@.take(0)));
    for i in 0..scene.zones.len()
        invariant
            commands@ == first + zone_phase(*snap, scene.zones@.take(i as int)),
    {
        assert(scene.zones@.take(i + 1).drop_last() =~= scene.zones@.take(i as int));
        let z = &scene.zones[i];
        if let Some(live) = snap.zone(z.id) {
            let ghost before = zone_phase(*snap, scene.zones@.take(i as int));
            push_zone_settings(&mut commands, live, z);
            assert(commands@ =~= first + (before + zone_settings(*live, *z)));
        }
    }
    assert(scene.zones@.take(scene.zones@.len() as int) =~= scene.zones@);
    let ghost second = commands@;
    assert(commands@ =~= second + power_phase(*snap, scene.acs@.take(0)));
    for i in 0..scene.acs.len()
        invariant
            commands@ == second + power_phase(*snap, scene.acs@.take(i as int)),
    {
        assert(scene.acs@.take(i + 1).drop_last() =~= scene.acs@.take(i as int));
        let a = &scene.acs[i];
        if snap.ac(a.id).is_some() {
            let ghost before = power_phase(*snap, scene.acs@.take(i as int));
            let power = if a.power {
                AcPower::On
            } else {
                AcPower::Off
            };
            let command = Command::ControlAc { id: a.id, req: AcControlReq::Power(power) };
            commands.push(command);
            assert(commands@ =~= second + before.push(command));
        }
    }
    commands
}

/// What a request to replay a preset comes to.
pub open spec fn apply_plan(snap: Snapshot, scenes: Seq<Scene>, name: Seq<char>) -> Plan {
    if is_saved(scenes, name) {
        Ok(spec_apply_scene(snap, scenes[position(scenes, name) as int]))
    } else {
        Err("preset "@ + debug_text(name) + " not found"@)
    }
}

/// `POST /presets/apply`, form field `name`: replays the preset of that name.
pub fn apply(state: &AppState, form: &Vec<(String, String)>) -> (r: Result<Interaction, AppError>)
    ensures
        meets(
            r,
            apply_plan(
                state.snap(),
                state.scenes.config.scenes@,
                spec_field(form@, "name"@),
            ),
            Answer::Presets,
        ),
{
    let name = field(form, "name");
    match state.scenes.config.find(name.as_str()) {
        Some(scene) => {
            let commands = apply_scene(state.snapshot(), scene);
            Ok(Interaction::start(commands, Answer::Presets))
        },
        None => {
            let head = text::joined("preset ", quoted(name.as_str()).as_str());
            Err(AppError { message: text::joined(head.as_str(), " not found") })
        },
    }
}

/// Whether a character may stand in a preset's name: it would not break the JSON
/// attribute that carries the name.
pub open spec fn name_char(c: char) -> bool {
    c != '"' && c != '\\' && !text::spec_is_control(c)
}

/// The longest name that a preset can have, in characters.
pub const NAME_LIMIT: usize = 60;

/// A name with the characters that may not stand in it taken out, trimmed and
/// cut to the longest length.
pub open spec fn spec_sanitize_name(raw: Seq<char>) -> Seq<char> {
    let trimmed = text::spec_trim(raw.filter(|c: char| name_char(c)));
    if trimmed.len() <= NAME_LIMIT {
        trimmed
    } else {
        trimmed.take(NAME_LIMIT as int)
    }
}

/// A name with the characters that may not stand in it taken out, trimmed and
/// cut to the longest length.
pub fn sanitize_name(raw: &str) -> (r: String)
    ensures
        r@ == spec_sanitize_name(raw@),
{
    let chars = text::chars_of(raw);
    let mut kept: Vec<char> = Vec::new();
    let ghost keep = |c: char| name_char(c);
    assert(chars@.take(0).filter(keep) =~= Seq::<char>::empty()) by {
        reveal(Seq::filter);
    }
    for i in 0..chars.len()
        invariant
            keep == (|c: char| name_char(c)),
            kept@ == chars@.take(i as int).filter(keep),
    {
        let c = chars[i];
        assert(chars@.take(i + 1) =~= chars@.take(i as int).push(c));
        assert(chars@.take(i + 1).drop_last() =~= chars@.take(i as int));
        reveal(Seq::filter);
        if c != '"' && c != '\\' && !text::is_control(c) {
            kept.push(c);
        }
    }
    assert(chars@.take(chars@.len() as int) =~= chars@);
    let trimmed = text::trim(&kept);
    let end: usize = if trimmed.len() <= NAME_LIMIT {
        trimmed.len()
    } else {
        NAME_LIMIT
    };
    assert(trimmed@.subrange(0, trimmed@.len() as int) =~= trimmed@);
    assert(trimmed@.len() > NAME_LIMIT ==> trimmed@.subrange(0, NAME_LIMIT as int)
        =~= trimmed@.take(NAME_LIMIT as int));
    text::string_of(&trimmed, 0, end)
}

/// The presets after a request to save one: `acs` and `zones` are the captured
/// live state. A name that comes to nothing saves nothing.
pub open spec fn saved(
    scenes: Seq<Scene>,
    raw: Seq<char>,
    acs: Seq<SceneAc>,
    zones: Seq<SceneZone>,
    after: Seq<Scene>,
) -> bool {
    let name = spec_sanitize_name(raw);
    if name.len() == 0 {
        after == scenes
    } else {
        exists|scene: Scene|
            scene.name@ == name && scene.acs@ == acs && scene.zones@ == zones && after
                == #[trigger] upserted(scenes, scene)
    }
}

/// `POST /presets`, form field `name`: saves the captured live state under a name,
/// in the place of a preset of the same name. Says whether something was saved:
/// an empty name, as when the user cancels, saves nothing.
pub fn save(
    config: &mut SceneConfig,
    form: &Vec<(String, String)>,
    acs: Vec<SceneAc>,
    zones: Vec<SceneZone>,
) -> (r: bool)
    ensures
        saved(
            old(config).scenes@,
            spec_field(form@, "name"@),
            acs@,
            zones@,
            final(config).scenes@,
        ),
        r == (spec_sanitize_name(spec_field(form@, "name"@)).len() > 0),
        forall|word: Seq<char>| #[trigger]
            says(form@, "name"@, word) ==> saved(
                old(config).scenes@,
                word,
                acs@,
                zones@,
                final(config).scenes@,
            ) && r == (spec_sanitize_name(word).len() > 0),
{
    proof {
        assert forall|word: Seq<char>| #[trigger] says(form@, "name"@, word) implies word
            == spec_field(form@, "name"@) by {
            lemma_says(form@, "name"@, word);
        }
    }
    let name = sanitize_name(field(form, "name").as_str());
    if name.as_str().is_empty() {
        return false;
    }
    config.upsert(Scene { name, acs, zones });
    true
}

/// `POST /presets/remove`: removes the preset that matches the live state. Says
/// whether there was one.
pub fn remove(config: &mut SceneConfig, active: &Option<String>) -> (r: bool)
    ensures
        r == active.is_some(),
        final(config).scenes@ == match opt_name(*active) {
            Some(name) => without(old(config).scenes@, name),
            None => old(config).scenes@,
        },
        active is None ==> final(config).scenes@ == old(config).scenes@,
        active matches Some(name) ==> final(config).scenes@ == old(config).scenes@.filter(
            |s: Scene| s.name@ != name@,
        ),
{
    match active {
        Some(name) => {
            config.remove(name.as_str());
            true
        },
        None => false,
    }
}

/// `GET /partials/presets`: the presets card.
pub fn partial_presets(state: &AppState) -> (r: PresetsTemplate)
    ensures
        rows(r.presets@) == spec_rows(
            state.scenes.config.scenes@,
            opt_name(state.scenes.active),
        ),
        r.has_active == state.scenes.active.is_some(),
{
    render_presets(&state.scenes.config, &state.scenes.active)
}

} // verus!
