//! What replaying a preset sends, by what was saved.

use vstd::prelude::*;
use crate::manager::command::{
    AcControlReq, AcMode, AcPower, Command, FanSpeed, ZoneControlReq, ZonePower,
};
use crate::manager::snapshot::{Snapshot, Temperature};
use crate::scenes::{is_saved, lemma_position, position, Scene, SceneAc, SceneZone};
use crate::web::error::{debug_text, AppError};
use crate::web::handlers::ac::{spec_slug_to_fan, spec_slug_to_mode};
use crate::web::handlers::ac_laws::{lemma_fan_words, lemma_mode_words};
use crate::web::handlers::laws::{lemma_says, refuses, says};
use crate::web::handlers::preset;
use crate::web::interaction::{Answer, Interaction};
use crate::web::state::AppState;

verus! {

/// Whether a temperature is the nearest to another within 10.0 and 25.0 degrees.
pub open spec fn nearest(saved: Temperature, sent: Temperature) -> bool {
    &&& 100 <= saved.deci <= 250 ==> sent.deci == saved.deci
    &&& saved.deci < 100 ==> sent.deci == 100
    &&& saved.deci > 250 ==> sent.deci == 250
}

/// Whether a request sets a zone to what was saved of it: the saved setpoint within the
/// limits, where temperature control was saved with one and the live zone has a sensor,
/// and the saved airflow otherwise.
pub open spec fn as_saved(z: SceneZone, has_sensor: bool, req: ZoneControlReq) -> bool {
    if z.control_mode@ != "temperature"@ || z.setpoint is None || !has_sensor {
        req == ZoneControlReq::SetAirflow(z.airflow_pct)
    } else {
        req matches ZoneControlReq::SetTemperature(t) && nearest(z.setpoint->0, t)
    }
}

/// Whether commands are those for one saved zone: none where it does not exist, and
/// else its value and then its power.
pub open spec fn zone_piece(snap: Snapshot, z: SceneZone, piece: Seq<Command>) -> bool {
    if !snap.zones@.contains_key(z.id) {
        piece.len() == 0
    } else {
        &&& piece.len() == 2
        &&& piece[0] matches Command::ControlZone { id, req } && id == z.id && as_saved(
            z,
            snap.zones@[z.id].has_sensor,
            req,
        )
        &&& z.enabled ==> piece[1] == (Command::ControlZone {
            id: z.id,
            req: ZoneControlReq::Power(ZonePower::On),
        })
        &&& !z.enabled ==> piece[1] == (Command::ControlZone {
            id: z.id,
            req: ZoneControlReq::Power(ZonePower::Off),
        })
    }
}

/// Whether commands are the one for a saved mode, or none where it names none.
pub open spec fn mode_piece(a: SceneAc, piece: Seq<Command>) -> bool {
    let w = a.mode@;
    let set = |m: AcMode| seq![Command::ControlAc { id: a.id, req: AcControlReq::Mode(m) }];
    &&& w == "auto"@ ==> piece == set(AcMode::Auto)
    &&& w == "heat"@ ==> piece == set(AcMode::Heat)
    &&& w == "dry"@ ==> piece == set(AcMode::Dry)
    &&& w == "fan"@ ==> piece == set(AcMode::Fan)
    &&& w == "cool"@ ==> piece == set(AcMode::Cool)
    &&& w != "auto"@ && w != "heat"@ && w != "dry"@ && w != "fan"@ && w != "cool"@
        ==> piece.len() == 0
}

/// Whether commands are the one for a saved fan speed, or none where it names none.
pub open spec fn fan_piece(a: SceneAc, piece: Seq<Command>) -> bool {
    let w = a.fan@;
    let set = |f: FanSpeed| seq![Command::ControlAc { id: a.id, req: AcControlReq::FanSpeed(f) }];
    &&& w == "auto"@ ==> piece == set(FanSpeed::Auto)
    &&& w == "quiet"@ ==> piece == set(FanSpeed::Quiet)
    &&& w == "low"@ ==> piece == set(FanSpeed::Low)
    &&& w == "medium"@ ==> piece == set(FanSpeed::Medium)
    &&& w == "high"@ ==> piece == set(FanSpeed::High)
    &&& w == "powerful"@ ==> piece == set(FanSpeed::Powerful)
    &&& w == "turbo"@ ==> piece == set(FanSpeed::Turbo)
    &&& w == "intelligentauto"@ ==> piece == set(FanSpeed::IntelligentAuto)
    &&& w != "auto"@ && w != "quiet"@ && w != "low"@ && w != "medium"@ && w != "high"@ && w
        != "powerful"@ && w != "turbo"@ && w != "intelligentauto"@ ==> piece.len() == 0
}

/// Whether commands are the one for a saved setpoint, or none where none was saved.
pub open spec fn setpoint_piece(a: SceneAc, piece: Seq<Command>) -> bool {
    match a.setpoint {
        None => piece.len() == 0,
        Some(t) => piece.len() == 1 && (piece[0] matches Command::ControlAc { id, req } && id
            == a.id && (req matches AcControlReq::Setpoint(sent) && nearest(t, sent))),
    }
}

/// Whether commands are the settings of one saved AC unit: none where it does not
/// exist, and else its mode, its fan speed and its setpoint.
pub open spec fn ac_piece(snap: Snapshot, a: SceneAc, piece: Seq<Command>) -> bool {
    if !snap.acs@.contains_key(a.id) {
        piece.len() == 0
    } else {
        exists|m: Seq<Command>, f: Seq<Command>, s: Seq<Command>|
            #![trigger mode_piece(a, m), fan_piece(a, f), setpoint_piece(a, s)]
            mode_piece(a, m) && fan_piece(a, f) && setpoint_piece(a, s) && piece == m + f + s
    }
}

/// Whether commands are the power of one saved AC unit: none where it does not exist.
pub open spec fn power_piece(snap: Snapshot, a: SceneAc, piece: Seq<Command>) -> bool {
    &&& !snap.acs@.contains_key(a.id) ==> piece.len() == 0
    &&& snap.acs@.contains_key(a.id) && a.power ==> piece == seq![
        Command::ControlAc { id: a.id, req: AcControlReq::Power(AcPower::On) },
    ]
    &&& snap.acs@.contains_key(a.id) && !a.power ==> piece == seq![
        Command::ControlAc { id: a.id, req: AcControlReq::Power(AcPower::Off) },
    ]
}

/// Whether pieces, one for each saved AC unit, are their settings.
pub open spec fn all_ac_pieces(
    snap: Snapshot,
    acs: Seq<SceneAc>,
    pieces: Seq<Seq<Command>>,
) -> bool {
    pieces.len() == acs.len() && forall|i: int|
        0 <= i < acs.len() ==> ac_piece(snap, acs[i], #[trigger] pieces[i])
}

/// Whether pieces, one for each saved zone, are what sets it.
pub open spec fn all_zone_pieces(
    snap: Snapshot,
    zones: Seq<SceneZone>,
    pieces: Seq<Seq<Command>>,
) -> bool {
    pieces.len() == zones.len() && forall|i: int|
        0 <= i < zones.len() ==> zone_piece(snap, zones[i], #[trigger] pieces[i])
}

/// Whether pieces, one for each saved AC unit, are its power.
pub open spec fn all_power_pieces(
    snap: Snapshot,
    acs: Seq<SceneAc>,
    pieces: Seq<Seq<Command>>,
) -> bool {
    pieces.len() == acs.len() && forall|i: int|
        0 <= i < acs.len() ==> power_piece(snap, acs[i], #[trigger] pieces[i])
}

/// Whether commands replay a preset: the settings of each saved AC unit, then value and
/// power of each saved zone, then the power of each saved AC unit.
pub open spec fn replays(snap: Snapshot, scene: Scene, commands: Seq<Command>) -> bool {
    exists|a: Seq<Seq<Command>>, z: Seq<Seq<Command>>, p: Seq<Seq<Command>>|
        #[trigger] all_ac_pieces(snap, scene.acs@, a) && #[trigger] all_zone_pieces(
            snap,
            scene.zones@,
            z,
        ) && #[trigger] all_power_pieces(snap, scene.acs@, p) && commands == a.flatten() + z.flatten()
            + p.flatten()
}

/// One more piece adds its commands at the end.
proof fn lemma_one_more(pieces: Seq<Seq<Command>>, piece: Seq<Command>)
    ensures
        pieces.push(piece).flatten() == pieces.flatten() + piece,
{
    let more = pieces.push(piece);
    more.lemma_flatten_and_flatten_alt_are_equivalent();
    pieces.lemma_flatten_and_flatten_alt_are_equivalent();
    assert(more.drop_last() =~= pieces);
}

/// The settings of one AC unit are its mode, its fan speed and its setpoint.
proof fn lemma_ac_piece(snap: Snapshot, a: SceneAc)
    requires
        snap.acs@.contains_key(a.id),
    ensures
        ac_piece(snap, a, preset::ac_settings(a)),
{
    lemma_mode_words();
    lemma_fan_words();
    let m = match spec_slug_to_mode(a.mode@) {
        Some(mode) => seq![Command::ControlAc { id: a.id, req: AcControlReq::Mode(mode) }],
        None => Seq::empty(),
    };
    let f = match spec_slug_to_fan(a.fan@) {
        Some(fan) => seq![Command::ControlAc { id: a.id, req: AcControlReq::FanSpeed(fan) }],
        None => Seq::empty(),
    };
    let s = match a.setpoint {
        Some(t) => seq![
            Command::ControlAc { id: a.id, req: AcControlReq::Setpoint(preset::clamped(t)) },
        ],
        None => Seq::empty(),
    };
    assert(mode_piece(a, m));
    assert(fan_piece(a, f));
    assert(setpoint_piece(a, s));
    assert(preset::ac_settings(a) =~= m + f + s);
}

/// The first phase, piece by piece.
proof fn lemma_ac_pieces(snap: Snapshot, acs: Seq<SceneAc>) -> (pieces: Seq<Seq<Command>>)
    ensures
        all_ac_pieces(snap, acs, pieces),
        pieces.flatten() == preset::ac_phase(snap, acs),
    decreases acs.len(),
{
    if acs.len() == 0 {
        Seq::empty()
    } else {
        let before = lemma_ac_pieces(snap, acs.drop_last());
        let a = acs.last();
        let piece = if snap.acs@.contains_key(a.id) {
            preset::ac_settings(a)
        } else {
            Seq::empty()
        };
        if snap.acs@.contains_key(a.id) {
            lemma_ac_piece(snap, a);
        }
        lemma_one_more(before, piece);
        assert(before.flatten() + piece =~= preset::ac_phase(snap, acs));
        let pieces = before.push(piece);
        assert forall|i: int| 0 <= i < acs.len() implies ac_piece(
            snap,
            acs[i],
            #[trigger] pieces[i],
        ) by {
            if i < before.len() {
                assert(acs.drop_last()[i] == acs[i]);
                assert(pieces[i] == before[i]);
            }
        }
        pieces
    }
}

/// The second phase, piece by piece.
proof fn lemma_zone_pieces(snap: Snapshot, zones: Seq<SceneZone>) -> (pieces: Seq<Seq<Command>>)
    ensures
        all_zone_pieces(snap, zones, pieces),
        pieces.flatten() == preset::zone_phase(snap, zones),
    decreases zones.len(),
{
    if zones.len() == 0 {
        Seq::empty()
    } else {
        let before = lemma_zone_pieces(snap, zones.drop_last());
        let z = zones.last();
        let piece = if snap.zones@.contains_key(z.id) {
            preset::zone_settings(snap.zones@[z.id], z)
        } else {
            Seq::empty()
        };
        lemma_one_more(before, piece);
        assert(before.flatten() + piece =~= preset::zone_phase(snap, zones));
        let pieces = before.push(piece);
        assert forall|i: int| 0 <= i < zones.len() implies zone_piece(
            snap,
            zones[i],
            #[trigger] pieces[i],
        ) by {
            if i < before.len() {
                assert(zones.drop_last()[i] == zones[i]);
                assert(pieces[i] == before[i]);
            }
        }
        pieces
    }
}

/// The third phase, piece by piece.
proof fn lemma_power_pieces(snap: Snapshot, acs: Seq<SceneAc>) -> (pieces: Seq<Seq<Command>>)
    ensures
        all_power_pieces(snap, acs, pieces),
        pieces.flatten() == preset::power_phase(snap, acs),
    decreases acs.len(),
{
    if acs.len() == 0 {
        Seq::empty()
    } else {
        let before = lemma_power_pieces(snap, acs.drop_last());
        let a = acs.last();
        let power = if a.power {
            AcPower::On
        } else {
            AcPower::Off
        };
        let piece = if snap.acs@.contains_key(a.id) {
            seq![Command::ControlAc { id: a.id, req: AcControlReq::Power(power) }]
        } else {
            Seq::empty()
        };
        lemma_one_more(before, piece);
        assert(before.flatten() + piece =~= preset::power_phase(snap, acs));
        let pieces = before.push(piece);
        assert forall|i: int| 0 <= i < acs.len() implies power_piece(
            snap,
            acs[i],
            #[trigger] pieces[i],
        ) by {
            if i < before.len() {
                assert(acs.drop_last()[i] == acs[i]);
                assert(pieces[i] == before[i]);
            }
        }
        pieces
    }
}

/// Replaying a preset sends what was saved of each AC unit and each zone that exists,
/// and nothing else, in the order of the phases.
pub proof fn law_replay(snap: Snapshot, scene: Scene, r: Vec<Command>)
    requires
        call_ensures(preset::apply_scene, (&snap, &scene), r),
    ensures
        replays(snap, scene, r@),
{
    let a = lemma_ac_pieces(snap, scene.acs@);
    let z = lemma_zone_pieces(snap, scene.zones@);
    let p = lemma_power_pieces(snap, scene.acs@);
    assert(r@ == a.flatten() + z.flatten() + p.flatten());
}

/// What one piece holds, the pieces hold together.
proof fn lemma_in_piece(pieces: Seq<Seq<Command>>, i: int, k: int)
    requires
        0 <= i < pieces.len(),
        0 <= k < pieces[i].len(),
    ensures
        pieces.flatten().contains(pieces[i][k]),
    decreases pieces.len(),
{
    let last = pieces.last();
    let before = pieces.drop_last();
    assert(before.push(last) =~= pieces);
    lemma_one_more(before, last);
    if i < before.len() {
        lemma_in_piece(before, i, k);
        let j = choose|j: int|
            0 <= j < before.flatten().len() && before.flatten()[j] == before[i][k];
        assert(pieces.flatten()[j] == pieces[i][k]);
    } else {
        assert(pieces.flatten()[before.flatten().len() + k] == last[k]);
    }
}

/// Each saved zone that exists is sent exactly what was saved: a value as it was saved,
/// and its power.
pub proof fn law_replay_zone(snap: Snapshot, scene: Scene, k: int, r: Vec<Command>)
    requires
        call_ensures(preset::apply_scene, (&snap, &scene), r),
        0 <= k < scene.zones@.len(),
        snap.zones@.contains_key(scene.zones@[k].id),
    ensures
        ({
            let z = scene.zones@[k];
            let live = snap.zones@[z.id];
            &&& exists|req: ZoneControlReq|
                #[trigger] as_saved(z, live.has_sensor, req) && r@.contains(
                    Command::ControlZone { id: z.id, req },
                )
            &&& z.enabled ==> r@.contains(
                Command::ControlZone { id: z.id, req: ZoneControlReq::Power(ZonePower::On) },
            )
            &&& !z.enabled ==> r@.contains(
                Command::ControlZone { id: z.id, req: ZoneControlReq::Power(ZonePower::Off) },
            )
        }),
{
    let pieces = lemma_zone_pieces(snap, scene.zones@);
    let first = preset::ac_phase(snap, scene.acs@);
    assert(zone_piece(snap, scene.zones@[k], pieces[k]));
    lemma_in_piece(pieces, k, 0);
    lemma_in_piece(pieces, k, 1);
    let i = choose|i: int|
        0 <= i < pieces.flatten().len() && pieces.flatten()[i] == pieces[k][0];
    assert(r@[first.len() + i] == pieces[k][0]);
    let j = choose|j: int|
        0 <= j < pieces.flatten().len() && pieces.flatten()[j] == pieces[k][1];
    assert(r@[first.len() + j] == pieces[k][1]);
}

/// Snapshots that hold the same ids, and sensors in the same zones, have the same
/// phases.
proof fn lemma_phases_alike(
    a: Snapshot,
    b: Snapshot,
    acs: Seq<SceneAc>,
    zones: Seq<SceneZone>,
)
    requires
        a.acs@.dom() == b.acs@.dom(),
        a.zones@.dom() == b.zones@.dom(),
        forall|id: u8| #[trigger]
            a.zones@.contains_key(id) ==> a.zones@[id].has_sensor == b.zones@[id].has_sensor,
    ensures
        preset::ac_phase(a, acs) == preset::ac_phase(b, acs),
        preset::power_phase(a, acs) == preset::power_phase(b, acs),
        preset::zone_phase(a, zones) == preset::zone_phase(b, zones),
    decreases acs.len() + zones.len(),
{
    if acs.len() > 0 {
        lemma_phases_alike(a, b, acs.drop_last(), zones);
        assert(a.acs@.dom().contains(acs.last().id) == b.acs@.dom().contains(acs.last().id));
    }
    if zones.len() > 0 {
        lemma_phases_alike(a, b, acs, zones.drop_last());
        let id = zones.last().id;
        assert(a.zones@.dom().contains(id) == b.zones@.dom().contains(id));
        if a.zones@.contains_key(id) {
            assert(preset::zone_value(a.zones@[id], zones.last()) == preset::zone_value(
                b.zones@[id],
                zones.last(),
            ));
        }
    }
}

/// What replaying a preset sends does not depend on what anything is set to, or doing,
/// at the time: only on which ids exist and which zones have a sensor.
pub proof fn law_replay_ignores_live(
    a: Snapshot,
    b: Snapshot,
    scene: Scene,
    ra: Vec<Command>,
    rb: Vec<Command>,
)
    requires
        call_ensures(preset::apply_scene, (&a, &scene), ra),
        call_ensures(preset::apply_scene, (&b, &scene), rb),
        a.acs@.dom() == b.acs@.dom(),
        a.zones@.dom() == b.zones@.dom(),
        forall|id: u8| #[trigger]
            a.zones@.contains_key(id) ==> a.zones@[id].has_sensor == b.zones@[id].has_sensor,
    ensures
        ra@ == rb@,
{
    lemma_phases_alike(a, b, scene.acs@, scene.zones@);
}

/// A request to replay a preset replays the first of that name, from its first command,
/// and is refused where none has the name.
pub proof fn law_apply(
    state: AppState,
    form: Vec<(String, String)>,
    name: Seq<char>,
    r: Result<Interaction, AppError>,
)
    requires
        call_ensures(preset::apply, (&state, &form), r),
        says(form@, "name"@, name),
    ensures
        ({
            let scenes = state.scenes.config.scenes@;
            &&& forall|k: int|
                0 <= k < scenes.len() && (#[trigger] scenes[k]).name@ == name && (forall|j: int|
                    0 <= j < k ==> (#[trigger] scenes[j]).name@ != name) ==> r is Ok && replays(
                    *state.manager.snapshot,
                    scenes[k],
                    r->Ok_0.commands@,
                ) && r->Ok_0.done == 0 && r->Ok_0.answer == Answer::Presets
            &&& (forall|k: int| 0 <= k < scenes.len() ==> (#[trigger] scenes[k]).name@ != name)
                ==> refuses(r, "preset "@ + debug_text(name) + " not found"@)
        }),
{
    lemma_says(form@, "name"@, name);
    let scenes = state.scenes.config.scenes@;
    let snap = *state.manager.snapshot;
    lemma_position(scenes, name);
    if is_saved(scenes, name) {
        let scene = scenes[position(scenes, name) as int];
        let a = lemma_ac_pieces(snap, scene.acs@);
        let z = lemma_zone_pieces(snap, scene.zones@);
        let p = lemma_power_pieces(snap, scene.acs@);
        assert(r->Ok_0.commands@ == a.flatten() + z.flatten() + p.flatten());
        assert(replays(snap, scene, r->Ok_0.commands@));
        assert forall|k: int|
            0 <= k < scenes.len() && (#[trigger] scenes[k]).name@ == name && (forall|j: int|
                0 <= j < k ==> (#[trigger] scenes[j]).name@ != name) implies k == position(
            scenes,
            name,
        ) by {
            if position(scenes, name) < k {
                assert(scenes[position(scenes, name) as int].name@ != name);
            }
        }
    }
}

} // verus!
