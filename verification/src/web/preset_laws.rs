//! What holds of presets and themes as a whole.

use vstd::prelude::*;
use crate::listener::laws::lemma_split_one;
use crate::manager::command::{AcControlReq, AcPower, Command};
use crate::manager::snapshot::Snapshot;
use crate::scenes::{
    distinct, is_saved, lemma_position, position, upserted, without, Scene, SceneAc, SceneZone,
};
use crate::templates::spec_rows;
use crate::text;
use crate::web::handlers::preset;
use crate::web::laws::setpoint_ok;
use crate::web::theme::{law_lookup, theme_value, Themes};

verus! {

/// Whether a command sets an AC unit that exists to something other than its power.
pub open spec fn sets_ac(snap: Snapshot, command: Command) -> bool {
    command matches Command::ControlAc { id, req } && snap.acs@.contains_key(id) && !(req is Power)
}

/// Whether a command goes to a zone that exists; a temperature only to one with a
/// sensor.
pub open spec fn sets_zone(snap: Snapshot, command: Command) -> bool {
    command matches Command::ControlZone { id, req } && snap.zones@.contains_key(id) && (
    req is SetTemperature ==> snap.zones@[id].has_sensor)
}

/// Whether a command sets the power of an AC unit that exists.
pub open spec fn powers_ac(snap: Snapshot, command: Command) -> bool {
    command matches Command::ControlAc { id, req } && snap.acs@.contains_key(id) && req is Power
}

/// The first phase sets AC units that exist, and no power.
proof fn lemma_ac_phase(snap: Snapshot, acs: Seq<SceneAc>)
    ensures
        forall|i: int|
            0 <= i < preset::ac_phase(snap, acs).len() ==> sets_ac(
                snap,
                #[trigger] preset::ac_phase(snap, acs)[i],
            ) && setpoint_ok(preset::ac_phase(snap, acs)[i]),
    decreases acs.len(),
{
    if acs.len() > 0 {
        let before = preset::ac_phase(snap, acs.drop_last());
        let whole = preset::ac_phase(snap, acs);
        lemma_ac_phase(snap, acs.drop_last());
        assert forall|i: int| 0 <= i < whole.len() implies sets_ac(snap, #[trigger] whole[i]) && setpoint_ok(whole[i]) by {
            if i < before.len() {
                assert(whole[i] == before[i]);
            } else {
                assert(whole[i] == preset::ac_settings(acs.last())[i - before.len()]);
            }
        }
    }
}

/// The second phase sets zones that exist.
proof fn lemma_zone_phase(snap: Snapshot, zones: Seq<SceneZone>)
    ensures
        forall|i: int|
            0 <= i < preset::zone_phase(snap, zones).len() ==> sets_zone(
                snap,
                #[trigger] preset::zone_phase(snap, zones)[i],
            ) && setpoint_ok(preset::zone_phase(snap, zones)[i]),
    decreases zones.len(),
{
    if zones.len() > 0 {
        let before = preset::zone_phase(snap, zones.drop_last());
        let whole = preset::zone_phase(snap, zones);
        lemma_zone_phase(snap, zones.drop_last());
        assert forall|i: int| 0 <= i < whole.len() implies sets_zone(snap, #[trigger] whole[i]) && setpoint_ok(whole[i]) by {
            if i < before.len() {
                assert(whole[i] == before[i]);
            } else {
                let z = zones.last();
                assert(whole[i] == preset::zone_settings(snap.zones@[z.id], z)[i - before.len()]);
            }
        }
    }
}

/// The third phase sets the power of AC units that exist.
proof fn lemma_power_phase(snap: Snapshot, acs: Seq<SceneAc>)
    ensures
        forall|i: int|
            0 <= i < preset::power_phase(snap, acs).len() ==> powers_ac(
                snap,
                #[trigger] preset::power_phase(snap, acs)[i],
            ),
    decreases acs.len(),
{
    if acs.len() > 0 {
        let before = preset::power_phase(snap, acs.drop_last());
        let whole = preset::power_phase(snap, acs);
        lemma_power_phase(snap, acs.drop_last());
        assert forall|i: int| 0 <= i < whole.len() implies powers_ac(snap, #[trigger] whole[i]) by {
            if i < before.len() {
                assert(whole[i] == before[i]);
            }
        }
    }
}

/// A preset is replayed in three phases: first the settings of AC units, then the
/// zones, then the power of AC units. Nothing is sent to a unit or a zone that does
/// not exist, a temperature only to a zone with a sensor, and every setpoint is
/// within the limits.
pub proof fn law_apply_phases(snap: Snapshot, scene: Scene)
    ensures
        ({
            let commands = preset::spec_apply_scene(snap, scene);
            let zones_from = preset::ac_phase(snap, scene.acs@).len() as int;
            let power_from = zones_from + preset::zone_phase(snap, scene.zones@).len();
            &&& 0 <= zones_from <= power_from <= commands.len()
            &&& forall|i: int| 0 <= i < zones_from ==> sets_ac(snap, #[trigger] commands[i])
            &&& forall|i: int| zones_from <= i < power_from ==> sets_zone(snap, #[trigger] commands[i])
            &&& forall|i: int|
                power_from <= i < commands.len() ==> powers_ac(snap, #[trigger] commands[i])
            &&& forall|i: int| 0 <= i < commands.len() ==> setpoint_ok(#[trigger] commands[i])
        }),
{
    lemma_ac_phase(snap, scene.acs@);
    lemma_zone_phase(snap, scene.zones@);
    lemma_power_phase(snap, scene.acs@);
    let commands = preset::spec_apply_scene(snap, scene);
    let first = preset::ac_phase(snap, scene.acs@);
    let second = preset::zone_phase(snap, scene.zones@);
    let third = preset::power_phase(snap, scene.acs@);
    assert forall|i: int| 0 <= i < commands.len() implies #[trigger] commands[i] == (if i
        < first.len() {
        first[i]
    } else if i < first.len() + second.len() {
        second[i - first.len()]
    } else {
        third[i - first.len() - second.len()]
    }) by {}
    assert forall|i: int| 0 <= i < commands.len() implies setpoint_ok(#[trigger] commands[i]) by {
        if i >= first.len() + second.len() {
            assert(powers_ac(snap, third[i - first.len() - second.len()]));
        }
    }
}

/// The commands for a zone of a preset stand in the second phase, the value before
/// the power.
proof fn lemma_zone_in_phase(snap: Snapshot, zones: Seq<SceneZone>, z: int) -> (at: int)
    requires
        0 <= z < zones.len(),
        snap.zones@.contains_key(zones[z].id),
    ensures
        0 <= at,
        at + 2 <= preset::zone_phase(snap, zones).len(),
        preset::zone_phase(snap, zones).subrange(at, at + 2) == preset::zone_settings(
            snap.zones@[zones[z].id],
            zones[z],
        ),
    decreases zones.len(),
{
    let before = preset::zone_phase(snap, zones.drop_last());
    if z == zones.len() - 1 {
        assert(preset::zone_phase(snap, zones).subrange(
            before.len() as int,
            before.len() as int + 2,
        ) =~= preset::zone_settings(snap.zones@[zones[z].id], zones[z]));
        before.len() as int
    } else {
        let at = lemma_zone_in_phase(snap, zones.drop_last(), z);
        assert(preset::zone_phase(snap, zones).subrange(at, at + 2) =~= before.subrange(
            at,
            at + 2,
        ));
        at
    }
}

/// The command for the power of an AC unit of a preset.
pub open spec fn ac_power_command(a: SceneAc) -> Command {
    Command::ControlAc {
        id: a.id,
        req: AcControlReq::Power(
            if a.power {
                AcPower::On
            } else {
                AcPower::Off
            },
        ),
    }
}

/// The power command for an AC unit of a preset stands in the third phase.
proof fn lemma_ac_in_phase(snap: Snapshot, acs: Seq<SceneAc>, a: int) -> (at: int)
    requires
        0 <= a < acs.len(),
        snap.acs@.contains_key(acs[a].id),
    ensures
        0 <= at < preset::power_phase(snap, acs).len(),
        preset::power_phase(snap, acs)[at] == ac_power_command(acs[a]),
    decreases acs.len(),
{
    let before = preset::power_phase(snap, acs.drop_last());
    if a == acs.len() - 1 {
        before.len() as int
    } else {
        lemma_ac_in_phase(snap, acs.drop_last(), a)
    }
}

/// Every zone of a preset that exists gets its value and then its power, and every
/// AC unit that exists gets its power after that: a unit is told to run only once
/// the zones that the preset opens are open.
pub proof fn law_zones_before_ac_power(snap: Snapshot, scene: Scene, z: int, a: int)
    requires
        0 <= z < scene.zones@.len(),
        snap.zones@.contains_key(scene.zones@[z].id),
        0 <= a < scene.acs@.len(),
        snap.acs@.contains_key(scene.acs@[a].id),
    ensures
        exists|i: int, j: int|
            #![trigger preset::spec_apply_scene(snap, scene)[i], preset::spec_apply_scene(
                snap,
                scene,
            )[j]]
            0 <= i && i + 2 <= j < preset::spec_apply_scene(snap, scene).len()
                && preset::spec_apply_scene(snap, scene).subrange(i, i + 2)
                == preset::zone_settings(snap.zones@[scene.zones@[z].id], scene.zones@[z])
                && preset::spec_apply_scene(snap, scene)[j] == ac_power_command(scene.acs@[a]),
{
    let commands = preset::spec_apply_scene(snap, scene);
    let first = preset::ac_phase(snap, scene.acs@);
    let second = preset::zone_phase(snap, scene.zones@);
    let third = preset::power_phase(snap, scene.acs@);
    let at = lemma_zone_in_phase(snap, scene.zones@, z);
    let to = lemma_ac_in_phase(snap, scene.acs@, a);
    let i = first.len() + at;
    let j = first.len() + second.len() + to;
    assert(commands.subrange(i, i + 2) =~= second.subrange(at, at + 2));
    assert(commands[j] == third[to]);
    assert(commands[i] == second[at]);
}

/// Saving a preset and looking its name up gives it back; every other name is
/// looked up as before; and where no two presets share a name, none come to.
pub proof fn law_upsert(scenes: Seq<Scene>, scene: Scene, other: Seq<char>)
    requires
        other != scene.name@,
    ensures
        is_saved(upserted(scenes, scene), scene.name@),
        upserted(scenes, scene)[position(upserted(scenes, scene), scene.name@) as int] == scene,
        is_saved(upserted(scenes, scene), other) == is_saved(scenes, other),
        is_saved(scenes, other) ==> upserted(scenes, scene)[position(
            upserted(scenes, scene),
            other,
        ) as int] == scenes[position(scenes, other) as int],
        distinct(scenes) ==> distinct(upserted(scenes, scene)),
{
    let after = upserted(scenes, scene);
    let name = scene.name@;
    lemma_position(scenes, name);
    lemma_position(scenes, other);
    lemma_position(after, name);
    lemma_position(after, other);
    let at = position(scenes, name) as int;
    assert(after[at] == scene);
    assert(forall|i: int| 0 <= i < after.len() && i != at ==> #[trigger] after[i] == scenes[i]);
    let p = position(after, name) as int;
    if p < at {
        assert(after[p] == scenes[p]);
        assert(scenes[p].name@ != name);
    }
    let q = position(after, other) as int;
    let o = position(scenes, other) as int;
    if o < scenes.len() {
        assert(after[o] == scenes[o]);
    }
    if q < after.len() && q != at {
        assert(after[q] == scenes[q]);
    }
    if o < q && o < scenes.len() {
        assert(after[o].name@ != other);
    }
    if q < o {
        assert(scenes[q].name@ != other);
    }
    if distinct(scenes) {
        assert forall|i: int, j: int| 0 <= i < j < after.len() implies (
        #[trigger] after[i]).name@ != (#[trigger] after[j]).name@ by {
            if i != at && j != at {
                assert(scenes[i].name@ != scenes[j].name@);
            } else if i == at {
                if at < scenes.len() {
                    assert(scenes[at].name@ != scenes[j].name@);
                }
            } else {
                assert(scenes[i].name@ != name);
            }
        }
    }
}

/// Where the presets that are kept stood before.
proof fn lemma_without(scenes: Seq<Scene>, name: Seq<char>)
    ensures
        forall|i: int|
            0 <= i < without(scenes, name).len() ==> (#[trigger] without(scenes, name)[i]).name@
                != name && scenes.contains(without(scenes, name)[i]),
        forall|i: int|
            0 <= i < scenes.len() && (#[trigger] scenes[i]).name@ != name ==> without(
                scenes,
                name,
            ).contains(scenes[i]),
        distinct(scenes) ==> distinct(without(scenes, name)),
    decreases scenes.len(),
{
    let kept = without(scenes, name);
    if scenes.len() > 0 {
        let short = scenes.drop_last();
        let before = without(short, name);
        let last = scenes.last();
        lemma_without(short, name);
        assert(scenes[scenes.len() - 1] == last);
        assert forall|s: Scene| short.contains(s) implies scenes.contains(s) by {
            let k = choose|k: int| 0 <= k < short.len() && short[k] == s;
            assert(scenes[k] == s);
        }
        assert forall|i: int| 0 <= i < kept.len() implies (#[trigger] kept[i]).name@ != name
            && scenes.contains(kept[i]) by {
            if i < before.len() {
                assert(kept[i] == before[i]);
                assert(short.contains(before[i]));
            }
        }
        assert forall|i: int| 0 <= i < scenes.len() && (#[trigger] scenes[i]).name@
            != name implies kept.contains(scenes[i]) by {
            if i < short.len() {
                assert(short[i] == scenes[i]);
                let k = choose|k: int| 0 <= k < before.len() && before[k] == short[i];
                assert(kept[k] == scenes[i]);
            } else {
                assert(kept[before.len() as int] == last);
            }
        }
        if distinct(scenes) {
            assert(distinct(short)) by {
                assert forall|i: int, j: int| 0 <= i < j < short.len() implies (
                #[trigger] short[i]).name@ != (#[trigger] short[j]).name@ by {
                    assert(scenes[i].name@ != scenes[j].name@);
                }
            }
            assert forall|i: int, j: int| 0 <= i < j < kept.len() implies (
            #[trigger] kept[i]).name@ != (#[trigger] kept[j]).name@ by {
                if j < before.len() {
                    assert(kept[i] == before[i] && kept[j] == before[j]);
                } else {
                    assert(short.contains(before[i]));
                    let k = choose|k: int| 0 <= k < short.len() && short[k] == before[i];
                    assert(scenes[k].name@ != scenes[scenes.len() - 1].name@);
                }
            }
        }
    }
}

/// Removing a name leaves no preset of that name, keeps every other preset, and adds
/// none.
pub proof fn law_remove(scenes: Seq<Scene>, name: Seq<char>)
    ensures
        !is_saved(without(scenes, name), name),
        forall|s: Scene|
            #![trigger without(scenes, name).contains(s)]
            without(scenes, name).contains(s) <==> scenes.contains(s) && s.name@ != name,
        distinct(scenes) ==> distinct(without(scenes, name)),
{
    let kept = without(scenes, name);
    lemma_without(scenes, name);
    lemma_position(kept, name);
    if is_saved(kept, name) {
        assert(kept[position(kept, name) as int].name@ != name);
    }
    assert forall|s: Scene|
        #![trigger kept.contains(s)]
        kept.contains(s) <==> scenes.contains(s) && s.name@ != name by {
        if kept.contains(s) {
            let k = choose|k: int| 0 <= k < kept.len() && kept[k] == s;
            assert(kept[k].name@ != name);
        }
        if scenes.contains(s) && s.name@ != name {
            let k = choose|k: int| 0 <= k < scenes.len() && scenes[k] == s;
            assert(kept.contains(scenes[k]));
        }
    }
}

/// The presets card marks exactly one row where the active preset is saved, and none
/// where no preset is active.
pub proof fn law_one_active_row(scenes: Seq<Scene>, active: Option<Seq<char>>, i: int)
    requires
        distinct(scenes),
        0 <= i < scenes.len(),
    ensures
        spec_rows(scenes, active)[i].1 <==> active is Some && is_saved(scenes, active->0) && i
            == position(scenes, active->0),
{
    if let Some(name) = active {
        lemma_position(scenes, name);
        let p = position(scenes, name) as int;
        if scenes[i].name@ == name {
            if i < p {
                assert(scenes[i].name@ != name);
            } else if p < i {
                assert(scenes[p].name@ != scenes[i].name@);
            }
        }
    }
}

/// Trimming keeps a run of the characters.
proof fn lemma_trim(s: Seq<char>) -> (cut: (int, int))
    ensures
        0 <= cut.0 <= cut.1 <= s.len(),
        text::spec_trim(s) == s.subrange(cut.0, cut.1),
        text::spec_trim(s).len() > 0 ==> !text::is_whitespace(text::spec_trim(s)[0])
            && !text::is_whitespace(text::spec_trim(s).last()),
{
    let from = lemma_trim_start(s);
    let t = text::spec_trim_start(s);
    let to = lemma_trim_end(t);
    assert(text::spec_trim(s) =~= s.subrange(from, from + to));
    if to > 0 {
        assert(text::spec_trim(s)[0] == t[0]);
    }
    (from, from + to)
}

/// Trimming at the start drops a run of characters.
proof fn lemma_trim_start(s: Seq<char>) -> (from: int)
    ensures
        0 <= from <= s.len(),
        text::spec_trim_start(s) == s.skip(from),
        text::spec_trim_start(s).len() > 0 ==> !text::is_whitespace(text::spec_trim_start(s)[0]),
    decreases s.len(),
{
    if s.len() > 0 && text::is_whitespace(s[0]) {
        let from = lemma_trim_start(s.drop_first());
        assert(s.drop_first().skip(from) =~= s.skip(from + 1));
        from + 1
    } else {
        assert(s.skip(0) =~= s);
        0
    }
}

/// Trimming at the end drops a run of characters.
proof fn lemma_trim_end(s: Seq<char>) -> (to: int)
    ensures
        0 <= to <= s.len(),
        text::spec_trim_end(s) == s.take(to),
        text::spec_trim_end(s).len() > 0 ==> !text::is_whitespace(text::spec_trim_end(s).last()),
    decreases s.len(),
{
    if s.len() > 0 && text::is_whitespace(s.last()) {
        let to = lemma_trim_end(s.drop_last());
        assert(s.drop_last().take(to) =~= s.take(to));
        to
    } else {
        assert(s.take(s.len() as int) =~= s);
        s.len() as int
    }
}

/// Whatever a user types, the name that is saved holds only characters that cannot
/// break the attribute it stands in, does not start with whitespace, and is not
/// longer than the limit.
pub proof fn law_name_safe(raw: Seq<char>)
    ensures
        ({
            let name = preset::spec_sanitize_name(raw);
            &&& name.len() <= preset::NAME_LIMIT
            &&& forall|i: int| 0 <= i < name.len() ==> preset::name_char(#[trigger] name[i])
            &&& name.len() > 0 ==> !text::is_whitespace(name[0])
        }),
{
    let keep = |c: char| preset::name_char(c);
    let kept = raw.filter(keep);
    let cut = lemma_trim(kept);
    let name = preset::spec_sanitize_name(raw);
    assert forall|i: int| 0 <= i < name.len() implies preset::name_char(#[trigger] name[i]) by {
        assert(name[i] == kept[cut.0 + i]);
        assert(keep(kept[cut.0 + i]));
    }
}

/// A name that already is one that can be saved is saved as it is.
pub proof fn law_name_kept(name: Seq<char>)
    requires
        name.len() <= preset::NAME_LIMIT,
        forall|i: int| 0 <= i < name.len() ==> preset::name_char(#[trigger] name[i]),
        name.len() > 0 ==> !text::is_whitespace(name[0]) && !text::is_whitespace(name.last()),
    ensures
        preset::spec_sanitize_name(name) == name,
{
    text::lemma_filter_all(name, |c: char| preset::name_char(c));
}

/// The theme that a user selects is the one shown on the next visit: the pair that
/// the cookie sets, sent back, selects the same theme. A name with a semicolon would
/// end the pair.
pub proof fn law_theme_remembered(themes: Themes, name: Seq<char>)
    requires
        themes.list@.len() > 0,
        !themes.spec_lookup(name).name@.contains(';'),
    ensures
        themes.spec_selected("theme="@ + themes.spec_lookup(name).name@) == themes.spec_lookup(
            name,
        ),
{
    law_lookup(themes, name);
    let theme = themes.spec_lookup(name);
    assert(themes.spec_lookup(theme.name@) == theme);
    reveal_strlit("theme=");
    let pair = "theme="@ + theme.name@;
    assert(!pair.contains(';')) by {
        if pair.contains(';') {
            let i = choose|i: int| 0 <= i < pair.len() && pair[i] == ';';
            if i >= 6 {
                assert(pair[i] == theme.name@[i - 6]);
            }
        }
    }
    lemma_split_one(pair, ';');
    let pairs = seq![pair];
    assert(pairs[0] == pair);
    assert(pair[0] == 't');
    assert(text::spec_trim_start(pair) == pair);
    assert("theme="@.is_prefix_of(pair));
    assert(pair.skip(6) =~= theme.name@);
    assert(theme_value(pairs) == Some(theme.name@));
}

} // verus!
