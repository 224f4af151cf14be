//! What each request on an AC unit comes to, by what it says and by the state it meets.

use vstd::prelude::*;
use crate::manager::command::{AcControlReq, AcMode, AcPower, Command, FanSpeed};
use crate::manager::snapshot::{AcView, Temperature, ZonePowerView, ZoneView};
use crate::manager::values;
use crate::web::error::{debug_text, AppError};
use crate::web::handlers::ac;
use crate::web::handlers::laws::{lemma_says, lemma_words, refuses, says, sends};
use crate::web::interaction::{Answer, Interaction};
use crate::web::state::AppState;

verus! {

/// Whether a request on one AC unit sends it one request and nothing else.
pub open spec fn asks_ac(r: Result<Interaction, AppError>, id: u8, req: AcControlReq) -> bool {
    sends(r, Command::ControlAc { id, req }, Answer::Ac(id))
}

/// Whether the status of an AC unit says that it runs.
pub open spec fn says_running(ac: AcView) -> bool {
    ac.status matches Some(s) && (s.power matches Some(p) && (p@ == "On"@ || p@ == "Sleep"@ || p@
        == "AwayOff"@ || p@ == "AwayOn"@))
}

/// Whether some zone of an AC unit is not off.
pub open spec fn lets_air(zones: Map<u8, ZoneView>, ac: u8) -> bool {
    exists|z: u8| #[trigger]
        zones.contains_key(z) && zones[z].ac_id == Some(ac) && zones[z].power != ZonePowerView::Off
}

/// A request for an AC unit's power that is not refused sends the power that its word
/// names, whatever the unit is doing. Only starting a known unit with every zone of it
/// off is refused, by `on`, or by `toggle` where its status does not say that it runs;
/// `off`, `away` and `sleep` never are.
pub proof fn law_ac_power(
    state: AppState,
    id: u8,
    form: Vec<(String, String)>,
    word: Seq<char>,
    r: Result<Interaction, AppError>,
)
    requires
        call_ensures(ac::power, (&state, id, &form), r),
        says(form@, "power"@, word),
    ensures
        ({
            let acs = state.manager.snapshot.acs@;
            let zones = state.manager.snapshot.zones@;
            let shut = acs.contains_key(id) && !lets_air(zones, id);
            let stuck = shut && !says_running(acs[id]);
            &&& word == "off"@ ==> asks_ac(r, id, AcControlReq::Power(AcPower::Off))
            &&& word == "away"@ ==> asks_ac(r, id, AcControlReq::Power(AcPower::Away))
            &&& word == "sleep"@ ==> asks_ac(r, id, AcControlReq::Power(AcPower::Sleep))
            &&& word == "on"@ && !shut ==> asks_ac(r, id, AcControlReq::Power(AcPower::On))
            &&& word == "toggle"@ && !stuck ==> asks_ac(
                r,
                id,
                AcControlReq::Power(AcPower::Toggle),
            )
            &&& word == "on"@ && shut || word == "toggle"@ && stuck ==> refuses(
                r,
                "turn on at least one zone for this AC before starting it"@,
            )
            &&& word != "on"@ && word != "off"@ && word != "away"@ && word != "sleep"@ && word
                != "toggle"@ ==> refuses(r, "unknown "@ + "power"@ + ": "@ + debug_text(word))
        }),
{
    lemma_says(form@, "power"@, word);
    lemma_words();
    let snap = *state.manager.snapshot;
    assert((exists|z: u8| snap.open_zone(id, z)) == lets_air(snap.zones@, id)) by {
        if exists|z: u8| snap.open_zone(id, z) {
            let z = choose|z: u8| snap.open_zone(id, z);
            assert(snap.zones@.contains_key(z));
        }
        if lets_air(snap.zones@, id) {
            let z = choose|z: u8| #[trigger]
                snap.zones@.contains_key(z) && snap.zones@[z].ac_id == Some(id)
                    && snap.zones@[z].power != ZonePowerView::Off;
            assert(snap.open_zone(id, z));
        }
    }
}

/// The words for modes and fan speeds, told apart.
pub(crate) proof fn lemma_mode_words()
    ensures
        "auto"@ != "heat"@,
        "auto"@ != "dry"@,
        "auto"@ != "fan"@,
        "auto"@ != "cool"@,
        "heat"@ != "dry"@,
        "heat"@ != "fan"@,
        "heat"@ != "cool"@,
        "dry"@ != "fan"@,
        "dry"@ != "cool"@,
        "fan"@ != "cool"@,
{
    reveal_strlit("auto");
    reveal_strlit("heat");
    reveal_strlit("dry");
    reveal_strlit("fan");
    reveal_strlit("cool");
    assert("auto"@[0] == 'a' && "heat"@[0] == 'h' && "dry"@[0] == 'd' && "fan"@[0] == 'f'
        && "cool"@[0] == 'c');
}

/// The words for fan speeds, told apart.
pub(crate) proof fn lemma_fan_words()
    ensures
        "auto"@ != "quiet"@,
        "auto"@ != "low"@,
        "auto"@ != "medium"@,
        "auto"@ != "high"@,
        "auto"@ != "powerful"@,
        "auto"@ != "turbo"@,
        "auto"@ != "intelligentauto"@,
        "quiet"@ != "low"@,
        "quiet"@ != "medium"@,
        "quiet"@ != "high"@,
        "quiet"@ != "powerful"@,
        "quiet"@ != "turbo"@,
        "quiet"@ != "intelligentauto"@,
        "low"@ != "medium"@,
        "low"@ != "high"@,
        "low"@ != "powerful"@,
        "low"@ != "turbo"@,
        "low"@ != "intelligentauto"@,
        "medium"@ != "high"@,
        "medium"@ != "powerful"@,
        "medium"@ != "turbo"@,
        "medium"@ != "intelligentauto"@,
        "high"@ != "powerful"@,
        "high"@ != "turbo"@,
        "high"@ != "intelligentauto"@,
        "powerful"@ != "turbo"@,
        "powerful"@ != "intelligentauto"@,
        "turbo"@ != "intelligentauto"@,
{
    reveal_strlit("auto");
    reveal_strlit("quiet");
    reveal_strlit("low");
    reveal_strlit("medium");
    reveal_strlit("high");
    reveal_strlit("powerful");
    reveal_strlit("turbo");
    reveal_strlit("intelligentauto");
    assert("auto"@[0] == 'a' && "quiet"@[0] == 'q' && "low"@[0] == 'l' && "medium"@[0] == 'm'
        && "high"@[0] == 'h' && "powerful"@[0] == 'p' && "turbo"@[0] == 't'
        && "intelligentauto"@[0] == 'i');
}

/// A word names one operating mode, or none.
pub proof fn law_mode_words(word: &str, r: Option<AcMode>)
    requires
        call_ensures(ac::slug_to_mode, (word,), r),
    ensures
        r == Some(AcMode::Auto) <==> word@ == "auto"@,
        r == Some(AcMode::Heat) <==> word@ == "heat"@,
        r == Some(AcMode::Dry) <==> word@ == "dry"@,
        r == Some(AcMode::Fan) <==> word@ == "fan"@,
        r == Some(AcMode::Cool) <==> word@ == "cool"@,
{
    lemma_mode_words();
}

/// A word names one fan speed, or none.
pub proof fn law_fan_words(word: &str, r: Option<FanSpeed>)
    requires
        call_ensures(ac::slug_to_fan, (word,), r),
    ensures
        r == Some(FanSpeed::Auto) <==> word@ == "auto"@,
        r == Some(FanSpeed::Quiet) <==> word@ == "quiet"@,
        r == Some(FanSpeed::Low) <==> word@ == "low"@,
        r == Some(FanSpeed::Medium) <==> word@ == "medium"@,
        r == Some(FanSpeed::High) <==> word@ == "high"@,
        r == Some(FanSpeed::Powerful) <==> word@ == "powerful"@,
        r == Some(FanSpeed::Turbo) <==> word@ == "turbo"@,
        r == Some(FanSpeed::IntelligentAuto) <==> word@ == "intelligentauto"@,
{
    lemma_fan_words();
}

/// A request for an AC unit's mode sends the mode that its word names, and is refused
/// where it names none.
pub proof fn law_ac_mode(
    id: u8,
    form: Vec<(String, String)>,
    word: Seq<char>,
    r: Result<Interaction, AppError>,
)
    requires
        call_ensures(ac::mode, (id, &form), r),
        says(form@, "mode"@, word),
    ensures
        word == "auto"@ ==> asks_ac(r, id, AcControlReq::Mode(AcMode::Auto)),
        word == "heat"@ ==> asks_ac(r, id, AcControlReq::Mode(AcMode::Heat)),
        word == "dry"@ ==> asks_ac(r, id, AcControlReq::Mode(AcMode::Dry)),
        word == "fan"@ ==> asks_ac(r, id, AcControlReq::Mode(AcMode::Fan)),
        word == "cool"@ ==> asks_ac(r, id, AcControlReq::Mode(AcMode::Cool)),
        word != "auto"@ && word != "heat"@ && word != "dry"@ && word != "fan"@ && word != "cool"@
            ==> refuses(r, "unknown "@ + "mode"@ + ": "@ + debug_text(word)),
{
    lemma_says(form@, "mode"@, word);
    lemma_mode_words();
}

/// A request for an AC unit's fan speed sends the speed that its word names, and is
/// refused where it names none.
pub proof fn law_ac_fan(
    id: u8,
    form: Vec<(String, String)>,
    word: Seq<char>,
    r: Result<Interaction, AppError>,
)
    requires
        call_ensures(ac::fan, (id, &form), r),
        says(form@, "fan"@, word),
    ensures
        word == "auto"@ ==> asks_ac(r, id, AcControlReq::FanSpeed(FanSpeed::Auto)),
        word == "quiet"@ ==> asks_ac(r, id, AcControlReq::FanSpeed(FanSpeed::Quiet)),
        word == "low"@ ==> asks_ac(r, id, AcControlReq::FanSpeed(FanSpeed::Low)),
        word == "medium"@ ==> asks_ac(r, id, AcControlReq::FanSpeed(FanSpeed::Medium)),
        word == "high"@ ==> asks_ac(r, id, AcControlReq::FanSpeed(FanSpeed::High)),
        word == "powerful"@ ==> asks_ac(r, id, AcControlReq::FanSpeed(FanSpeed::Powerful)),
        word == "turbo"@ ==> asks_ac(r, id, AcControlReq::FanSpeed(FanSpeed::Turbo)),
        word == "intelligentauto"@ ==> asks_ac(
            r,
            id,
            AcControlReq::FanSpeed(FanSpeed::IntelligentAuto),
        ),
        word != "auto"@ && word != "quiet"@ && word != "low"@ && word != "medium"@ && word
            != "high"@ && word != "powerful"@ && word != "turbo"@ && word != "intelligentauto"@
            ==> refuses(r, "unknown "@ + "fan"@ + ": "@ + debug_text(word)),
{
    lemma_says(form@, "fan"@, word);
    lemma_fan_words();
}

/// Whether a unit's ranges, in whole degrees, hold a temperature in tenths: that for
/// cooling or that for heating, ends included.
pub open spec fn in_ranges(ac: AcView, deci: int) -> bool {
    ||| ac.setpoint_cool.0 * 10 <= deci && deci <= ac.setpoint_cool.1 * 10
    ||| ac.setpoint_heat.0 * 10 <= deci && deci <= ac.setpoint_heat.1 * 10
}

/// What a request for an AC unit's setpoint comes to, by what its text reads as: that
/// temperature, where it is one of 10.0 to 25.0 degrees and the unit, if it is known,
/// has it in a range.
pub open spec fn setpoint_sent(
    state: AppState,
    id: u8,
    value: Seq<char>,
    read: Option<i16>,
    r: Result<Interaction, AppError>,
) -> bool {
    let acs = state.manager.snapshot.acs@;
    let good = read is Some && 100 <= read->0 <= 250;
    let fits = !acs.contains_key(id) || in_ranges(acs[id], read->0 as int);
    &&& good && fits ==> asks_ac(r, id, AcControlReq::Setpoint(Temperature { deci: read->0 }))
    &&& good && !fits ==> refuses(r, "setpoint is outside the range of this AC"@)
    &&& !good ==> refuses(r, "invalid setpoint: "@ + debug_text(value))
}

/// A request for an AC unit's setpoint sends the temperature that its text reads as, or
/// is refused. Degrees written in digits, with one decimal or none, read as what they
/// say, and an empty text as none.
pub proof fn law_ac_setpoint(
    state: AppState,
    id: u8,
    form: Vec<(String, String)>,
    word: Seq<char>,
    r: Result<Interaction, AppError>,
)
    requires
        call_ensures(ac::setpoint, (&state, id, &form), r),
        says(form@, "temp"@, word),
    ensures
        setpoint_sent(state, id, word, values::read_deci(word), r),
        values::spec_tenths(word) is Some ==> setpoint_sent(
            state,
            id,
            word,
            values::spec_tenths(word),
            r,
        ),
        word.len() == 0 ==> r is Err,
{
    lemma_says(form@, "temp"@, word);
}

/// The same of what a text was read as, whatever that is.
pub proof fn law_ac_setpoint_read(
    state: AppState,
    id: u8,
    value: &str,
    read: Option<i16>,
    r: Result<Interaction, AppError>,
)
    requires
        call_ensures(ac::setpoint_read, (&state, id, value, read), r),
    ensures
        setpoint_sent(state, id, value@, read, r),
{
}

} // verus!
