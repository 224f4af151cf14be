//! What pages, cards and answers show, and what saving a preset keeps.

use axum::http::HeaderValue;
use vstd::prelude::*;
use crate::manager::command::{settle, Command, Reply};
use crate::manager::snapshot::AcView;
use crate::scenes::{
    is_saved, lemma_position, position, upserted, Scene, SceneAc, SceneConfig,
    SceneZone,
};
use crate::templates::{
    opt_name, rows, spec_rows, AcsTemplate, AutomationTemplate, Fragment, IndexTemplate, PresetRow,
    PresetsTemplate, SystemTemplate, ZonesTemplate,
};
use crate::text;
use crate::text_laws::{law_trim, lemma_trim_start, trimmed_to};
use crate::web::error::AppError;
use crate::web::handlers::laws::{lemma_says, says};
use crate::web::handlers::pages;
use crate::web::handlers::preset;
use crate::web::handlers::{ac, zone};
use crate::web::interaction::{render_answer, Answer, Interaction};
use crate::web::state::AppState;
use crate::web::theme;
use crate::web::theme::{
    header_char, header_of, header_text, named, theme_value, Theme, Themes,
};

verus! {

/// Whether rows show the presets of a state: one for each, in order, under its name,
/// marked where that is the name of the active one.
pub open spec fn shows_presets(state: AppState, list: Seq<PresetRow>, has_active: bool) -> bool {
    let scenes = state.scenes.config.scenes@;
    &&& list.len() == scenes.len()
    &&& forall|i: int|
        0 <= i < list.len() ==> (#[trigger] list[i]).name@ == scenes[i].name@ && (list[i].active
            <==> state.scenes.active is Some && state.scenes.active->0@ == scenes[i].name@)
    &&& has_active == state.scenes.active is Some
}

/// Rows that hold what a state's presets come to show them.
proof fn lemma_shows(state: AppState, list: Seq<PresetRow>, has_active: bool)
    requires
        rows(list) == spec_rows(state.scenes.config.scenes@, opt_name(state.scenes.active)),
        has_active == state.scenes.active is Some,
    ensures
        shows_presets(state, list, has_active),
{
    let all = spec_rows(state.scenes.config.scenes@, opt_name(state.scenes.active));
    assert(rows(list).len() == list.len());
    assert(all.len() == state.scenes.config.scenes@.len());
    assert forall|i: int| 0 <= i < list.len() implies (#[trigger] list[i]).name@
        == state.scenes.config.scenes@[i].name@ && (list[i].active <==> state.scenes.active is Some
        && state.scenes.active->0@ == state.scenes.config.scenes@[i].name@) by {
        assert(rows(list)[i] == all[i]);
    }
}

/// The presets card shows the presets.
pub proof fn law_presets_card(state: AppState, r: PresetsTemplate)
    requires
        call_ensures(preset::partial_presets, (&state,), r),
    ensures
        shows_presets(state, r.presets@, r.has_active),
{
    lemma_shows(state, r.presets@, r.has_active);
}

/// Whether a result is what a request is answered with: the row or the card asked for
/// as the state holds it, or the message that there is none.
pub open spec fn gives(state: AppState, answer: Answer, r: Result<Fragment, AppError>) -> bool {
    let snap = *state.manager.snapshot;
    match answer {
        Answer::Zone(id) => {
            &&& snap.zones@.contains_key(id) ==> (r matches Ok(Fragment::Zone(t)) && *t.zone
                == snap.zones@[id])
            &&& !snap.zones@.contains_key(id) ==> (r matches Err(e) && e.message@ == "zone"@ + " "@
                + text::spec_decimal(id as nat) + " not found"@)
        },
        Answer::Ac(id) => {
            &&& snap.acs@.contains_key(id) ==> (r matches Ok(Fragment::Ac(t)) && *t.ac
                == snap.acs@[id])
            &&& !snap.acs@.contains_key(id) ==> (r matches Err(e) && e.message@ == "ac"@ + " "@
                + text::spec_decimal(id as nat) + " not found"@)
        },
        Answer::Zones(Some(mode)) => r matches Ok(Fragment::Zones(t)) && *t.snapshot == snap
            && t.bulk_mode == mode,
        Answer::Zones(None) => r matches Ok(Fragment::Zones(t)) && *t.snapshot == snap
            && t.bulk_mode == snap.bulk_mode,
        Answer::System => r matches Ok(Fragment::System(t)) && *t.snapshot == snap,
        Answer::Presets => r matches Ok(Fragment::Presets(t)) && shows_presets(
            state,
            t.presets@,
            t.has_active,
        ),
    }
}

/// A request is answered with what it asked to be shown, as the state holds it.
pub proof fn law_answer(state: AppState, answer: Answer, r: Result<Fragment, AppError>)
    requires
        call_ensures(render_answer, (&state, answer), r),
    ensures
        gives(state, answer, r),
{
    if answer == Answer::Presets {
        match r {
            Ok(Fragment::Presets(t)) => {
                lemma_shows(state, t.presets@, t.has_active);
            },
            _ => {},
        }
    }
}

/// A control request that is through is answered with what it asked to be shown.
pub proof fn law_respond(
    interaction: Interaction,
    state: AppState,
    r: Result<Fragment, AppError>,
)
    requires
        call_ensures(Interaction::respond, (&interaction, &state), r),
    ensures
        gives(state, interaction.answer, r),
{
    if interaction.answer == Answer::Presets {
        match r {
            Ok(Fragment::Presets(t)) => {
                lemma_shows(state, t.presets@, t.has_active);
            },
            _ => {},
        }
    }
}

/// Each row and each card asked for by its id is the one of that id.
pub proof fn law_by_id(state: AppState, id: u8, r: Result<Fragment, AppError>)
    ensures
        call_ensures(zone::render_current_zone, (&state, id), r) ==> gives(
            state,
            Answer::Zone(id),
            r,
        ),
        call_ensures(pages::partial_zone, (&state, id), r) ==> gives(state, Answer::Zone(id), r),
        call_ensures(ac::render_current_ac, (&state, id), r) ==> gives(state, Answer::Ac(id), r),
        call_ensures(pages::partial_ac, (&state, id), r) ==> gives(state, Answer::Ac(id), r),
{
}

/// The cards that show the state as a whole show it as it is.
pub proof fn law_cards(
    state: AppState,
    system: SystemTemplate,
    acs: AcsTemplate,
    zones: ZonesTemplate,
    automation: AutomationTemplate,
)
    requires
        call_ensures(pages::partial_system, (&state,), system),
        call_ensures(pages::partial_acs, (&state,), acs),
        call_ensures(pages::partial_zones, (&state,), zones),
        call_ensures(pages::partial_automation, (&state,), automation),
    ensures
        *system.snapshot == *state.manager.snapshot,
        *acs.snapshot == *state.manager.snapshot,
        *zones.snapshot == *state.manager.snapshot,
        zones.bulk_mode == state.manager.snapshot.bulk_mode,
        *automation.config == state.automation.config,
        *automation.status == state.automation.setpoint_off,
        *automation.idle == state.automation.idle_off,
{
}

/// Pulling the status again sends one command, and is answered with the console card.
pub proof fn law_refresh(r: Interaction)
    requires
        call_ensures(pages::refresh, (), r),
    ensures
        r.commands@.len() == 1,
        r.commands@[0] == Command::Refresh,
        r.done == 0,
        r.answer == Answer::System,
{
}

/// A request hands out the first command that was not carried out yet, as long as there
/// is one.
pub proof fn law_next(interaction: Interaction, r: Option<Command>)
    requires
        call_ensures(Interaction::next, (&interaction,), r),
    ensures
        interaction.done < interaction.commands@.len() ==> r == Some(
            interaction.commands@[interaction.done as int],
        ),
        interaction.done >= interaction.commands@.len() ==> r is None,
{
}

/// A command that was carried out settles well; any other settles with a message of its
/// own.
pub proof fn law_settle(reply: Reply, r: Result<(), AppError>)
    requires
        call_ensures(settle, (reply,), r),
    ensures
        reply is Done <==> r is Ok,
        reply is Stopped ==> r->Err_0.message@ == "manager stopped"@,
        reply is Dropped ==> r->Err_0.message@ == "manager dropped reply"@,
        reply is Rejected ==> r->Err_0.message@ == reply->Rejected_0@,
{
}

/// A request starts with all of its commands still to be sent.
pub proof fn law_start(commands: Vec<Command>, answer: Answer, r: Interaction)
    requires
        call_ensures(Interaction::start, (commands, answer), r),
    ensures
        r.commands@ == commands@,
        r.answer == answer,
        r.done == 0,
{
}

/// Every refusal has the same status, and the message that it was made with.
pub proof fn law_refusal(message: &str, e: AppError, status: u16)
    requires
        call_ensures(AppError::msg, (message,), e),
        call_ensures(AppError::status, (&e,), status),
    ensures
        e.message@ == message@,
        status == 422,
{
}

/// The power of an AC unit is what its status says, if it has one.
pub proof fn law_ac_status_power(ac: AcView, r: Option<&'static str>)
    requires
        call_ensures(AcView::power, (&ac,), r),
    ensures
        ac.status is None ==> r is None,
        ac.status is Some ==> r == ac.status->0.power,
{
}

/// Whether a theme is what a list has under a name: the first of that name, or the first
/// of all where none has it.
pub open spec fn picked(list: Seq<Theme>, name: Seq<char>, theme: Theme) -> bool {
    ||| exists|k: int|
        0 <= k < list.len() && theme == #[trigger] list[k] && list[k].name@ == name && forall|j: int|
            0 <= j < k ==> (#[trigger] list[j]).name@ != name
    ||| theme == list[0] && forall|j: int| 0 <= j < list.len() ==> (#[trigger] list[j]).name@
        != name
}

/// What is found under a name is the first of that name.
proof fn lemma_picked(list: Seq<Theme>, name: Seq<char>)
    ensures
        named(list, name) matches Some(theme) ==> exists|k: int|
            0 <= k < list.len() && theme == #[trigger] list[k] && list[k].name@ == name && forall|
                j: int,
            |
                0 <= j < k ==> (#[trigger] list[j]).name@ != name,
        named(list, name) is None ==> forall|j: int|
            0 <= j < list.len() ==> (#[trigger] list[j]).name@ != name,
    decreases list.len(),
{
    if list.len() > 0 && list[0].name@ != name {
        let rest = list.drop_first();
        lemma_picked(rest, name);
        if let Some(theme) = named(rest, name) {
            let k = choose|k: int|
                0 <= k < rest.len() && theme == #[trigger] rest[k] && rest[k].name@ == name
                    && forall|j: int| 0 <= j < k ==> (#[trigger] rest[j]).name@ != name;
            assert(list[k + 1] == theme);
            assert forall|j: int| 0 <= j < k + 1 implies (#[trigger] list[j]).name@ != name by {
                if j > 0 {
                    assert(rest[j - 1] == list[j]);
                }
            }
        } else {
            assert forall|j: int| 0 <= j < list.len() implies (#[trigger] list[j]).name@ != name by {
                if j > 0 {
                    assert(rest[j - 1] == list[j]);
                }
            }
        }
    } else if list.len() > 0 {
        assert(list[0] == named(list, name)->0);
    }
}

/// Looking a theme up gives the first of that name, or the first of all.
pub proof fn law_theme_lookup(themes: Themes, name: &str, r: &Theme)
    requires
        call_ensures(Themes::lookup, (&themes, name), r),
    ensures
        picked(themes.list@, name@, *r),
{
    lemma_picked(themes.list@, name@);
}

/// Setting a theme sets a cookie that holds for the whole site and for a year, with the
/// name of the theme asked for, or of the first where there is none of that name.
pub proof fn law_set_theme(
    themes: Themes,
    form: Vec<(String, String)>,
    word: Seq<char>,
    r: HeaderValue,
)
    requires
        call_ensures(pages::set_theme, (&themes, &form), r),
        says(form@, "name"@, word),
    ensures
        exists|theme: Theme|
            #[trigger] picked(themes.list@, word, theme) && r == header_of(
                "theme="@ + theme.name@ + "; Path=/; Max-Age=31536000; SameSite=Lax"@,
            ),
{
    lemma_says(form@, "name"@, word);
    lemma_picked(themes.list@, word);
    assert(picked(themes.list@, word, themes.spec_lookup(word)));
}

/// The themes can be used where there is one, and no name holds a control code of ASCII
/// other than the tab.
pub proof fn law_themes_valid(themes: Themes, r: bool)
    requires
        call_ensures(Themes::valid, (&themes,), r),
    ensures
        r <==> themes.list@.len() > 0 && forall|i: int|
            0 <= i < themes.list@.len() ==> plain_name((#[trigger] themes.list@[i]).name@),
{
    assert forall|name: Seq<char>| #[trigger] plain_name(name) <==> header_text(name) by {
        if plain_name(name) {
            assert forall|i: int| 0 <= i < name.len() implies header_char(#[trigger] name[i]) by {}
        }
        if header_text(name) {
            assert forall|i: int| 0 <= i < name.len() implies (#[trigger] name[i]) as int == 9 || (
            name[i] as int >= 32 && name[i] as int != 127) by {
                assert(header_char(name[i]));
            }
        }
    }
}

/// Whether a name holds no control code of ASCII other than the tab.
pub open spec fn plain_name(name: Seq<char>) -> bool {
    forall|i: int|
        0 <= i < name.len() ==> (#[trigger] name[i]) as int == 9 || (name[i] as int >= 32
            && name[i] as int != 127)
}

/// The cookie of a theme holds its name, for the whole site and for a year.
pub proof fn law_cookie(theme: Theme, r: HeaderValue)
    requires
        call_ensures(theme::cookie, (&theme,), r),
    ensures
        r == header_of("theme="@ + theme.name@ + "; Path=/; Max-Age=31536000; SameSite=Lax"@),
{
}

/// Whether a pair of a cookie header is that of the theme, with this value: behind
/// whitespace or none, `theme=` and the value.
pub open spec fn theme_pair(pair: Seq<char>, value: Seq<char>) -> bool {
    exists|a: int|
        0 <= a <= pair.len() && #[trigger] pair.skip(a) == "theme="@ + value && forall|i: int|
            0 <= i < a ==> text::is_whitespace(#[trigger] pair[i])
}

/// A pair is that of the theme where it starts so behind its whitespace.
proof fn lemma_theme_pair(pair: Seq<char>, value: Seq<char>)
    ensures
        theme_pair(pair, value) <==> "theme="@.is_prefix_of(text::spec_trim_start(pair)) && value
            == text::spec_trim_start(pair).skip("theme="@.len() as int),
{
    let from = lemma_trim_start(pair);
    let t = text::spec_trim_start(pair);
    let head = "theme="@;
    reveal_strlit("theme=");
    if theme_pair(pair, value) {
        let a = choose|a: int|
            0 <= a <= pair.len() && #[trigger] pair.skip(a) == head + value && forall|i: int|
                0 <= i < a ==> text::is_whitespace(#[trigger] pair[i]);
        assert(pair.skip(a).len() == pair.len() - a);
        assert((head + value).len() == head.len() + value.len());
        assert((head + value)[0] == head[0]);
        assert(pair[a] == pair.skip(a)[0]);
        if from < a {
            assert(text::is_whitespace(pair[from]));
        }
        assert(a == from);
        assert(head =~= t.take(head.len() as int));
        assert(value =~= t.skip(head.len() as int));
    }
    if head.is_prefix_of(t) && value == t.skip(head.len() as int) {
        assert(t =~= head + value);
        assert(pair.skip(from) == head + value);
    }
}

/// The value that the pairs of a cookie header give the theme is that of the first pair
/// of the theme.
proof fn lemma_theme_value(pairs: Seq<Seq<char>>)
    ensures
        theme_value(pairs) matches Some(v) ==> exists|k: int|
            0 <= k < pairs.len() && theme_pair(#[trigger] pairs[k], v) && forall|j: int, w: Seq<char>|
                0 <= j < k ==> !#[trigger] theme_pair(pairs[j], w),
        theme_value(pairs) is None ==> forall|j: int, w: Seq<char>|
            0 <= j < pairs.len() ==> !#[trigger] theme_pair(pairs[j], w),
    decreases pairs.len(),
{
    if pairs.len() > 0 {
        let pair = pairs[0];
        let t = text::spec_trim_start(pair);
        assert forall|w: Seq<char>| #[trigger] theme_pair(pair, w) implies "theme="@.is_prefix_of(
            t,
        ) by {
            lemma_theme_pair(pair, w);
        }
        if "theme="@.is_prefix_of(t) {
            lemma_theme_pair(pair, t.skip("theme="@.len() as int));
            assert(theme_pair(pairs[0], theme_value(pairs)->0));
        } else {
            let rest = pairs.drop_first();
            lemma_theme_value(rest);
            if let Some(v) = theme_value(rest) {
                let k = choose|k: int|
                    0 <= k < rest.len() && theme_pair(#[trigger] rest[k], v) && forall|
                        j: int,
                        w: Seq<char>,
                    |
                        0 <= j < k ==> !#[trigger] theme_pair(rest[j], w);
                assert(theme_pair(pairs[k + 1], v));
                assert forall|j: int, w: Seq<char>| 0 <= j < k + 1 implies !#[trigger] theme_pair(
                    pairs[j],
                    w,
                ) by {
                    if j > 0 {
                        assert(!theme_pair(rest[j - 1], w));
                    }
                }
            } else {
                assert forall|j: int, w: Seq<char>| 0 <= j < pairs.len() implies !#[trigger] theme_pair(
                    pairs[j],
                    w,
                ) by {
                    if j > 0 {
                        assert(!theme_pair(rest[j - 1], w));
                    }
                }
            }
        }
    }
}

/// Whether a theme is the one that a cookie header selects: the one under the value of
/// its first pair of the theme, or the first of all where it has no such pair.
pub open spec fn selects(themes: Themes, header: Seq<char>, theme: Theme) -> bool {
    let pairs = text::spec_split(header, ';');
    ||| exists|k: int, v: Seq<char>|
        0 <= k < pairs.len() && #[trigger] theme_pair(pairs[k], v) && picked(
            themes.list@,
            v,
            theme,
        ) && forall|j: int, w: Seq<char>| 0 <= j < k ==> !#[trigger] theme_pair(pairs[j], w)
    ||| theme == themes.list@[0] && forall|j: int, w: Seq<char>|
        0 <= j < pairs.len() ==> !#[trigger] theme_pair(pairs[j], w)
}

/// A cookie header selects a theme by its first pair of the theme.
proof fn lemma_selects(themes: Themes, header: Seq<char>)
    ensures
        selects(themes, header, themes.spec_selected(header)),
{
    let pairs = text::spec_split(header, ';');
    lemma_theme_value(pairs);
    if let Some(v) = theme_value(pairs) {
        lemma_picked(themes.list@, v);
        assert(picked(themes.list@, v, themes.spec_lookup(v)));
    }
}

/// The page shows the state as it is, in the theme that the cookie header selects.
pub proof fn law_index(state: AppState, themes: Themes, cookies: &str, r: IndexTemplate)
    requires
        call_ensures(pages::index, (&state, &themes, cookies), r),
    ensures
        *r.snapshot == *state.manager.snapshot,
        r.bulk_mode == state.manager.snapshot.bulk_mode,
        *r.config == state.automation.config,
        *r.status == state.automation.setpoint_off,
        *r.idle == state.automation.idle_off,
        shows_presets(state, r.presets@, r.has_active),
        selects(themes, cookies@, *r.theme),
        *r.themes == themes,
{
    lemma_shows(state, r.presets@, r.has_active);
    lemma_selects(themes, cookies@);
}

/// Whether a name is what a text is saved under: the text without double quotes,
/// backslashes and control codes, trimmed, and cut to its first 60 characters.
pub open spec fn cleaned(raw: Seq<char>, name: Seq<char>) -> bool {
    let kept = raw.filter(
        |c: char| c != '"' && c != '\\' && !((c as int) < 32 || 127 <= c as int <= 159),
    );
    exists|t: Seq<char>| #[trigger]
        trimmed_to(kept, t) && (t.len() <= 60 ==> name == t) && (t.len() > 60 ==> name == t.take(
            60,
        ))
}

/// A name is cleaned before it is saved.
proof fn lemma_cleaned(raw: Seq<char>)
    ensures
        cleaned(raw, preset::spec_sanitize_name(raw)),
{
    let keep = |c: char| c != '"' && c != '\\' && !((c as int) < 32 || 127 <= c as int <= 159);
    let safe = |c: char| preset::name_char(c);
    assert forall|c: char| #[trigger] keep(c) == safe(c) by {}
    assert(keep =~= safe);
    law_trim(raw.filter(keep));
}

/// Cleaning a name takes out what could break it, trims it and cuts it short, and does
/// nothing else to it.
pub proof fn law_clean_name(raw: &str, r: String)
    requires
        call_ensures(preset::sanitize_name, (raw,), r),
    ensures
        cleaned(raw@, r@),
{
    lemma_cleaned(raw@);
}

/// Whether presets are others with one saved at a place, all else being kept: in the
/// place of the first of its name, or at the end.
pub open spec fn put(
    before: Seq<Scene>,
    at: int,
    name: Seq<char>,
    acs: Seq<SceneAc>,
    zones: Seq<SceneZone>,
    after: Seq<Scene>,
) -> bool {
    &&& 0 <= at <= before.len()
    &&& at < before.len() ==> before[at].name@ == name && after.len() == before.len()
    &&& at == before.len() ==> after.len() == before.len() + 1
    &&& forall|i: int| 0 <= i < at ==> (#[trigger] before[i]).name@ != name
    &&& after[at].name@ == name
    &&& after[at].acs@ == acs
    &&& after[at].zones@ == zones
    &&& forall|i: int| 0 <= i < before.len() && i != at ==> #[trigger] after[i] == before[i]
}

/// Saving keeps, under the cleaned name, exactly what was captured, and every other
/// preset as it was; a name that comes to nothing saves nothing.
pub proof fn law_saved(
    before: Seq<Scene>,
    raw: Seq<char>,
    acs: Seq<SceneAc>,
    zones: Seq<SceneZone>,
    after: Seq<Scene>,
)
    requires
        preset::saved(before, raw, acs, zones, after),
    ensures
        exists|name: Seq<char>| #[trigger]
            cleaned(raw, name) && (name.len() == 0 ==> after == before) && (name.len() > 0
                ==> exists|at: int| put(before, at, name, acs, zones, after)),
{
    let name = preset::spec_sanitize_name(raw);
    lemma_cleaned(raw);
    if name.len() > 0 {
        lemma_position(before, name);
        let scene = choose|scene: Scene|
            scene.name@ == name && scene.acs@ == acs && scene.zones@ == zones && after
                == #[trigger] upserted(before, scene);
        let at = position(before, name) as int;
        assert(put(before, at, name, acs, zones, after));
    }
}

/// A preset is found under a name where it is the first of it.
pub proof fn law_find(
    config: SceneConfig,
    name: &str,
    r: Option<&Scene>,
)
    requires
        call_ensures(SceneConfig::find, (&config, name), r),
    ensures
        r is None <==> forall|i: int|
            0 <= i < config.scenes@.len() ==> (#[trigger] config.scenes@[i]).name@ != name@,
        r matches Some(scene) ==> exists|at: int|
            0 <= at < config.scenes@.len() && *scene == #[trigger] config.scenes@[at]
                && scene.name@ == name@ && forall|i: int|
                0 <= i < at ==> (#[trigger] config.scenes@[i]).name@ != name@,
{
    lemma_position(config.scenes@, name@);
    if is_saved(config.scenes@, name@) {
        assert(config.scenes@[position(config.scenes@, name@) as int].name@ == name@);
    }
}

} // verus!
