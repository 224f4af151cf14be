//! Pages and partials: what is shown without controlling anything, the theme, and
//! the request to pull the status again.

use axum::http::HeaderValue;
use vstd::prelude::*;
use crate::manager::command::Command;
use crate::templates;
use crate::templates::{
    opt_name, rows, spec_rows, AcsTemplate, AutomationTemplate, Fragment, IndexTemplate,
    SystemTemplate, ZonesTemplate,
};
use crate::web::error::AppError;
use crate::web::form::{field, spec_field};
use crate::web::handlers::ac::render_current_ac;
use crate::web::handlers::zone::render_current_zone;
use crate::web::interaction::{answered, Answer, Interaction};
use crate::web::state::AppState;
use crate::web::theme;
use crate::web::theme::{cookie_text, header_of, Themes};

verus! {

/// `GET /`: the page shell, in the theme that the request's cookie header selects.
pub fn index<'a>(state: &'a AppState, themes: &'a Themes, cookies: &str) -> (r: IndexTemplate<'a>)
    requires
        themes.list@.len() > 0,
    ensures
        *r.snapshot == state.snap(),
        r.bulk_mode == state.snap().bulk_mode,
        *r.config == state.automation.config,
        *r.status == state.automation.setpoint_off,
        *r.idle == state.automation.idle_off,
        rows(r.presets@) == spec_rows(
            state.scenes.config.scenes@,
            opt_name(state.scenes.active),
        ),
        r.has_active == state.scenes.active.is_some(),
        *r.theme == themes.spec_selected(cookies@),
        *r.themes == *themes,
{
    templates::render_index(
        state.snapshot(),
        &state.automation.config,
        &state.automation.setpoint_off,
        &state.automation.idle_off,
        &state.scenes.config,
        &state.scenes.active,
        themes.selected(cookies),
        themes,
    )
}

/// `POST /theme`, form field `name`: the cookie that remembers the theme. The name
/// of a theme that there is not selects the default, so the cookie never holds
/// anything but a theme's name.
pub fn set_theme(themes: &Themes, form: &Vec<(String, String)>) -> (r: HeaderValue)
    requires
        themes.usable(),
    ensures
        r == header_of(cookie_text(themes.spec_lookup(spec_field(form@, "name"@)).name@)),
{
    let name = field(form, "name");
    let selected = themes.lookup(name.as_str());
    proof {
        theme::law_lookup(*themes, name@);
    }
    theme::cookie(selected)
}

/// `GET /partials/system`.
pub fn partial_system<'a>(state: &'a AppState) -> (r: SystemTemplate<'a>)
    ensures
        *r.snapshot == state.snap(),
{
    templates::render_system(state.snapshot())
}

/// `GET /partials/acs`.
pub fn partial_acs<'a>(state: &'a AppState) -> (r: AcsTemplate<'a>)
    ensures
        *r.snapshot == state.snap(),
{
    templates::render_acs(state.snapshot())
}

/// `GET /partials/ac/:id`.
pub fn partial_ac<'a>(state: &'a AppState, id: u8) -> (r: Result<Fragment<'a>, AppError>)
    ensures
        answered(*state, Answer::Ac(id), r),
{
    render_current_ac(state, id)
}

/// `GET /partials/zones`.
pub fn partial_zones<'a>(state: &'a AppState) -> (r: ZonesTemplate<'a>)
    ensures
        *r.snapshot == state.snap(),
        r.bulk_mode == state.snap().bulk_mode,
{
    templates::render_zones(state.snapshot())
}

/// `GET /partials/automation`: the automation card.
pub fn partial_automation<'a>(state: &'a AppState) -> (r: AutomationTemplate<'a>)
    ensures
        *r.config == state.automation.config,
        *r.status == state.automation.setpoint_off,
        *r.idle == state.automation.idle_off,
{
    templates::render_automation(
        &state.automation.config,
        &state.automation.setpoint_off,
        &state.automation.idle_off,
    )
}

/// `GET /partials/zone/:id`.
pub fn partial_zone<'a>(state: &'a AppState, id: u8) -> (r: Result<Fragment<'a>, AppError>)
    ensures
        answered(*state, Answer::Zone(id), r),
{
    render_current_zone(state, id)
}

/// `POST /refresh`: pulls the full status again, then shows the console card.
pub fn refresh() -> (r: Interaction)
    ensures
        r.wf(),
        r.commands@ == seq![Command::Refresh],
        r.done == 0,
        r.answer == Answer::System,
{
    let mut commands: Vec<Command> = Vec::new();
    commands.push(Command::Refresh);
    assert(commands@ =~= seq![Command::Refresh]);
    Interaction::start(commands, Answer::System)
}

} // verus!
