//! What each page and each fragment is rendered from.
//!
//! Every fragment renders a single root element with a stable `id`, which the
//! browser swaps in place when an event of the matching name arrives.

use vstd::prelude::*;
use crate::automation::{AutomationConfig, IdleOffStatus, SetpointOffStatus};
use crate::manager::snapshot::{
    AcModel, AcView, BulkModeView, Snapshot, SnapshotModel, ZoneModel, ZoneView,
};
use crate::scenes::{Scene, SceneConfig};
use crate::text;
use crate::web::theme::{Theme, Themes};

verus! {

/// The page shell.
pub struct IndexTemplate<'a> {
    pub snapshot: &'a Snapshot,
    pub bulk_mode: BulkModeView,
    pub config: &'a AutomationConfig,
    pub status: &'a SetpointOffStatus,
    pub idle: &'a IdleOffStatus,
    /// The saved presets, and whether one matches the live state.
    pub presets: Vec<PresetRow>,
    pub has_active: bool,
    /// The selected theme, and every theme there is.
    pub theme: &'a Theme,
    pub themes: &'a Themes,
}

/// One row of the presets card: a preset's name, and whether it matches the live
/// state.
#[derive(Debug, PartialEq, Eq)]
pub struct PresetRow {
    pub name: String,
    pub active: bool,
}

/// The presets card.
pub struct PresetsTemplate {
    pub presets: Vec<PresetRow>,
    pub has_active: bool,
}

/// The connection banner.
pub struct ConnectionStateTemplate<'a> {
    pub snapshot: &'a Snapshot,
}

/// The console card.
pub struct SystemTemplate<'a> {
    pub snapshot: &'a Snapshot,
}

/// All AC unit cards.
pub struct AcsTemplate<'a> {
    pub snapshot: &'a Snapshot,
}

/// One AC unit card.
pub struct AcTemplate<'a> {
    pub ac: &'a AcView,
}

/// All zone rows, under the bar for all zones.
pub struct ZonesTemplate<'a> {
    pub snapshot: &'a Snapshot,
    pub bulk_mode: BulkModeView,
}

/// One zone row.
pub struct ZoneTemplate<'a> {
    pub zone: &'a ZoneView,
}

/// The automation card.
pub struct AutomationTemplate<'a> {
    pub config: &'a AutomationConfig,
    pub status: &'a SetpointOffStatus,
    pub idle: &'a IdleOffStatus,
}

/// A fragment of the page.
pub enum Fragment<'a> {
    State(ConnectionStateTemplate<'a>),
    System(SystemTemplate<'a>),
    Acs(AcsTemplate<'a>),
    Ac(AcTemplate<'a>),
    Zones(ZonesTemplate<'a>),
    Zone(ZoneTemplate<'a>),
    Automation(AutomationTemplate<'a>),
    Presets(PresetsTemplate),
}

/// What a fragment is rendered from.
#[verifier::ext_equal]
pub enum FragmentModel {
    State(SnapshotModel),
    System(SnapshotModel),
    Acs(SnapshotModel),
    Ac(AcModel),
    Zones(SnapshotModel, BulkModeView),
    Zone(ZoneModel),
    /// The configuration, and the badges of the two programs.
    Automation(AutomationConfig, Option<Seq<char>>, Option<Seq<char>>),
    /// The rows, and whether one is active.
    Presets(Seq<(Seq<char>, bool)>, bool),
}

impl<'a> View for Fragment<'a> {
    type V = FragmentModel;

    open spec fn view(&self) -> FragmentModel {
        match self {
            Fragment::State(t) => FragmentModel::State(t.snapshot@),
            Fragment::System(t) => FragmentModel::System(t.snapshot@),
            Fragment::Acs(t) => FragmentModel::Acs(t.snapshot@),
            Fragment::Ac(t) => FragmentModel::Ac(t.ac@),
            Fragment::Zones(t) => FragmentModel::Zones(t.snapshot@, t.bulk_mode),
            Fragment::Zone(t) => FragmentModel::Zone(t.zone@),
            Fragment::Automation(t) => FragmentModel::Automation(
                *t.config,
                t.status@,
                t.idle@,
            ),
            Fragment::Presets(t) => FragmentModel::Presets(rows(t.presets@), t.has_active),
        }
    }
}

/// The rows of the presets card: one for each preset, in order, marked where its
/// name is the active one.
pub open spec fn spec_rows(scenes: Seq<Scene>, active: Option<Seq<char>>) -> Seq<
    (Seq<char>, bool),
> {
    Seq::new(scenes.len(), |i: int| (scenes[i].name@, Some(scenes[i].name@) == active))
}

/// What rows hold.
pub open spec fn rows(list: Seq<PresetRow>) -> Seq<(Seq<char>, bool)> {
    Seq::new(list.len(), |i: int| (list[i].name@, list[i].active))
}

/// The characters of an optional name.
pub open spec fn opt_name(name: Option<String>) -> Option<Seq<char>> {
    match name {
        Some(s) => Some(s@),
        None => None,
    }
}

/// Builds the rows of the presets card, and whether some preset is active.
pub fn build_preset_rows(cfg: &SceneConfig, active: &Option<String>) -> (r: (Vec<PresetRow>, bool))
    ensures
        rows(r.0@) == spec_rows(cfg.scenes@, opt_name(*active)),
        r.1 == active.is_some(),
{
    let mut out: Vec<PresetRow> = Vec::new();
    for i in 0..cfg.scenes.len()
        invariant
            rows(out@) == spec_rows(cfg.scenes@, opt_name(*active)).take(i as int),
    {
        let name = cfg.scenes[i].name.as_str();
        let is_active = match active {
            Some(a) => text::same(name, a.as_str()),
            None => false,
        };
        let ghost before = out@;
        out.push(PresetRow { name: name.to_owned(), active: is_active });
        assert(rows(out@) =~= rows(before).push((name@, is_active)));
        assert(spec_rows(cfg.scenes@, opt_name(*active)).take(i + 1) =~= spec_rows(
            cfg.scenes@,
            opt_name(*active),
        ).take(i as int).push((name@, is_active)));
    }
    assert(spec_rows(cfg.scenes@, opt_name(*active)).take(cfg.scenes@.len() as int) =~= spec_rows(
        cfg.scenes@,
        opt_name(*active),
    ));
    (out, active.is_some())
}

/// The page shell, with the presets card above the AC units.
pub fn render_index<'a>(
    snapshot: &'a Snapshot,
    config: &'a AutomationConfig,
    status: &'a SetpointOffStatus,
    idle: &'a IdleOffStatus,
    scenes: &SceneConfig,
    active: &Option<String>,
    theme: &'a Theme,
    themes: &'a Themes,
) -> (r: IndexTemplate<'a>)
    ensures
        *r.snapshot == *snapshot,
        r.bulk_mode == snapshot.bulk_mode,
        *r.config == *config,
        *r.status == *status,
        *r.idle == *idle,
        rows(r.presets@) == spec_rows(scenes.scenes@, opt_name(*active)),
        r.has_active == active.is_some(),
        *r.theme == *theme,
        *r.themes == *themes,
{
    let (presets, has_active) = build_preset_rows(scenes, active);
    IndexTemplate {
        snapshot,
        bulk_mode: snapshot.bulk_mode(),
        config,
        status,
        idle,
        presets,
        has_active,
        theme,
        themes,
    }
}

/// The presets card.
pub fn render_presets(cfg: &SceneConfig, active: &Option<String>) -> (r: PresetsTemplate)
    ensures
        rows(r.presets@) == spec_rows(cfg.scenes@, opt_name(*active)),
        r.has_active == active.is_some(),
{
    let (presets, has_active) = build_preset_rows(cfg, active);
    PresetsTemplate { presets, has_active }
}

/// One zone row.
pub fn render_zone<'a>(zone: &'a ZoneView) -> (r: ZoneTemplate<'a>)
    ensures
        *r.zone == *zone,
{
    ZoneTemplate { zone }
}

/// One AC unit card.
pub fn render_ac<'a>(ac: &'a AcView) -> (r: AcTemplate<'a>)
    ensures
        *r.ac == *ac,
{
    AcTemplate { ac }
}

/// The console card.
pub fn render_system<'a>(snapshot: &'a Snapshot) -> (r: SystemTemplate<'a>)
    ensures
        *r.snapshot == *snapshot,
{
    SystemTemplate { snapshot }
}

/// The connection banner.
pub fn render_connection_state<'a>(snapshot: &'a Snapshot) -> (r: ConnectionStateTemplate<'a>)
    ensures
        *r.snapshot == *snapshot,
{
    ConnectionStateTemplate { snapshot }
}

/// All AC unit cards.
pub fn render_acs<'a>(snapshot: &'a Snapshot) -> (r: AcsTemplate<'a>)
    ensures
        *r.snapshot == *snapshot,
{
    AcsTemplate { snapshot }
}

/// All zone rows, the bar showing the mode that the snapshot gives.
pub fn render_zones<'a>(snapshot: &'a Snapshot) -> (r: ZonesTemplate<'a>)
    ensures
        *r.snapshot == *snapshot,
        r.bulk_mode == snapshot.bulk_mode,
{
    render_zones_with_bulk(snapshot, snapshot.bulk_mode())
}

/// All zone rows, the bar showing a mode of the caller's: the one that the user
/// last selected.
pub fn render_zones_with_bulk<'a>(snapshot: &'a Snapshot, bulk_mode: BulkModeView) -> (r:
    ZonesTemplate<'a>)
    ensures
        *r.snapshot == *snapshot,
        r.bulk_mode == bulk_mode,
{
    ZonesTemplate { snapshot, bulk_mode }
}

/// The automation card.
pub fn render_automation<'a>(
    config: &'a AutomationConfig,
    status: &'a SetpointOffStatus,
    idle: &'a IdleOffStatus,
) -> (r: AutomationTemplate<'a>)
    ensures
        *r.config == *config,
        *r.status == *status,
        *r.idle == *idle,
{
    AutomationTemplate { config, status, idle }
}

} // verus!
