//! The event stream: every fragment when a browser connects, and after that only
//! those that a change of state touches.
//!
//! An event is named after the element that it replaces: `state` for the connection
//! banner, `system` for the console card, `ac-<id>` and `zone-<id>` for the card of
//! one AC unit and the row of one zone, `automation` for the automation card. A name
//! of its own for each card keeps a browser from swapping one card into another.

use axum::response::sse::Event;
use std::collections::VecDeque;
use std::sync::Arc;
use vstd::prelude::*;
use vstd::utf8::encode_utf8;
use crate::automation::{control_changed, same_controls, AutomationStore};
use crate::manager::laws::{law_controls, law_snapshot_fields, sets_alike, snapshot_alike};
use crate::manager::snapshot::{
    ids, lemma_ids, same_entry, AcModel, Snapshot, SnapshotModel, ZoneModel,
};
use crate::templates;
use crate::templates::{Fragment, FragmentModel};
use crate::text;

verus! {

/// A fragment and the name of the event that carries it.
pub struct NamedFragment<'a> {
    pub name: String,
    pub fragment: Fragment<'a>,
}

/// A fragment's event name and what the fragment is rendered from.
pub type Card = (Seq<char>, FragmentModel);

/// The cards of a list.
pub open spec fn cards(list: Seq<NamedFragment>) -> Seq<Card> {
    Seq::new(list.len(), |i: int| (list[i].name@, list[i].fragment@))
}

/// The name of the event for an AC unit.
pub open spec fn ac_name(id: u8) -> Seq<char> {
    "ac-"@ + text::spec_decimal(id as nat)
}

/// The name of the event for a zone.
pub open spec fn zone_name(id: u8) -> Seq<char> {
    "zone-"@ + text::spec_decimal(id as nat)
}

/// The automation card.
pub open spec fn automation_card(automation: AutomationStore) -> Card {
    (
        "automation"@,
        FragmentModel::Automation(
            automation.config,
            automation.setpoint_off@,
            automation.idle_off@,
        ),
    )
}

/// The card of an AC unit, under the name for an id.
pub open spec fn ac_card() -> spec_fn(u8, AcModel) -> Card {
    |id: u8, ac: AcModel| (ac_name(id), FragmentModel::Ac(ac))
}

/// The row of a zone, under the name for an id.
pub open spec fn zone_card() -> spec_fn(u8, ZoneModel) -> Card {
    |id: u8, zone: ZoneModel| (zone_name(id), FragmentModel::Zone(zone))
}

/// The cards of some entries of a map.
pub open spec fn cards_of<V>(map: Map<u8, V>, ids: Seq<u8>, card: spec_fn(V) -> Card) -> Seq<
    Card,
> {
    Seq::new(ids.len(), |i: int| card(map[ids[i]]))
}

/// The cards of some AC units, each under the name for its own id.
pub open spec fn ac_cards(acs: Map<u8, AcModel>, ids: Seq<u8>) -> Seq<Card> {
    cards_of(acs, ids, |ac: AcModel| ac_card()(ac.id, ac))
}

/// The rows of some zones, each under the name for its own id.
pub open spec fn zone_cards(zones: Map<u8, ZoneModel>, ids: Seq<u8>) -> Seq<Card> {
    cards_of(zones, ids, |zone: ZoneModel| zone_card()(zone.id, zone))
}

/// Every card: the banner, the console, each AC unit and each zone in ascending
/// order of their ids, and the automation card.
pub open spec fn spec_full_events(snap: SnapshotModel, automation: AutomationStore) -> Seq<Card> {
    seq![("state"@, FragmentModel::State(snap)), ("system"@, FragmentModel::System(snap))]
        + ac_cards(snap.acs, ids(snap.acs.dom())) + zone_cards(snap.zones, ids(snap.zones.dom()))
        + seq![automation_card(automation)]
}

/// The cards of those entries of a map that are new or changed.
pub open spec fn changed<V>(
    prev: Map<u8, V>,
    new: Map<u8, V>,
    ids: Seq<u8>,
    card: spec_fn(u8, V) -> Card,
) -> Seq<Card>
    decreases ids.len(),
{
    if ids.len() == 0 {
        Seq::empty()
    } else {
        let before = changed(prev, new, ids.drop_last(), card);
        let id = ids.last();
        if same_entry(prev, new, id) {
            before
        } else {
            before.push(card(id, new[id]))
        }
    }
}

/// Whether the badge of either automation program shows something else.
pub open spec fn badges_differ(before: AutomationStore, after: AutomationStore) -> bool {
    before.setpoint_off@ != after.setpoint_off@ || before.idle_off@ != after.idle_off@
}

/// The cards that a change of state touches. `before` and `after` are the automation
/// programs with the status that they derive for the one snapshot and the other.
pub open spec fn spec_diff_events(
    prev: SnapshotModel,
    new: SnapshotModel,
    before: AutomationStore,
    after: AutomationStore,
) -> Seq<Card> {
    let state = if prev.connected != new.connected {
        seq![("state"@, FragmentModel::State(new))]
    } else {
        Seq::empty()
    };
    let system = if prev.console != new.console {
        seq![("system"@, FragmentModel::System(new))]
    } else {
        Seq::empty()
    };
    let automation = if badges_differ(before, after) {
        seq![automation_card(after)]
    } else {
        Seq::empty()
    };
    state + system + changed(prev.acs, new.acs, ids(new.acs.dom()), ac_card()) + changed(
        prev.zones,
        new.zones,
        ids(new.zones.dom()),
        zone_card(),
    ) + automation
}

/// Adding a fragment to a list adds its card.
proof fn lemma_cards_push(list: Seq<NamedFragment>, f: NamedFragment)
    ensures
        cards(list.push(f)) == cards(list).push((f.name@, f.fragment@)),
{
    assert(cards(list.push(f)) =~= cards(list).push((f.name@, f.fragment@)));
}

/// Adds a fragment under a name.
fn push_card<'a>(out: &mut Vec<NamedFragment<'a>>, name: String, fragment: Fragment<'a>)
    ensures
        cards(final(out)@) == cards(old(out)@).push((name@, fragment@)),
{
    let f = NamedFragment { name, fragment };
    proof {
        lemma_cards_push(out@, f);
    }
    out.push(f);
}

/// The name of the event for an AC unit, which is also the id of its card.
pub fn ac_event(id: u8) -> (r: String)
    ensures
        r@ == ac_name(id),
{
    text::joined("ac-", text::decimal(id as u64).as_str())
}

/// The name of the event for a zone, which is also the id of its row.
pub fn zone_event(id: u8) -> (r: String)
    ensures
        r@ == zone_name(id),
{
    text::joined("zone-", text::decimal(id as u64).as_str())
}

/// The automation card as a fragment.
fn render_automation<'a>(automation: &'a AutomationStore) -> (r: Fragment<'a>)
    ensures
        r@ == automation_card(*automation).1,
{
    Fragment::Automation(
        templates::render_automation(
            &automation.config,
            &automation.setpoint_off,
            &automation.idle_off,
        ),
    )
}

/// Every fragment, for a browser that has just connected.
pub fn full_events<'a>(snap: &'a Snapshot, automation: &'a AutomationStore) -> (r: Vec<
    NamedFragment<'a>,
>)
    ensures
        cards(r@) == spec_full_events(snap@, *automation),
        event_names(cards(r@)),
{
    let mut out: Vec<NamedFragment<'a>> = Vec::new();
    push_card(
        &mut out,
        "state".to_owned(),
        Fragment::State(templates::render_connection_state(snap)),
    );
    push_card(&mut out, "system".to_owned(), Fragment::System(templates::render_system(snap)));
    let ac_ids = snap.ac_ids();
    let zone_ids = snap.zone_ids();
    let ghost head = seq![
        ("state"@, FragmentModel::State(snap@)),
        ("system"@, FragmentModel::System(snap@)),
    ];
    proof {
        lemma_ids(snap.acs@.dom());
        lemma_ids(snap.zones@.dom());
        assert(snap@.acs.dom() =~= snap.acs@.dom());
        assert(snap@.zones.dom() =~= snap.zones@.dom());
        assert(cards(out@) =~= head + ac_cards(snap@.acs, ac_ids@).take(0));
    }
    for i in 0..ac_ids.len()
        invariant
            forall|k: int| 0 <= k < ac_ids@.len() ==> snap.acs@.contains_key(#[trigger] ac_ids@[k]),
            cards(out@) == head + ac_cards(snap@.acs, ac_ids@).take(i as int),
    {
        if let Some(ac) = snap.ac(ac_ids[i]) {
            let ghost before = ac_cards(snap@.acs, ac_ids@).take(i as int);
            push_card(&mut out, ac_event(ac.id), Fragment::Ac(templates::render_ac(ac)));
            assert(ac_cards(snap@.acs, ac_ids@).take(i + 1) =~= before.push(
                (ac_name(ac.id), FragmentModel::Ac(ac@)),
            ));
            assert(cards(out@) =~= head + ac_cards(snap@.acs, ac_ids@).take(i + 1));
        }
    }
    let ghost head = head + ac_cards(snap@.acs, ac_ids@);
    assert(cards(out@) =~= head + zone_cards(snap@.zones, zone_ids@).take(0));
    for i in 0..zone_ids.len()
        invariant
            forall|k: int|
                0 <= k < zone_ids@.len() ==> snap.zones@.contains_key(#[trigger] zone_ids@[k]),
            cards(out@) == head + zone_cards(snap@.zones, zone_ids@).take(i as int),
    {
        if let Some(zone) = snap.zone(zone_ids[i]) {
            let ghost before = zone_cards(snap@.zones, zone_ids@).take(i as int);
            push_card(&mut out, zone_event(zone.id), Fragment::Zone(templates::render_zone(zone)));
            assert(zone_cards(snap@.zones, zone_ids@).take(i + 1) =~= before.push(
                (zone_name(zone.id), FragmentModel::Zone(zone@)),
            ));
            assert(cards(out@) =~= head + zone_cards(snap@.zones, zone_ids@).take(i + 1));
        }
    }
    assert(cards(out@) =~= head + zone_cards(snap@.zones, zone_ids@));
    push_card(&mut out, "automation".to_owned(), render_automation(automation));
    assert(cards(out@) =~= spec_full_events(snap@, *automation));
    proof {
        law_event_names(snap@, snap@, *automation, *automation);
    }
    out
}

/// The fragments that a change of state touches.
pub fn diff_events<'a>(
    prev: &Snapshot,
    new: &'a Snapshot,
    before: &AutomationStore,
    after: &'a AutomationStore,
) -> (r: Vec<NamedFragment<'a>>)
    ensures
        cards(r@) == spec_diff_events(prev@, new@, *before, *after),
        event_names(cards(r@)),
{
    let mut out: Vec<NamedFragment<'a>> = Vec::new();
    if prev.connected != new.connected {
        push_card(
            &mut out,
            "state".to_owned(),
            Fragment::State(templates::render_connection_state(new)),
        );
    }
    if !prev.console.same(&new.console) {
        push_card(&mut out, "system".to_owned(), Fragment::System(templates::render_system(new)));
    }
    let ac_ids = new.ac_ids();
    let zone_ids = new.zone_ids();
    let ghost head = cards(out@);
    proof {
        lemma_ids(new.acs@.dom());
        lemma_ids(new.zones@.dom());
        assert(new@.acs.dom() =~= new.acs@.dom());
        assert(new@.zones.dom() =~= new.zones@.dom());
        assert(head =~= head + changed(prev@.acs, new@.acs, ac_ids@.take(0), ac_card()));
    }
    for i in 0..ac_ids.len()
        invariant
            forall|k: int| 0 <= k < ac_ids@.len() ==> new.acs@.contains_key(#[trigger] ac_ids@[k]),
            cards(out@) == head + changed(prev@.acs, new@.acs, ac_ids@.take(i as int), ac_card()),
    {
        let id: u8 = ac_ids[i];
        assert(ac_ids@.take(i + 1).drop_last() =~= ac_ids@.take(i as int));
        if !prev.same_ac(new, id) {
            if let Some(ac) = new.ac(id) {
                let ghost before = changed(prev@.acs, new@.acs, ac_ids@.take(i as int), ac_card());
                push_card(&mut out, ac_event(id), Fragment::Ac(templates::render_ac(ac)));
                assert(cards(out@) =~= head + before.push((ac_name(id), FragmentModel::Ac(ac@))));
            }
        }
    }
    assert(ac_ids@.take(ac_ids@.len() as int) =~= ac_ids@);
    let ghost head = cards(out@);
    assert(head =~= head + changed(prev@.zones, new@.zones, zone_ids@.take(0), zone_card()));
    for i in 0..zone_ids.len()
        invariant
            forall|k: int|
                0 <= k < zone_ids@.len() ==> new.zones@.contains_key(#[trigger] zone_ids@[k]),
            cards(out@) == head + changed(prev@.zones, new@.zones, zone_ids@.take(i as int), zone_card()),
    {
        let id: u8 = zone_ids[i];
        assert(zone_ids@.take(i + 1).drop_last() =~= zone_ids@.take(i as int));
        if !prev.same_zone(new, id) {
            if let Some(zone) = new.zone(id) {
                let ghost before = changed(
                    prev@.zones,
                    new@.zones,
                    zone_ids@.take(i as int),
                    zone_card(),
                );
                push_card(&mut out, zone_event(id), Fragment::Zone(templates::render_zone(zone)));
                assert(cards(out@) =~= head + before.push(
                    (zone_name(id), FragmentModel::Zone(zone@)),
                ));
            }
        }
    }
    assert(zone_ids@.take(zone_ids@.len() as int) =~= zone_ids@);
    if !before.setpoint_off.same(&after.setpoint_off) || !before.idle_off.same(&after.idle_off) {
        push_card(&mut out, "automation".to_owned(), render_automation(after));
    }
    assert(cards(out@) =~= spec_diff_events(prev@, new@, *before, *after));
    proof {
        law_event_names(prev@, new@, *before, *after);
    }
    out
}

/// Whether a text can be the name of an event: it stands on one line.
pub open spec fn event_name(name: Seq<char>) -> bool {
    forall|i: int| 0 <= i < name.len() ==> #[trigger] name[i] != '\n' && name[i] != '\r'
}

/// Whether the name of every card can be the name of an event.
pub open spec fn event_names(list: Seq<Card>) -> bool {
    forall|i: int| 0 <= i < list.len() ==> event_name((#[trigger] list[i]).0)
}

/// The decimal form of a number can stand in the name of an event.
proof fn lemma_decimal_name(n: nat)
    ensures
        event_name(text::spec_decimal(n)),
    decreases n,
{
    if n >= 10 {
        lemma_decimal_name(n / 10);
    }
}

/// The names of the AC units' and the zones' events are on one line.
proof fn lemma_id_names(id: u8)
    ensures
        event_name(ac_name(id)),
        event_name(zone_name(id)),
{
    reveal_strlit("ac-");
    reveal_strlit("zone-");
    lemma_decimal_name(id as nat);
    let digits = text::spec_decimal(id as nat);
    assert forall|i: int| 0 <= i < ac_name(id).len() implies #[trigger] ac_name(id)[i] != '\n'
        && ac_name(id)[i] != '\r' by {
        if i >= 3 {
            assert(ac_name(id)[i] == digits[i - 3]);
        }
    }
    assert forall|i: int| 0 <= i < zone_name(id).len() implies #[trigger] zone_name(id)[i] != '\n'
        && zone_name(id)[i] != '\r' by {
        if i >= 5 {
            assert(zone_name(id)[i] == digits[i - 5]);
        }
    }
}

/// The three fixed names are on one line.
proof fn lemma_fixed_names()
    ensures
        event_name("state"@),
        event_name("system"@),
        event_name("automation"@),
{
    reveal_strlit("state");
    reveal_strlit("system");
    reveal_strlit("automation");
}

/// Where every card is named on one line, those of the changed entries are.
proof fn lemma_changed_names<V>(
    prev: Map<u8, V>,
    new: Map<u8, V>,
    ids: Seq<u8>,
    card: spec_fn(u8, V) -> Card,
)
    requires
        forall|id: u8, v: V| event_name((#[trigger] card(id, v)).0),
    ensures
        event_names(changed(prev, new, ids, card)),
    decreases ids.len(),
{
    if ids.len() > 0 {
        lemma_changed_names(prev, new, ids.drop_last(), card);
    }
}

/// The name of every card that is ever sent can be the name of an event.
pub proof fn law_event_names(
    prev: SnapshotModel,
    new: SnapshotModel,
    before: AutomationStore,
    after: AutomationStore,
)
    ensures
        event_names(spec_full_events(new, after)),
        event_names(spec_diff_events(prev, new, before, after)),
{
    lemma_fixed_names();
    assert forall|id: u8| event_name(#[trigger] ac_name(id)) by {
        lemma_id_names(id);
    }
    assert forall|id: u8| event_name(#[trigger] zone_name(id)) by {
        lemma_id_names(id);
    }
    lemma_changed_names(prev.acs, new.acs, ids(new.acs.dom()), ac_card());
    lemma_changed_names(prev.zones, new.zones, ids(new.zones.dom()), zone_card());
}

/// The `axum` crate's event of an event stream.
#[verifier::external_type_specification]
#[verifier::external_body]
pub struct ExEvent(Event);

/// The bytes that the `axum` crate puts on the wire for an event.
pub uninterp spec fn event_bytes(event: Event) -> Seq<u8>;

/// A text with a new `data` field begun behind each line end.
pub open spec fn data_text(data: Seq<char>) -> Seq<char>
    decreases data.len(),
{
    if data.len() == 0 {
        Seq::empty()
    } else {
        let text = data_text(data.drop_last()).push(data.last());
        if data.last() == '\n' || data.last() == '\r' {
            text + "data: "@
        } else {
            text
        }
    }
}

/// A named event as it is sent: its name, then its data, of which nothing is sent where
/// it is empty, then an empty line.
pub open spec fn wire_text(name: Seq<char>, data: Seq<char>) -> Seq<char> {
    let body = if data.len() == 0 {
        Seq::empty()
    } else {
        "data: "@ + data_text(data) + seq!['\n']
    };
    "event: "@ + name + seq!['\n'] + body + seq!['\n']
}

/// Calls `Event::default`, `Event::event` and `Event::data` of the `axum` crate, the
/// second of which panics on a name that is not on one line. What the crate then puts
/// on the wire is the text of [`wire_text`] in UTF-8.
#[verifier::external_body]
fn make_event(name: &str, html: &str) -> (r: Event)
    requires
        event_name(name@),
    ensures
        event_bytes(r) == encode_utf8(wire_text(name@, html@)),
{
    Event::default().event(name).data(html)
}

/// The event that carries a fragment, by what the fragment was rendered to.
pub fn named(card: &NamedFragment, html: &str) -> (r: Event)
    requires
        event_name(card.name@),
    ensures
        event_bytes(r) == encode_utf8(wire_text(card.name@, html@)),
{
    make_event(card.name.as_str(), html)
}

/// Whether these are the events that carry some cards, by what the card of each was
/// rendered to.
pub open spec fn carry(events: Seq<Event>, list: Seq<Card>, htmls: Seq<Seq<char>>) -> bool {
    &&& events.len() == list.len()
    &&& htmls.len() == list.len()
    &&& forall|i: int|
        0 <= i < list.len() ==> event_bytes(#[trigger] events[i]) == encode_utf8(
            wire_text(list[i].0, htmls[i]),
        )
}

/// The events that carry some fragments, in order, by what each was rendered to.
pub fn queue(list: &Vec<NamedFragment>, htmls: Vec<String>) -> (r: VecDeque<Event>)
    requires
        htmls@.len() == list@.len(),
        event_names(cards(list@)),
    ensures
        carry(r@, cards(list@), text::texts(htmls@)),
{
    let mut out: VecDeque<Event> = VecDeque::new();
    for i in 0..list.len()
        invariant
            htmls@.len() == list@.len(),
            event_names(cards(list@)),
            out@.len() == i,
            forall|k: int|
                0 <= k < i ==> event_bytes(#[trigger] out@[k]) == encode_utf8(
                    wire_text(cards(list@)[k].0, text::texts(htmls@)[k]),
                ),
    {
        assert(event_name(cards(list@)[i as int].0));
        out.push_back(named(&list[i], htmls[i].as_str()));
    }
    out
}

/// What a stream is at.
pub enum Stage {
    /// It waits for the next snapshot.
    Waiting,
    /// This snapshot came in, and a user changed something: the idle clock is to be
    /// started anew before any status is read.
    RestartIdle(Arc<Snapshot>),
    /// This snapshot came in: the automation programs' statuses are to be read for it.
    ReadStatuses(Arc<Snapshot>),
}

/// What a stream does next.
pub enum Action {
    /// Send this event.
    Send(Event),
    /// Wait for the next snapshot.
    Wait,
    /// Start the idle clock anew.
    RestartIdle,
    /// Read the automation programs' statuses for the last snapshot and the new one.
    ReadStatuses,
}

/// One browser's stream: the snapshot that its cards were last brought up to, the
/// events that are still to be sent, and what it is at.
pub struct SseState {
    pub prev: Arc<Snapshot>,
    pub pending: VecDeque<Event>,
    pub stage: Stage,
}

impl SseState {
    /// Whether a stream takes an action and stands at `after` then: what is pending is
    /// sent first; then the idle clock is started anew, where that is due; and only
    /// then the statuses are read.
    pub open spec fn acts(&self, action: Action, after: SseState) -> bool {
        &&& after.prev == self.prev
        &&& if self.pending@.len() > 0 {
            &&& action == Action::Send(self.pending@[0])
            &&& after.pending@ == self.pending@.drop_first()
            &&& after.stage == self.stage
        } else {
            &&& after.pending@ == self.pending@
            &&& match self.stage {
                Stage::Waiting => action == Action::Wait && after.stage == self.stage,
                Stage::RestartIdle(new) => action == Action::RestartIdle && after.stage
                    == Stage::ReadStatuses(new),
                Stage::ReadStatuses(_) => action == Action::ReadStatuses && after.stage
                    == self.stage,
            }
        }
    }

    /// What a published snapshot calls for: nothing where it holds the same as the last
    /// one; a new start of the idle clock where something differs that a user controls.
    pub open spec fn calls_for(&self, new: Arc<Snapshot>) -> Stage {
        if self.prev@ == new@ {
            Stage::Waiting
        } else if same_controls(self.prev@, new@) {
            Stage::ReadStatuses(new)
        } else {
            Stage::RestartIdle(new)
        }
    }

    /// Whether a stream that waited stands at `after` once a snapshot was published.
    pub open spec fn takes(&self, new: Arc<Snapshot>, after: SseState) -> bool {
        &&& self.stage == Stage::Waiting
        &&& after.prev == self.prev
        &&& after.pending@ == self.pending@
        &&& after.stage == self.calls_for(new)
    }

    /// Whether a stream that was to read statuses stands at `after` once it was given the
    /// events of the change: they wait behind those still to be sent, and the cards are
    /// brought up to the new snapshot.
    pub open spec fn accepts(&self, events: Seq<Event>, after: SseState) -> bool {
        &&& self.stage is ReadStatuses
        &&& after.prev == self.stage->ReadStatuses_0
        &&& after.pending@ == self.pending@ + events
        &&& after.stage == Stage::Waiting
    }

    /// The stream of a browser that has just connected, with the events of its
    /// first render still to be sent.
    pub fn connect(initial: Arc<Snapshot>, events: VecDeque<Event>) -> (r: SseState)
        ensures
            r.prev == initial,
            r.pending@ == events@,
            r.stage == Stage::Waiting,
    {
        SseState { prev: initial, pending: events, stage: Stage::Waiting }
    }

    /// What to do next.
    pub fn next(&mut self) -> (r: Action)
        ensures
            old(self).acts(r, *final(self)),
            final(self).prev == old(self).prev,
            old(self).pending@.len() > 0 ==> r == Action::Send(old(self).pending@[0])
                && final(self).pending@ == old(self).pending@.skip(1) && final(self).stage
                == old(self).stage,
            old(self).pending@.len() == 0 ==> final(self).pending@.len() == 0,
            old(self).pending@.len() == 0 && old(self).stage is Waiting ==> r == Action::Wait
                && final(self).stage == old(self).stage,
            old(self).pending@.len() == 0 && old(self).stage is RestartIdle ==> r
                == Action::RestartIdle && final(self).stage == Stage::ReadStatuses(
                old(self).stage->RestartIdle_0,
            ),
            old(self).pending@.len() == 0 && old(self).stage is ReadStatuses ==> r
                == Action::ReadStatuses && final(self).stage == old(self).stage,
    {
        if let Some(event) = self.pending.pop_front() {
            return Action::Send(event);
        }
        let mut stage = Stage::Waiting;
        std::mem::swap(&mut stage, &mut self.stage);
        match stage {
            Stage::Waiting => Action::Wait,
            Stage::RestartIdle(new) => {
                self.stage = Stage::ReadStatuses(new);
                Action::RestartIdle
            },
            Stage::ReadStatuses(new) => {
                self.stage = Stage::ReadStatuses(new);
                Action::ReadStatuses
            },
        }
    }

    /// Takes a snapshot that was published while the stream waited.
    pub fn published(&mut self, new: Arc<Snapshot>)
        requires
            old(self).stage == Stage::Waiting,
        ensures
            old(self).takes(new, *final(self)),
            final(self).prev == old(self).prev,
            final(self).pending@ == old(self).pending@,
            snapshot_alike(*old(self).prev, *new) ==> final(self).stage == Stage::Waiting,
            !snapshot_alike(*old(self).prev, *new) && sets_alike(*old(self).prev, *new)
                ==> final(self).stage == Stage::ReadStatuses(new),
            !snapshot_alike(*old(self).prev, *new) && !sets_alike(*old(self).prev, *new)
                ==> final(self).stage == Stage::RestartIdle(new),
    {
        proof {
            let last = *self.prev;
            let next = *new;
            law_snapshot_fields(last, next);
            law_controls(last, next);
        }
        if !new.same(&self.prev) {
            if control_changed(&self.prev, &new) {
                self.stage = Stage::RestartIdle(new);
            } else {
                self.stage = Stage::ReadStatuses(new);
            }
        }
    }

    /// The fragments that the new snapshot re-emits, by the statuses that were read for
    /// the last one and for the new one.
    pub fn changes<'a>(
        &'a self,
        before: &AutomationStore,
        after: &'a AutomationStore,
    ) -> (r: Vec<NamedFragment<'a>>)
        requires
            self.stage is ReadStatuses,
        ensures
            cards(r@) == spec_diff_events(
                self.prev@,
                self.stage->ReadStatuses_0@,
                *before,
                *after,
            ),
            event_names(cards(r@)),
    {
        let new = match &self.stage {
            Stage::ReadStatuses(new) => new,
            _ => &self.prev,
        };
        diff_events(&self.prev, new, before, after)
    }

    /// Takes the events for the new snapshot, behind those still to be sent, and goes
    /// back to waiting.
    pub fn accept(&mut self, events: VecDeque<Event>)
        requires
            old(self).stage is ReadStatuses,
        ensures
            old(self).accepts(events@, *final(self)),
            final(self).prev == old(self).stage->ReadStatuses_0,
            final(self).pending@ == old(self).pending@ + events@,
            final(self).stage == Stage::Waiting,
    {
        let mut events = events;
        self.pending.append(&mut events);
        let mut stage = Stage::Waiting;
        std::mem::swap(&mut stage, &mut self.stage);
        if let Stage::ReadStatuses(new) = stage {
            self.prev = new;
        }
    }
}

} // verus!
