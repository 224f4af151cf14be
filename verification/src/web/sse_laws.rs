//! What holds of the event stream as a whole.

use axum::response::sse::Event;
use std::sync::Arc;
use vstd::prelude::*;
use vstd::utf8::encode_utf8;
use crate::automation::{same_controls, AutomationStore};
use crate::listener::display::spec_color_for;
use crate::manager::snapshot::{
    ids, lemma_ids, same_entry, AcModel, ConsoleModel, Snapshot, SnapshotModel, ZoneModel,
};
use crate::manager::values::digits_value;
use crate::templates::FragmentModel;
use crate::text;
use crate::web::sse::{
    ac_card, ac_cards, ac_name, automation_card, badges_differ, cards_of, carry, changed,
    event_bytes, spec_diff_events, spec_full_events, wire_text, zone_card, zone_cards, zone_name, Action, Card, SseState, Stage,
};

verus! {

/// What a card shows: the part of the state that a change must touch for the card to
/// be sent again.
pub enum Shown {
    State(bool),
    System(ConsoleModel),
    Ac(AcModel),
    Zone(ZoneModel),
    /// The badges of the two automation programs.
    Automation(Option<Seq<char>>, Option<Seq<char>>),
    /// A fragment that the stream does not carry.
    Other,
}

/// What a card shows.
pub open spec fn shown(fragment: FragmentModel) -> Shown {
    match fragment {
        FragmentModel::State(snap) => Shown::State(snap.connected),
        FragmentModel::System(snap) => Shown::System(snap.console),
        FragmentModel::Ac(ac) => Shown::Ac(ac),
        FragmentModel::Zone(zone) => Shown::Zone(zone),
        FragmentModel::Automation(_, setpoint_off, idle_off) => Shown::Automation(
            setpoint_off,
            idle_off,
        ),
        _ => Shown::Other,
    }
}

/// A browser's cards, by event name, after some events: each replaces the card of
/// its name.
pub open spec fn swapped(board: Map<Seq<char>, Shown>, events: Seq<Card>) -> Map<Seq<char>, Shown>
    decreases events.len(),
{
    if events.len() == 0 {
        board
    } else {
        swapped(board, events.drop_last()).insert(events.last().0, shown(events.last().1))
    }
}

/// Whether a browser's cards show a state: every card of the full render is there
/// and shows what it is to show.
pub open spec fn shows(
    board: Map<Seq<char>, Shown>,
    snap: SnapshotModel,
    automation: AutomationStore,
) -> bool {
    let full = spec_full_events(snap, automation);
    forall|i: int|
        0 <= i < full.len() ==> board.contains_key((#[trigger] full[i]).0) && board[full[i].0]
            == shown(full[i].1)
}

/// Whether every AC unit and every zone is held under its own id.
pub open spec fn keyed(snap: SnapshotModel) -> bool {
    &&& forall|id: u8| #[trigger] snap.acs.contains_key(id) ==> snap.acs[id].id == id
    &&& forall|id: u8| #[trigger] snap.zones.contains_key(id) ==> snap.zones[id].id == id
}

/// Whether a card is that of an entry of a map.
spec fn is_card<V>(map: Map<u8, V>, id: u8, card: spec_fn(u8, V) -> Card, c: Card) -> bool {
    map.contains_key(id) && c == card(id, map[id])
}

/// Whether a card is that of an entry of a map that is new or changed.
spec fn is_changed<V>(
    prev: Map<u8, V>,
    new: Map<u8, V>,
    id: u8,
    card: spec_fn(u8, V) -> Card,
    c: Card,
) -> bool {
    is_card(new, id, card, c) && !same_entry(prev, new, id)
}

/// Whether a card is one of the full render.
spec fn in_full(snap: SnapshotModel, automation: AutomationStore, c: Card) -> bool {
    ||| c == ("state"@, FragmentModel::State(snap))
    ||| c == ("system"@, FragmentModel::System(snap))
    ||| c == automation_card(automation)
    ||| exists|id: u8| is_card(snap.acs, id, ac_card(), c)
    ||| exists|id: u8| is_card(snap.zones, id, zone_card(), c)
}

/// Whether a card is one that a change touches.
spec fn in_diff(
    prev: SnapshotModel,
    new: SnapshotModel,
    before: AutomationStore,
    after: AutomationStore,
    c: Card,
) -> bool {
    ||| prev.connected != new.connected && c == ("state"@, FragmentModel::State(new))
    ||| prev.console != new.console && c == ("system"@, FragmentModel::System(new))
    ||| badges_differ(before, after) && c == automation_card(after)
    ||| exists|id: u8| is_changed(prev.acs, new.acs, id, ac_card(), c)
    ||| exists|id: u8| is_changed(prev.zones, new.zones, id, zone_card(), c)
}

/// A card is in two lists, one behind the other, where it is in one of them.
proof fn lemma_contains_append(a: Seq<Card>, b: Seq<Card>, c: Card)
    ensures
        (a + b).contains(c) <==> a.contains(c) || b.contains(c),
{
    if a.contains(c) {
        let k = choose|k: int| 0 <= k < a.len() && a[k] == c;
        assert((a + b)[k] == c);
    }
    if b.contains(c) {
        let k = choose|k: int| 0 <= k < b.len() && b[k] == c;
        assert((a + b)[a.len() + k] == c);
    }
    if (a + b).contains(c) {
        let k = choose|k: int| 0 <= k < (a + b).len() && (a + b)[k] == c;
        if k < a.len() {
            assert(a[k] == c);
        } else {
            assert(b[k - a.len()] == c);
        }
    }
}

/// What the cards of all entries of a map hold, where each entry has its own id's card.
proof fn lemma_cards_of<V>(
    map: Map<u8, V>,
    own: spec_fn(V) -> Card,
    card: spec_fn(u8, V) -> Card,
    c: Card,
)
    requires
        forall|id: u8| #[trigger] map.contains_key(id) ==> own(map[id]) == card(id, map[id]),
    ensures
        cards_of(map, ids(map.dom()), own).contains(c) <==> exists|id: u8|
            is_card(map, id, card, c),
{
    let list = ids(map.dom());
    let all = cards_of(map, list, own);
    lemma_ids(map.dom());
    if all.contains(c) {
        let k = choose|k: int| 0 <= k < all.len() && all[k] == c;
        assert(map.dom().contains(list[k]));
        assert(map.contains_key(list[k]));
        assert(is_card(map, list[k], card, c));
    }
    if exists|id: u8| is_card(map, id, card, c) {
        let id = choose|id: u8| is_card(map, id, card, c);
        assert(map.dom().contains(id));
        let k = choose|k: int| 0 <= k < list.len() && list[k] == id;
        assert(all[k] == c);
    }
}

/// What the full render holds.
proof fn lemma_in_full(snap: SnapshotModel, automation: AutomationStore, c: Card)
    requires
        keyed(snap),
    ensures
        spec_full_events(snap, automation).contains(c) <==> in_full(snap, automation, c),
{
    let head = seq![
        ("state"@, FragmentModel::State(snap)),
        ("system"@, FragmentModel::System(snap)),
    ];
    let acs = ac_cards(snap.acs, ids(snap.acs.dom()));
    let zones = zone_cards(snap.zones, ids(snap.zones.dom()));
    let tail = seq![automation_card(automation)];
    lemma_cards_of(snap.acs, |ac: AcModel| ac_card()(ac.id, ac), ac_card(), c);
    lemma_cards_of(snap.zones, |z: ZoneModel| zone_card()(z.id, z), zone_card(), c);
    lemma_contains_append(head + acs + zones, tail, c);
    lemma_contains_append(head + acs, zones, c);
    lemma_contains_append(head, acs, c);
    assert(head[0] == ("state"@, FragmentModel::State(snap)));
    assert(head[1] == ("system"@, FragmentModel::System(snap)));
    assert(tail[0] == automation_card(automation));
    assert(head.contains(c) <==> c == head[0] || c == head[1]);
    assert(tail.contains(c) <==> c == tail[0]);
}

/// What the cards of the changed entries of a list of ids hold.
proof fn lemma_changed_in<V>(
    prev: Map<u8, V>,
    new: Map<u8, V>,
    list: Seq<u8>,
    card: spec_fn(u8, V) -> Card,
    c: Card,
)
    requires
        forall|i: int| 0 <= i < list.len() ==> new.contains_key(#[trigger] list[i]),
    ensures
        changed(prev, new, list, card).contains(c) <==> exists|id: u8|
            list.contains(id) && is_changed(prev, new, id, card, c),
    decreases list.len(),
{
    let cards = changed(prev, new, list, card);
    if list.len() > 0 {
        let short = list.drop_last();
        let before = changed(prev, new, short, card);
        let last = list.last();
        lemma_changed_in(prev, new, short, card, c);
        assert(list[list.len() - 1] == last);
        assert(new.contains_key(last));
        assert forall|id: u8| list.contains(id) <==> short.contains(id) || id == last by {
            if list.contains(id) {
                let k = choose|k: int| 0 <= k < list.len() && list[k] == id;
                if k < short.len() {
                    assert(short[k] == id);
                }
            }
            if short.contains(id) {
                let k = choose|k: int| 0 <= k < short.len() && short[k] == id;
                assert(list[k] == id);
            }
        }
        let one = seq![card(last, new[last])];
        if !same_entry(prev, new, last) {
            lemma_contains_append(before, one, c);
            assert(cards =~= before + one);
            assert(one[0] == card(last, new[last]));
            assert(one.contains(c) <==> c == one[0]);
        }
        if cards.contains(c) {
            if before.contains(c) {
                let id = choose|id: u8|
                    short.contains(id) && is_changed(prev, new, id, card, c);
                assert(list.contains(id));
            } else {
                assert(list.contains(last) && is_changed(prev, new, last, card, c));
            }
        }
        if exists|id: u8| list.contains(id) && is_changed(prev, new, id, card, c) {
            let id = choose|id: u8| list.contains(id) && is_changed(prev, new, id, card, c);
            if short.contains(id) {
                assert(before.contains(c));
            }
        }
    }
}

/// What the cards of the changed entries of a map hold.
proof fn lemma_changed<V>(
    prev: Map<u8, V>,
    new: Map<u8, V>,
    card: spec_fn(u8, V) -> Card,
    c: Card,
)
    ensures
        changed(prev, new, ids(new.dom()), card).contains(c) <==> exists|id: u8|
            is_changed(prev, new, id, card, c),
{
    let list = ids(new.dom());
    lemma_ids(new.dom());
    assert forall|i: int| 0 <= i < list.len() implies new.contains_key(#[trigger] list[i]) by {
        assert(new.dom().contains(list[i]));
    }
    lemma_changed_in(prev, new, list, card, c);
    assert forall|id: u8| is_changed(prev, new, id, card, c) implies list.contains(id) by {
        assert(new.dom().contains(id));
    }
}

/// What a change re-emits.
proof fn lemma_in_diff(
    prev: SnapshotModel,
    new: SnapshotModel,
    before: AutomationStore,
    after: AutomationStore,
    c: Card,
)
    ensures
        spec_diff_events(prev, new, before, after).contains(c) <==> in_diff(
            prev,
            new,
            before,
            after,
            c,
        ),
{
    let none = Seq::<Card>::empty();
    let state = if prev.connected != new.connected {
        seq![("state"@, FragmentModel::State(new))]
    } else {
        none
    };
    let system = if prev.console != new.console {
        seq![("system"@, FragmentModel::System(new))]
    } else {
        none
    };
    let automation = if badges_differ(before, after) {
        seq![automation_card(after)]
    } else {
        none
    };
    let acs = changed(prev.acs, new.acs, ids(new.acs.dom()), ac_card());
    let zones = changed(prev.zones, new.zones, ids(new.zones.dom()), zone_card());
    lemma_changed(prev.acs, new.acs, ac_card(), c);
    lemma_changed(prev.zones, new.zones, zone_card(), c);
    lemma_contains_append(state + system + acs + zones, automation, c);
    lemma_contains_append(state + system + acs, zones, c);
    lemma_contains_append(state + system, acs, c);
    lemma_contains_append(state, system, c);
    if prev.connected != new.connected {
        assert(state[0] == ("state"@, FragmentModel::State(new)));
    }
    if prev.console != new.console {
        assert(system[0] == ("system"@, FragmentModel::System(new)));
    }
    if badges_differ(before, after) {
        assert(automation[0] == automation_card(after));
    }
    assert(state.contains(c) <==> prev.connected != new.connected && c == (
        "state"@,
        FragmentModel::State(new),
    ));
    assert(system.contains(c) <==> prev.console != new.console && c == (
        "system"@,
        FragmentModel::System(new),
    ));
    assert(automation.contains(c) <==> badges_differ(before, after) && c == automation_card(after));
}

/// The decimal form of a number stands for the number.
proof fn lemma_decimal_value(n: nat)
    ensures
        digits_value(text::spec_decimal(n)) == n,
    decreases n,
{
    if n >= 10 {
        lemma_decimal_value(n / 10);
        let s = text::spec_decimal(n);
        assert(s.drop_last() =~= text::spec_decimal(n / 10));
    } else {
        let s = text::spec_decimal(n);
        assert(s.drop_last() =~= Seq::empty());
        assert(digits_value(s.drop_last()) == 0);
    }
}

/// The names of the cards for two ids, and the fixed names, differ.
proof fn lemma_names(a: u8, b: u8)
    ensures
        ac_name(a) == ac_name(b) ==> a == b,
        zone_name(a) == zone_name(b) ==> a == b,
        ac_name(a) != zone_name(b),
        ac_name(a) != "state"@,
        ac_name(a) != "system"@,
        ac_name(a) != "automation"@,
        zone_name(a) != "state"@,
        zone_name(a) != "system"@,
        zone_name(a) != "automation"@,
        "state"@ != "system"@,
        "state"@ != "automation"@,
        "system"@ != "automation"@,
{
    reveal_strlit("ac-");
    reveal_strlit("zone-");
    reveal_strlit("state");
    reveal_strlit("system");
    reveal_strlit("automation");
    lemma_decimal_value(a as nat);
    lemma_decimal_value(b as nat);
    assert(ac_name(a).skip(3) =~= text::spec_decimal(a as nat));
    assert(ac_name(b).skip(3) =~= text::spec_decimal(b as nat));
    assert(zone_name(a).skip(5) =~= text::spec_decimal(a as nat));
    assert(zone_name(b).skip(5) =~= text::spec_decimal(b as nat));
    assert(ac_name(a)[0] == 'a' && ac_name(a)[1] == 'c');
    assert(zone_name(a)[0] == 'z');
    assert(zone_name(b)[0] == 'z');
    assert("state"@[0] == 's' && "state"@[1] == 't');
    assert("system"@[0] == 's' && "system"@[1] == 'y');
    assert("automation"@[0] == 'a' && "automation"@[1] == 'u');
}

/// No two cards that the stream carries share a name.
proof fn lemma_all_names()
    ensures
        forall|x: u8, y: u8|
            #![trigger ac_name(x), ac_name(y)]
            ac_name(x) == ac_name(y) ==> x == y,
        forall|x: u8, y: u8|
            #![trigger zone_name(x), zone_name(y)]
            zone_name(x) == zone_name(y) ==> x == y,
        forall|x: u8, y: u8|
            #![trigger ac_name(x), zone_name(y)]
            ac_name(x) != zone_name(y),
        forall|x: u8| #[trigger]
            ac_name(x) != "state"@ && ac_name(x) != "system"@ && ac_name(x) != "automation"@,
        forall|x: u8| #[trigger]
            zone_name(x) != "state"@ && zone_name(x) != "system"@ && zone_name(x) != "automation"@,
        "state"@ != "system"@,
        "state"@ != "automation"@,
        "system"@ != "automation"@,
{
    assert forall|x: u8, y: u8|
        #![trigger ac_name(x), ac_name(y)]
        ac_name(x) == ac_name(y) implies x == y by {
        lemma_names(x, y);
    }
    assert forall|x: u8, y: u8|
        #![trigger zone_name(x), zone_name(y)]
        zone_name(x) == zone_name(y) implies x == y by {
        lemma_names(x, y);
    }
    assert forall|x: u8, y: u8|
        #![trigger ac_name(x), zone_name(y)]
        ac_name(x) != zone_name(y) by {
        lemma_names(x, y);
    }
    assert forall|x: u8| #[trigger]
        ac_name(x) != "state"@ && ac_name(x) != "system"@ && ac_name(x) != "automation"@ by {
        lemma_names(x, x);
    }
    assert forall|x: u8| #[trigger]
        zone_name(x) != "state"@ && zone_name(x) != "system"@ && zone_name(x) != "automation"@ by {
        lemma_names(x, x);
    }
    lemma_names(0, 0);
}

/// A state has one card of a name.
proof fn lemma_one_card(snap: SnapshotModel, automation: AutomationStore, a: Card, b: Card)
    requires
        in_full(snap, automation, a),
        in_full(snap, automation, b),
        a.0 == b.0,
    ensures
        a == b,
{
    lemma_all_names();
}

/// Every card of a state has a name of its own, so that no card is ever swapped into
/// another.
pub proof fn law_names_distinct(
    snap: SnapshotModel,
    automation: AutomationStore,
    a: Card,
    b: Card,
)
    requires
        keyed(snap),
        spec_full_events(snap, automation).contains(a),
        spec_full_events(snap, automation).contains(b),
        a.0 == b.0,
    ensures
        a == b,
{
    lemma_in_full(snap, automation, a);
    lemma_in_full(snap, automation, b);
    lemma_one_card(snap, automation, a, b);
}

/// Whether a state has a card of a name that shows the same.
pub open spec fn already_shown(snap: SnapshotModel, automation: AutomationStore, c: Card) -> bool {
    exists|p: Card| #[trigger]
        spec_full_events(snap, automation).contains(p) && p.0 == c.0 && shown(p.1) == shown(c.1)
}

/// A card that a change touches is one of the new state, and the old state had no
/// card of its name that showed the same; and the other way round.
proof fn lemma_diff_exact(
    prev: SnapshotModel,
    new: SnapshotModel,
    before: AutomationStore,
    after: AutomationStore,
    c: Card,
)
    requires
        keyed(prev),
        keyed(new),
    ensures
        in_diff(prev, new, before, after, c) <==> in_full(new, after, c) && !already_shown(
            prev,
            before,
            c,
        ),
{
    if in_diff(prev, new, before, after, c) {
        assert(in_full(new, after, c)) by {
            if exists|id: u8| is_changed(prev.acs, new.acs, id, ac_card(), c) {
                let id = choose|id: u8| is_changed(prev.acs, new.acs, id, ac_card(), c);
                assert(is_card(new.acs, id, ac_card(), c));
            }
            if exists|id: u8| is_changed(prev.zones, new.zones, id, zone_card(), c) {
                let id = choose|id: u8| is_changed(prev.zones, new.zones, id, zone_card(), c);
                assert(is_card(new.zones, id, zone_card(), c));
            }
        }
        if already_shown(prev, before, c) {
            let p = choose|p: Card| #[trigger]
                spec_full_events(prev, before).contains(p) && p.0 == c.0 && shown(p.1) == shown(
                    c.1,
                );
            lemma_in_full(prev, before, p);
            lemma_touched(prev, new, before, after, c, p);
        }
    }
    if in_full(new, after, c) && !in_diff(prev, new, before, after, c) {
        let p = lemma_untouched(prev, new, before, after, c);
        lemma_in_full(prev, before, p);
        assert(spec_full_events(prev, before).contains(p));
    }
}

/// The old card of the same name shows something else than a card that a change
/// touches.
proof fn lemma_touched(
    prev: SnapshotModel,
    new: SnapshotModel,
    before: AutomationStore,
    after: AutomationStore,
    c: Card,
    p: Card,
)
    requires
        in_diff(prev, new, before, after, c),
        in_full(prev, before, p),
        p.0 == c.0,
    ensures
        shown(p.1) != shown(c.1),
{
    lemma_all_names();
}

/// A card of the new state that a change does not touch is shown by the old state's
/// card of the same name.
proof fn lemma_untouched(
    prev: SnapshotModel,
    new: SnapshotModel,
    before: AutomationStore,
    after: AutomationStore,
    c: Card,
) -> (p: Card)
    requires
        in_full(new, after, c),
        !in_diff(prev, new, before, after, c),
    ensures
        in_full(prev, before, p),
        p.0 == c.0,
        shown(p.1) == shown(c.1),
{
    if c == ("state"@, FragmentModel::State(new)) {
        ("state"@, FragmentModel::State(prev))
    } else if c == ("system"@, FragmentModel::System(new)) {
        ("system"@, FragmentModel::System(prev))
    } else if c == automation_card(after) {
        automation_card(before)
    } else if exists|id: u8| is_card(new.acs, id, ac_card(), c) {
        let id = choose|id: u8| is_card(new.acs, id, ac_card(), c);
        assert(!is_changed(prev.acs, new.acs, id, ac_card(), c));
        assert(is_card(prev.acs, id, ac_card(), c));
        c
    } else {
        let id = choose|id: u8| is_card(new.zones, id, zone_card(), c);
        assert(!is_changed(prev.zones, new.zones, id, zone_card(), c));
        assert(is_card(prev.zones, id, zone_card(), c));
        c
    }
}

/// A change re-emits exactly what it touches: the cards of the new state that the old
/// state did not show, and no others.
pub proof fn law_diff_exact(
    prev: SnapshotModel,
    new: SnapshotModel,
    before: AutomationStore,
    after: AutomationStore,
    c: Card,
)
    requires
        keyed(prev),
        keyed(new),
    ensures
        spec_diff_events(prev, new, before, after).contains(c) <==> spec_full_events(
            new,
            after,
        ).contains(c) && !already_shown(prev, before, c),
{
    lemma_in_diff(prev, new, before, after, c);
    lemma_in_full(new, after, c);
    lemma_diff_exact(prev, new, before, after, c);
}

/// What a board shows under a name after some events that all show the same there.
proof fn lemma_swapped(
    board: Map<Seq<char>, Shown>,
    events: Seq<Card>,
    name: Seq<char>,
    value: Shown,
)
    requires
        forall|i: int|
            0 <= i < events.len() && (#[trigger] events[i]).0 == name ==> shown(events[i].1)
                == value,
        (board.contains_key(name) && board[name] == value) || exists|i: int|
            0 <= i < events.len() && (#[trigger] events[i]).0 == name,
    ensures
        swapped(board, events).contains_key(name),
        swapped(board, events)[name] == value,
    decreases events.len(),
{
    if events.len() > 0 {
        let short = events.drop_last();
        assert(events[events.len() - 1] == events.last());
        if events.last().0 != name {
            assert forall|i: int| 0 <= i < short.len() && (#[trigger] short[i]).0
                == name implies shown(short[i].1) == value by {
                assert(events[i] == short[i]);
            }
            if !(board.contains_key(name) && board[name] == value) {
                let i = choose|i: int| 0 <= i < events.len() && (#[trigger] events[i]).0 == name;
                assert(short[i].0 == name);
            }
            lemma_swapped(board, short, name, value);
        }
    }
}

/// A browser that connects shows the state: the events of the full render fill every
/// card.
pub proof fn law_connect_shows(
    board: Map<Seq<char>, Shown>,
    snap: SnapshotModel,
    automation: AutomationStore,
)
    requires
        keyed(snap),
    ensures
        shows(swapped(board, spec_full_events(snap, automation)), snap, automation),
{
    let full = spec_full_events(snap, automation);
    assert forall|i: int| 0 <= i < full.len() implies swapped(board, full).contains_key(
        (#[trigger] full[i]).0,
    ) && swapped(board, full)[full[i].0] == shown(full[i].1) by {
        assert forall|j: int| 0 <= j < full.len() && (#[trigger] full[j]).0
            == full[i].0 implies shown(full[j].1) == shown(full[i].1) by {
            assert(full.contains(full[i]));
            assert(full.contains(full[j]));
            law_names_distinct(snap, automation, full[i], full[j]);
        }
        lemma_swapped(board, full, full[i].0, shown(full[i].1));
    }
}

/// A browser that shows one state shows the next after the events of the change: the
/// few fragments that are sent stand for a full render.
pub proof fn law_diff_converges(
    board: Map<Seq<char>, Shown>,
    prev: SnapshotModel,
    new: SnapshotModel,
    before: AutomationStore,
    after: AutomationStore,
)
    requires
        keyed(prev),
        keyed(new),
        shows(board, prev, before),
    ensures
        shows(swapped(board, spec_diff_events(prev, new, before, after)), new, after),
{
    let full = spec_full_events(new, after);
    let old_full = spec_full_events(prev, before);
    let diff = spec_diff_events(prev, new, before, after);
    assert forall|i: int| 0 <= i < full.len() implies swapped(board, diff).contains_key(
        (#[trigger] full[i]).0,
    ) && swapped(board, diff)[full[i].0] == shown(full[i].1) by {
        let c = full[i];
        assert(full.contains(c));
        law_diff_exact(prev, new, before, after, c);
        assert forall|j: int| 0 <= j < diff.len() && (#[trigger] diff[j]).0
            == c.0 implies shown(diff[j].1) == shown(c.1) by {
            assert(diff.contains(diff[j]));
            law_diff_exact(prev, new, before, after, diff[j]);
            law_names_distinct(new, after, c, diff[j]);
        }
        if diff.contains(c) {
            let k = choose|k: int| 0 <= k < diff.len() && diff[k] == c;
            assert(diff[k].0 == c.0);
        } else {
            let p = choose|p: Card| #[trigger]
                old_full.contains(p) && p.0 == c.0 && shown(p.1) == shown(c.1);
            let k = choose|k: int| 0 <= k < old_full.len() && old_full[k] == p;
            assert(board.contains_key(old_full[k].0));
        }
        lemma_swapped(board, diff, c.0, shown(c.1));
    }
}

/// Where nothing changed, nothing is sent.
pub proof fn law_same_is_silent(
    snap: SnapshotModel,
    before: AutomationStore,
    after: AutomationStore,
)
    requires
        !badges_differ(before, after),
    ensures
        spec_diff_events(snap, snap, before, after) == Seq::<Card>::empty(),
{
    let diff = spec_diff_events(snap, snap, before, after);
    if diff.len() > 0 {
        let c = diff[0];
        assert(diff.contains(c));
        lemma_in_diff(snap, snap, before, after, c);
    }
    assert(diff =~= Seq::<Card>::empty());
}

/// The listener tells the cards of the stream apart by colour: AC units, zones, the
/// automation card, and the console with its connection each have one of their own.
pub proof fn law_event_colors(id: u8)
    ensures
        spec_color_for(ac_name(id)) == "33"@,
        spec_color_for(zone_name(id)) == "36"@,
        spec_color_for("automation"@) == "32"@,
        spec_color_for("system"@) == "34"@,
        spec_color_for("state"@) == "34"@,
{
    reveal_strlit("ac-");
    reveal_strlit("zone-");
    reveal_strlit("state");
    reveal_strlit("system");
    reveal_strlit("automation");
    reveal_strlit("presets");
    assert("zone-"@.is_prefix_of(zone_name(id)));
    assert("ac-"@.is_prefix_of(ac_name(id)));
    assert(ac_name(id)[0] != "zone-"@[0]);
    assert("automation"@[1] != "ac-"@[1]);
    assert("automation"@[0] != "presets"@[0]);
    assert("automation"@[0] != "zone-"@[0]);
    assert("state"@[0] != "zone-"@[0] && "state"@[0] != "ac-"@[0] && "state"@[0] != "presets"@[0]
        && "state"@[0] != "automation"@[0]);
    assert("system"@[0] != "zone-"@[0] && "system"@[0] != "ac-"@[0] && "system"@[0] != "presets"@[0]
        && "system"@[0] != "automation"@[0]);
}

/// A published snapshot starts the idle clock anew where it differs in something that a
/// user controls, and nowhere else; and where it does, that comes before the statuses
/// are read. Where the snapshot holds the same as the last one, nothing is read.
/// `taken` is the stream after the snapshot, and the actions are the next two of it.
pub proof fn law_idle_first(
    start: SseState,
    new: Arc<Snapshot>,
    taken: SseState,
    first: Action,
    next: SseState,
    second: Action,
    end: SseState,
)
    requires
        start.pending@.len() == 0,
        start.takes(new, taken),
        taken.acts(first, next),
        next.acts(second, end),
    ensures
        first == Action::RestartIdle <==> !same_controls(start.prev@, new@),
        first == Action::RestartIdle ==> second == Action::ReadStatuses,
        first == Action::ReadStatuses <==> start.prev@ != new@ && same_controls(
            start.prev@,
            new@,
        ),
        first == Action::Wait <==> start.prev@ == new@,
        second != Action::RestartIdle,
{
}

/// What a stream goes through.
pub enum Move {
    /// It takes an action.
    Acted(Action),
    /// A snapshot is published to it.
    Published(Arc<Snapshot>),
    /// It is given the events of a change.
    Given(Given),
}

/// The events of a change, with what they were made from: the automation programs with
/// the statuses that were read for the last snapshot and for the new one, and what the
/// card of each event was rendered to.
pub struct Given {
    pub before: AutomationStore,
    pub after: AutomationStore,
    pub htmls: Seq<Seq<char>>,
    pub events: Seq<Event>,
}

/// Whether a move leads from one state of a stream to another. What is given is what
/// carries the cards that the change touches.
pub open spec fn leads(state: SseState, step: Move, after: SseState) -> bool {
    match step {
        Move::Acted(action) => state.acts(action, after),
        Move::Published(new) => state.takes(new, after),
        Move::Given(g) => state.accepts(g.events, after) && carry(
            g.events,
            spec_diff_events(state.prev@, state.stage->ReadStatuses_0@, g.before, g.after),
            g.htmls,
        ),
    }
}

/// Whether a stream goes through these states by these moves.
pub open spec fn streams(states: Seq<SseState>, moves: Seq<Move>) -> bool {
    &&& states.len() == moves.len() + 1
    &&& states[0].stage == Stage::Waiting
    &&& forall|k: int|
        0 <= k < moves.len() ==> leads(#[trigger] states[k], moves[k], states[k + 1])
}

/// The events that were sent, in order.
pub open spec fn sent(moves: Seq<Move>) -> Seq<Event>
    decreases moves.len(),
{
    if moves.len() == 0 {
        Seq::empty()
    } else {
        match moves.last() {
            Move::Acted(Action::Send(event)) => sent(moves.drop_last()).push(event),
            _ => sent(moves.drop_last()),
        }
    }
}

/// What was given, in order.
pub open spec fn given(moves: Seq<Move>) -> Seq<Given>
    decreases moves.len(),
{
    if moves.len() == 0 {
        Seq::empty()
    } else {
        match moves.last() {
            Move::Given(g) => given(moves.drop_last()).push(g),
            _ => given(moves.drop_last()),
        }
    }
}

/// The events of all that was given, one list behind the other.
pub open spec fn given_events(list: Seq<Given>) -> Seq<Event>
    decreases list.len(),
{
    if list.len() == 0 {
        Seq::empty()
    } else {
        given_events(list.drop_last()) + list.last().events
    }
}

/// The snapshot that a stream was brought up to by the first `n` changes.
pub open spec fn reached(initial: Arc<Snapshot>, news: Seq<Arc<Snapshot>>, n: int) -> Arc<Snapshot> {
    if n == 0 {
        initial
    } else {
        news[n - 1]
    }
}

/// The published snapshots that differ from the one before them, in order.
pub open spec fn news(initial: Arc<Snapshot>, moves: Seq<Move>) -> Seq<Arc<Snapshot>>
    decreases moves.len(),
{
    if moves.len() == 0 {
        Seq::empty()
    } else {
        let before = news(initial, moves.drop_last());
        match moves.last() {
            Move::Published(new) => if reached(initial, before, before.len() as int)@ == new@ {
                before
            } else {
                before.push(new)
            },
            _ => before,
        }
    }
}

/// Whether what was given for a change carries exactly the cards that it touches: those
/// in which its snapshot differs from the one before it.
pub open spec fn carries_change(
    initial: Arc<Snapshot>,
    list: Seq<Arc<Snapshot>>,
    n: int,
    g: Given,
) -> bool {
    carry(
        g.events,
        spec_diff_events(reached(initial, list, n)@, list[n]@, g.before, g.after),
        g.htmls,
    )
}

/// What a stream sends, over all that it goes through: the events it starts with, those
/// of the first render, and then, for each published snapshot that differs from the one
/// before it, the events of that change, in order and each once. What is not yet sent is
/// pending, and only the last such snapshot can still be without its events.
pub proof fn law_stream(states: Seq<SseState>, moves: Seq<Move>)
    requires
        streams(states, moves),
    ensures
        ({
            let initial = states[0].prev;
            let list = news(initial, moves);
            let done = given(moves);
            &&& sent(moves) + states.last().pending@ == states[0].pending@ + given_events(done)
            &&& done.len() == (if states.last().stage == Stage::Waiting {
                list.len() as int
            } else {
                list.len() - 1
            })
            &&& forall|n: int|
                0 <= n < done.len() ==> carries_change(initial, list, n, #[trigger] done[n])
            &&& states.last().prev == reached(initial, list, done.len() as int)
            &&& match states.last().stage {
                Stage::Waiting => true,
                Stage::RestartIdle(new) => new == list.last(),
                Stage::ReadStatuses(new) => new == list.last(),
            }
        }),
    decreases moves.len(),
{
    let initial = states[0].prev;
    let list = news(initial, moves);
    let done = given(moves);
    if moves.len() == 0 {
        assert(sent(moves) + states.last().pending@ =~= states[0].pending@ + given_events(done));
    } else {
        let n = moves.len() - 1;
        let before = states.drop_last();
        let short = moves.drop_last();
        let from = states[n];
        let to = states[n + 1];
        assert forall|k: int| 0 <= k < short.len() implies leads(
            #[trigger] before[k],
            short[k],
            before[k + 1],
        ) by {
            assert(leads(states[k], moves[k], states[k + 1]));
        }
        law_stream(before, short);
        assert(before.last() == from);
        assert(states.last() == to);
        assert(leads(from, moves[n], to));
        let old_list = news(initial, short);
        let old_done = given(short);
        assert(forall|k: int|
            0 <= k <= old_list.len() ==> reached(initial, list, k) == #[trigger] reached(
                initial,
                old_list,
                k,
            ));
        assert forall|k: int| 0 <= k < old_done.len() implies carries_change(
            initial,
            list,
            k,
            #[trigger] old_done[k],
        ) by {
            assert(carries_change(initial, old_list, k, old_done[k]));
            assert(reached(initial, list, k) == reached(initial, old_list, k));
        }
        match moves[n] {
            Move::Acted(Action::Send(event)) => {
                assert(from.pending@ =~= seq![event] + to.pending@);
                assert(sent(moves) + to.pending@ =~= sent(short) + from.pending@);
            },
            Move::Acted(_) => {},
            Move::Published(new) => {},
            Move::Given(g) => {
                assert(done.drop_last() =~= old_done);
                assert(sent(moves) + to.pending@ =~= (sent(short) + from.pending@) + g.events);
                assert(states[0].pending@ + given_events(done) =~= (states[0].pending@
                    + given_events(old_done)) + g.events);
                assert(carries_change(initial, list, old_done.len() as int, g));
            },
        }
    }
}

/// The cards that a stream sends: those of the first render, and then those of each
/// change, in order.
pub open spec fn stream_cards(
    first: Seq<Card>,
    initial: Arc<Snapshot>,
    list: Seq<Arc<Snapshot>>,
    done: Seq<Given>,
) -> Seq<Card>
    decreases done.len(),
{
    if done.len() == 0 {
        first
    } else {
        let n = done.len() - 1;
        stream_cards(first, initial, list, done.drop_last()) + spec_diff_events(
            reached(initial, list, n)@,
            list[n]@,
            done[n].before,
            done[n].after,
        )
    }
}

/// What the cards of a stream were rendered to, in order.
pub open spec fn stream_htmls(first: Seq<Seq<char>>, done: Seq<Given>) -> Seq<Seq<char>>
    decreases done.len(),
{
    if done.len() == 0 {
        first
    } else {
        stream_htmls(first, done.drop_last()) + done.last().htmls
    }
}

/// Events that carry some cards, with those that carry some more behind them, carry both.
proof fn lemma_carry_append(
    a: Seq<Event>,
    a_cards: Seq<Card>,
    a_htmls: Seq<Seq<char>>,
    b: Seq<Event>,
    b_cards: Seq<Card>,
    b_htmls: Seq<Seq<char>>,
)
    requires
        carry(a, a_cards, a_htmls),
        carry(b, b_cards, b_htmls),
    ensures
        carry(a + b, a_cards + b_cards, a_htmls + b_htmls),
{
    assert forall|i: int| 0 <= i < (a_cards + b_cards).len() implies event_bytes(
        #[trigger] (a + b)[i],
    ) == encode_utf8(wire_text((a_cards + b_cards)[i].0, (a_htmls + b_htmls)[i])) by {
        if i < a.len() {
            assert((a + b)[i] == a[i]);
        } else {
            assert((a + b)[i] == b[i - a.len()]);
        }
    }
}

/// What was given carries the cards of the changes.
proof fn lemma_given_carry(
    start: Seq<Event>,
    first: Seq<Card>,
    htmls: Seq<Seq<char>>,
    initial: Arc<Snapshot>,
    list: Seq<Arc<Snapshot>>,
    done: Seq<Given>,
)
    requires
        carry(start, first, htmls),
        forall|n: int|
            0 <= n < done.len() ==> carries_change(initial, list, n, #[trigger] done[n]),
    ensures
        carry(
            start + given_events(done),
            stream_cards(first, initial, list, done),
            stream_htmls(htmls, done),
        ),
    decreases done.len(),
{
    if done.len() == 0 {
        assert(start + given_events(done) =~= start);
    } else {
        let n = done.len() - 1;
        let short = done.drop_last();
        assert forall|k: int| 0 <= k < short.len() implies carries_change(
            initial,
            list,
            k,
            #[trigger] short[k],
        ) by {
            assert(short[k] == done[k]);
        }
        lemma_given_carry(start, first, htmls, initial, list, short);
        assert(carries_change(initial, list, n, done[n]));
        lemma_carry_append(
            start + given_events(short),
            stream_cards(first, initial, list, short),
            stream_htmls(htmls, short),
            done[n].events,
            spec_diff_events(
                reached(initial, list, n)@,
                list[n]@,
                done[n].before,
                done[n].after,
            ),
            done[n].htmls,
        );
        assert(start + given_events(done) =~= (start + given_events(short)) + done[n].events);
    }
}

/// What a browser gets, from the moment it connects: the events of every card of the
/// first render, and then, for each published snapshot that differs from the one before
/// it, those of the cards that the change touches, and nothing else. What is not yet sent
/// is pending.
pub proof fn law_stream_carries(
    states: Seq<SseState>,
    moves: Seq<Move>,
    automation: AutomationStore,
    htmls: Seq<Seq<char>>,
)
    requires
        streams(states, moves),
        carry(states[0].pending@, spec_full_events(states[0].prev@, automation), htmls),
    ensures
        carry(
            sent(moves) + states.last().pending@,
            stream_cards(
                spec_full_events(states[0].prev@, automation),
                states[0].prev,
                news(states[0].prev, moves),
                given(moves),
            ),
            stream_htmls(htmls, given(moves)),
        ),
{
    law_stream(states, moves);
    lemma_given_carry(
        states[0].pending@,
        spec_full_events(states[0].prev@, automation),
        htmls,
        states[0].prev,
        news(states[0].prev, moves),
        given(moves),
    );
}

} // verus!
