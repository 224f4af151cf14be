//! Which cards the event stream sends, by the fields of the state.

use axum::response::sse::Event;
use std::collections::VecDeque;
use std::sync::Arc;
use vstd::prelude::*;
use vstd::utf8::encode_utf8;
use crate::automation::AutomationStore;
use crate::manager::laws::{
    ac_alike, ac_at_alike, badge_alike, console_alike, law_ac_fields, law_badges,
    law_console_fields, law_entry_fields, law_snapshot_fields, law_zone_fields, snapshot_alike,
    zone_alike, zone_at_alike,
};
use crate::manager::snapshot::{ids, lemma_ids, same_entry, AcView, Snapshot, ZoneView};
use crate::templates::{Fragment, FragmentModel};
use crate::text;
use crate::web::handlers::laws::lemma_pick;
use crate::web::sse::{
    ac_card, ac_cards, ac_event, automation_card, badges_differ, cards, changed, data_text,
    diff_events, event_bytes, event_name, full_events, named, queue, spec_diff_events, wire_text,
    zone_card, zone_cards, zone_event, Card, NamedFragment, SseState, Stage,
};

verus! {

/// Whether a fragment is the banner for a state.
pub open spec fn banner_of(f: NamedFragment, snap: Snapshot) -> bool {
    f.name@ == "state"@ && (f.fragment matches Fragment::State(t) && snapshot_alike(
        *t.snapshot,
        snap,
    ))
}

/// Whether a fragment is the console card for a state.
pub open spec fn console_of(f: NamedFragment, snap: Snapshot) -> bool {
    f.name@ == "system"@ && (f.fragment matches Fragment::System(t) && snapshot_alike(
        *t.snapshot,
        snap,
    ))
}

/// Whether a fragment is the card of an AC unit, under the name for an id.
pub open spec fn card_of(f: NamedFragment, id: u8, ac: AcView) -> bool {
    f.name@ == "ac-"@ + text::spec_decimal(id as nat) && (f.fragment matches Fragment::Ac(t)
        && ac_alike(*t.ac, ac))
}

/// Whether a fragment is the row of a zone, under the name for an id.
pub open spec fn row_of(f: NamedFragment, id: u8, zone: ZoneView) -> bool {
    f.name@ == "zone-"@ + text::spec_decimal(id as nat) && (f.fragment matches Fragment::Zone(t)
        && zone_alike(*t.zone, zone))
}

/// Whether a fragment is the automation card.
pub open spec fn automation_of(f: NamedFragment, automation: AutomationStore) -> bool {
    f.name@ == "automation"@ && (f.fragment matches Fragment::Automation(t) && *t.config
        == automation.config && badge_alike(t.status.badge, automation.setpoint_off.badge)
        && badge_alike(t.idle.badge, automation.idle_off.badge))
}

/// The place of a card in the order of sending: the banner, the console card, the AC
/// units by id from 2 on, the zones by id from 1000 on, and the automation card.
pub open spec fn stands_at(
    f: NamedFragment,
    place: int,
    snap: Snapshot,
    automation: AutomationStore,
    own: bool,
) -> bool {
    if place == 0 {
        banner_of(f, snap)
    } else if place == 1 {
        console_of(f, snap)
    } else if 2 <= place < 258 {
        let id = (place - 2) as u8;
        snap.acs@.contains_key(id) && card_of(
            f,
            if own {
                snap.acs@[id].id
            } else {
                id
            },
            snap.acs@[id],
        )
    } else if 1000 <= place < 1256 {
        let id = (place - 1000) as u8;
        snap.zones@.contains_key(id) && row_of(
            f,
            if own {
                snap.zones@[id].id
            } else {
                id
            },
            snap.zones@[id],
        )
    } else {
        place == 2000 && automation_of(f, automation)
    }
}

/// Whether fragments are exactly those whose places are wanted, each once and in the
/// order of the places.
pub open spec fn are_those(
    list: Seq<NamedFragment>,
    snap: Snapshot,
    automation: AutomationStore,
    own: bool,
    wanted: spec_fn(int) -> bool,
) -> bool {
    exists|places: Seq<int>| #[trigger] placed(list, places, snap, automation, own, wanted)
}

/// The same, with the places given.
pub open spec fn placed(
    list: Seq<NamedFragment>,
    places: Seq<int>,
    snap: Snapshot,
    automation: AutomationStore,
    own: bool,
    wanted: spec_fn(int) -> bool,
) -> bool {
    &&& places.len() == list.len()
    &&& forall|i: int, j: int| 0 <= i < j < places.len() ==> places[i] < places[j]
    &&& forall|i: int|
        0 <= i < list.len() ==> wanted(#[trigger] places[i]) && stands_at(
            list[i],
            places[i],
            snap,
            automation,
            own,
        )
    &&& forall|place: int| #[trigger] wanted(place) ==> places.contains(place)
}

/// The places that a change of state touches: the banner where the connection came or
/// went, the console card where some field of it differs, the card of each AC unit and
/// the row of each zone that is new or differs in some field, and the automation card
/// where a badge shows something else.
pub open spec fn touched(
    prev: Snapshot,
    new: Snapshot,
    before: AutomationStore,
    after: AutomationStore,
) -> spec_fn(int) -> bool {
    |place: int|
        if place == 0 {
            prev.connected != new.connected
        } else if place == 1 {
            !console_alike(prev.console, new.console)
        } else if 2 <= place < 258 {
            new.acs@.contains_key((place - 2) as u8) && !ac_at_alike(prev, new, (place - 2) as u8)
        } else if 1000 <= place < 1256 {
            new.zones@.contains_key((place - 1000) as u8) && !zone_at_alike(
                prev,
                new,
                (place - 1000) as u8,
            )
        } else {
            place == 2000 && !(badge_alike(before.setpoint_off.badge, after.setpoint_off.badge)
                && badge_alike(before.idle_off.badge, after.idle_off.badge))
        }
}

/// Every place that a state has a card for.
pub open spec fn every(snap: Snapshot) -> spec_fn(int) -> bool {
    |place: int|
        if 2 <= place < 258 {
            snap.acs@.contains_key((place - 2) as u8)
        } else if 1000 <= place < 1256 {
            snap.zones@.contains_key((place - 1000) as u8)
        } else {
            place == 0 || place == 1 || place == 2000
        }
}

/// The card of a place.
spec fn model_at(
    c: Card,
    place: int,
    snap: Snapshot,
    automation: AutomationStore,
    own: bool,
) -> bool {
    if place == 0 {
        c == ("state"@, FragmentModel::State(snap@))
    } else if place == 1 {
        c == ("system"@, FragmentModel::System(snap@))
    } else if 2 <= place < 258 {
        let id = (place - 2) as u8;
        let ac = snap.acs@[id];
        snap.acs@.contains_key(id) && c == ac_card()(
            if own {
                ac.id
            } else {
                id
            },
            ac@,
        )
    } else if 1000 <= place < 1256 {
        let id = (place - 1000) as u8;
        let zone = snap.zones@[id];
        snap.zones@.contains_key(id) && c == zone_card()(
            if own {
                zone.id
            } else {
                id
            },
            zone@,
        )
    } else {
        place == 2000 && c == automation_card(automation)
    }
}

/// Whether cards are those of some places within bounds, in order.
spec fn paired(
    list: Seq<Card>,
    places: Seq<int>,
    lo: int,
    hi: int,
    snap: Snapshot,
    automation: AutomationStore,
    own: bool,
) -> bool {
    &&& list.len() == places.len()
    &&& forall|i: int, j: int| 0 <= i < j < places.len() ==> places[i] < places[j]
    &&& forall|i: int| 0 <= i < places.len() ==> lo <= #[trigger] places[i] < hi
    &&& forall|i: int|
        0 <= i < list.len() ==> model_at(#[trigger] list[i], places[i], snap, automation, own)
}

/// Cards of places one behind the other.
proof fn lemma_paired(
    a: Seq<Card>,
    b: Seq<Card>,
    x: Seq<int>,
    y: Seq<int>,
    lo: int,
    mid: int,
    hi: int,
    snap: Snapshot,
    automation: AutomationStore,
    own: bool,
)
    requires
        lo <= mid <= hi,
        paired(a, x, lo, mid, snap, automation, own),
        paired(b, y, mid, hi, snap, automation, own),
    ensures
        paired(a + b, x + y, lo, hi, snap, automation, own),
        forall|v: int| #[trigger] (x + y).contains(v) <==> x.contains(v) || y.contains(v),
{
    let list = a + b;
    let places = x + y;
    assert forall|i: int| 0 <= i < list.len() implies model_at(
        #[trigger] list[i],
        places[i],
        snap,
        automation,
        own,
    ) by {
        if i < a.len() {
            assert(list[i] == a[i]);
        } else {
            assert(list[i] == b[i - a.len()]);
        }
    }
    assert forall|v: int| #[trigger] places.contains(v) <==> x.contains(v) || y.contains(v) by {
        if x.contains(v) {
            let k = choose|k: int| 0 <= k < x.len() && x[k] == v;
            assert(places[k] == v);
        }
        if y.contains(v) {
            let k = choose|k: int| 0 <= k < y.len() && y[k] == v;
            assert(places[x.len() + k] == v);
        }
        if places.contains(v) {
            let k = choose|k: int| 0 <= k < places.len() && places[k] == v;
            if k < x.len() {
                assert(x[k] == v);
            } else {
                assert(y[k - x.len()] == v);
            }
        }
    }
}

/// The cards of the changed entries are those of the ids that are changed.
proof fn lemma_changed_picks<V>(
    prev: Map<u8, V>,
    new: Map<u8, V>,
    list: Seq<u8>,
    card: spec_fn(u8, V) -> Card,
)
    ensures
        changed(prev, new, list, card) == list.filter(
            |id: u8| !same_entry(prev, new, id),
        ).map_values(|id: u8| card(id, new[id])),
    decreases list.len(),
{
    reveal(Seq::filter);
    let pick = |id: u8| !same_entry(prev, new, id);
    let make = |id: u8| card(id, new[id]);
    if list.len() > 0 {
        lemma_changed_picks(prev, new, list.drop_last(), card);
        let before = list.drop_last().filter(pick);
        if pick(list.last()) {
            assert(before.push(list.last()).map_values(make) =~= before.map_values(make).push(
                make(list.last()),
            ));
        }
    }
    assert(changed(prev, new, list, card) =~= list.filter(pick).map_values(make));
}

/// The places of some ids, from a base on.
spec fn places_of(list: Seq<u8>, base: int) -> Seq<int> {
    list.map_values(|id: u8| base + id)
}

/// The places of picked ids, in order, and which they are.
proof fn lemma_places(dom: Set<u8>, pick: spec_fn(u8) -> bool, base: int)
    ensures
        ({
            let places = places_of(ids(dom).filter(pick), base);
            &&& forall|i: int, j: int| 0 <= i < j < places.len() ==> places[i] < places[j]
            &&& forall|i: int|
                0 <= i < places.len() ==> base <= #[trigger] places[i] < base + 256 && dom.contains(
                    ids(dom).filter(pick)[i],
                ) && pick(ids(dom).filter(pick)[i])
            &&& forall|v: int| #[trigger]
                places.contains(v) <==> base <= v < base + 256 && dom.contains((v - base) as u8)
                    && pick((v - base) as u8)
        }),
{
    let list = ids(dom);
    let some = list.filter(pick);
    let places = places_of(some, base);
    lemma_ids(dom);
    lemma_pick(list, pick);
    assert forall|i: int| 0 <= i < places.len() implies base <= #[trigger] places[i] < base + 256
        && dom.contains(some[i]) && pick(some[i]) by {
        assert(pick(some[i]));
        assert(list.contains(some[i]));
    }
    assert forall|i: int, j: int| 0 <= i < j < places.len() implies places[i] < places[j] by {
        assert(some[i] < some[j]);
    }
    assert forall|v: int| #[trigger]
        places.contains(v) <==> base <= v < base + 256 && dom.contains((v - base) as u8) && pick(
            (v - base) as u8,
        ) by {
        if places.contains(v) {
            let k = choose|k: int| 0 <= k < places.len() && places[k] == v;
            assert(v == base + some[k]);
        }
        if base <= v < base + 256 && dom.contains((v - base) as u8) && pick((v - base) as u8) {
            let id = (v - base) as u8;
            let i = choose|i: int| 0 <= i < list.len() && list[i] == id;
            assert(pick(list[i]));
            let k = choose|k: int| 0 <= k < some.len() && some[k] == id;
            assert(places[k] == v);
        }
    }
}

/// A fragment with the card of a place stands at it.
proof fn lemma_stands(
    f: NamedFragment,
    place: int,
    snap: Snapshot,
    automation: AutomationStore,
    own: bool,
)
    requires
        model_at((f.name@, f.fragment@), place, snap, automation, own),
    ensures
        stands_at(f, place, snap, automation, own),
{
    match f.fragment {
        Fragment::State(t) => {
            law_snapshot_fields(*t.snapshot, snap);
        },
        Fragment::System(t) => {
            law_snapshot_fields(*t.snapshot, snap);
        },
        Fragment::Ac(t) => {
            law_ac_fields(*t.ac, snap.acs@[(place - 2) as u8]);
        },
        Fragment::Zone(t) => {
            law_zone_fields(*t.zone, snap.zones@[(place - 1000) as u8]);
        },
        Fragment::Automation(t) => {
            law_badges((*t.status, automation.setpoint_off), (*t.idle, automation.idle_off));
        },
        _ => {},
    }
}

/// Fragments whose cards are those of some places stand at them.
proof fn lemma_placed(
    list: Seq<NamedFragment>,
    places: Seq<int>,
    snap: Snapshot,
    automation: AutomationStore,
    own: bool,
    wanted: spec_fn(int) -> bool,
)
    requires
        paired(cards(list), places, 0, 2001, snap, automation, own),
        forall|v: int| #[trigger] wanted(v) <==> places.contains(v),
    ensures
        are_those(list, snap, automation, own, wanted),
{
    assert forall|i: int| 0 <= i < list.len() implies wanted(#[trigger] places[i]) && stands_at(
        list[i],
        places[i],
        snap,
        automation,
        own,
    ) by {
        assert(model_at(cards(list)[i], places[i], snap, automation, own));
        lemma_stands(list[i], places[i], snap, automation, own);
        assert(places.contains(places[i]));
    }
    assert(placed(list, places, snap, automation, own, wanted));
}

/// A change of state sends exactly the cards that it touches, in order: that of
/// everything of which some field differs, and no other.
pub proof fn law_touched(
    prev: Snapshot,
    new: Snapshot,
    before: AutomationStore,
    after: AutomationStore,
    r: Vec<NamedFragment>,
)
    requires
        call_ensures(diff_events, (&prev, &new, &before, &after), r),
    ensures
        are_those(r@, new, after, false, touched(prev, new, before, after)),
{
    lemma_touched(prev, new, before, after, r@);
}

/// A stream sends, for a new snapshot, exactly the cards that the change from its last
/// one touches.
pub proof fn law_stream_touched(
    stream: SseState,
    before: AutomationStore,
    after: AutomationStore,
    r: Vec<NamedFragment>,
)
    requires
        call_ensures(SseState::changes, (&stream, &before, &after), r),
        stream.stage is ReadStatuses,
    ensures
        are_those(
            r@,
            *stream.stage->ReadStatuses_0,
            after,
            false,
            touched(*stream.prev, *stream.stage->ReadStatuses_0, before, after),
        ),
{
    let prev = *stream.prev;
    let new = *stream.stage->ReadStatuses_0;
    lemma_touched(prev, new, before, after, r@);
}

/// The cards of a change are those that it touches.
proof fn lemma_touched(
    prev: Snapshot,
    new: Snapshot,
    before: AutomationStore,
    after: AutomationStore,
    list: Seq<NamedFragment>,
)
    requires
        cards(list) == spec_diff_events(prev@, new@, before, after),
    ensures
        are_those(list, new, after, false, touched(prev, new, before, after)),
{
    let p = prev@;
    let n = new@;
    law_console_fields(prev.console, new.console);
    law_badges(
        (before.setpoint_off, after.setpoint_off),
        (before.idle_off, after.idle_off),
    );
    assert(n.acs.dom() =~= new.acs@.dom());
    assert(n.zones.dom() =~= new.zones@.dom());
    let c0: Seq<Card> = if p.connected != n.connected {
        seq![("state"@, FragmentModel::State(n))]
    } else {
        Seq::empty()
    };
    let p0: Seq<int> = if p.connected != n.connected {
        seq![0int]
    } else {
        Seq::empty()
    };
    let c1: Seq<Card> = if p.console != n.console {
        seq![("system"@, FragmentModel::System(n))]
    } else {
        Seq::empty()
    };
    let p1: Seq<int> = if p.console != n.console {
        seq![1int]
    } else {
        Seq::empty()
    };
    let pick_ac = |id: u8| !same_entry(p.acs, n.acs, id);
    let pick_zone = |id: u8| !same_entry(p.zones, n.zones, id);
    let c2 = changed(p.acs, n.acs, ids(n.acs.dom()), ac_card());
    let p2 = places_of(ids(n.acs.dom()).filter(pick_ac), 2);
    let c3 = changed(p.zones, n.zones, ids(n.zones.dom()), zone_card());
    let p3 = places_of(ids(n.zones.dom()).filter(pick_zone), 1000);
    let c4: Seq<Card> = if badges_differ(before, after) {
        seq![automation_card(after)]
    } else {
        Seq::empty()
    };
    let p4: Seq<int> = if badges_differ(before, after) {
        seq![2000int]
    } else {
        Seq::empty()
    };
    lemma_changed_picks(p.acs, n.acs, ids(n.acs.dom()), ac_card());
    lemma_changed_picks(p.zones, n.zones, ids(n.zones.dom()), zone_card());
    lemma_places(n.acs.dom(), pick_ac, 2);
    lemma_places(n.zones.dom(), pick_zone, 1000);
    assert(paired(c0, p0, 0, 1, new, after, false));
    assert(paired(c1, p1, 1, 2, new, after, false));
    assert(paired(c2, p2, 2, 258, new, after, false)) by {
        assert forall|i: int| 0 <= i < c2.len() implies model_at(
            #[trigger] c2[i],
            p2[i],
            new,
            after,
            false,
        ) by {
            let id = ids(n.acs.dom()).filter(pick_ac)[i];
            assert(p2[i] == 2 + id);
            assert(n.acs.dom().contains(id));
        }
    }
    assert(paired(c3, p3, 1000, 1256, new, after, false)) by {
        assert forall|i: int| 0 <= i < c3.len() implies model_at(
            #[trigger] c3[i],
            p3[i],
            new,
            after,
            false,
        ) by {
            let id = ids(n.zones.dom()).filter(pick_zone)[i];
            assert(p3[i] == 1000 + id);
            assert(n.zones.dom().contains(id));
        }
    }
    assert(paired(c3, p3, 258, 2000, new, after, false));
    assert(paired(c4, p4, 2000, 2001, new, after, false));
    lemma_paired(c0, c1, p0, p1, 0, 1, 2, new, after, false);
    lemma_paired(c0 + c1, c2, p0 + p1, p2, 0, 2, 258, new, after, false);
    lemma_paired(c0 + c1 + c2, c3, p0 + p1 + p2, p3, 0, 258, 2000, new, after, false);
    lemma_paired(
        c0 + c1 + c2 + c3,
        c4,
        p0 + p1 + p2 + p3,
        p4,
        0,
        2000,
        2001,
        new,
        after,
        false,
    );
    let places = p0 + p1 + p2 + p3 + p4;
    let wanted = touched(prev, new, before, after);
    assert forall|v: int| #[trigger] wanted(v) <==> places.contains(v) by {
        assert(p0.contains(v) <==> v == 0 && p.connected != n.connected) by {
            if p.connected != n.connected {
                assert(p0[0] == 0);
            }
        }
        assert(p1.contains(v) <==> v == 1 && p.console != n.console) by {
            if p.console != n.console {
                assert(p1[0] == 1);
            }
        }
        assert(p4.contains(v) <==> v == 2000 && badges_differ(before, after)) by {
            if badges_differ(before, after) {
                assert(p4[0] == 2000);
            }
        }
        assert(places.contains(v) <==> (p0 + p1 + p2 + p3).contains(v) || p4.contains(v));
        assert((p0 + p1 + p2 + p3).contains(v) <==> (p0 + p1 + p2).contains(v) || p3.contains(v));
        assert((p0 + p1 + p2).contains(v) <==> (p0 + p1).contains(v) || p2.contains(v));
        assert((p0 + p1).contains(v) <==> p0.contains(v) || p1.contains(v));
        if 2 <= v < 258 {
            law_entry_fields(prev, new, (v - 2) as u8);
        }
        if 1000 <= v < 1256 {
            law_entry_fields(prev, new, (v - 1000) as u8);
        }
    }
    assert(cards(list) == c0 + c1 + c2 + c3 + c4);
    lemma_placed(list, places, new, after, false, wanted);
}

/// A browser that connects is sent every card, each once and in order.
pub proof fn law_full(snap: Snapshot, automation: AutomationStore, r: Vec<NamedFragment>)
    requires
        call_ensures(full_events, (&snap, &automation), r),
    ensures
        are_those(r@, snap, automation, true, every(snap)),
{
    let n = snap@;
    assert(n.acs.dom() =~= snap.acs@.dom());
    assert(n.zones.dom() =~= snap.zones@.dom());
    let all = |id: u8| true;
    let ac_ids = ids(n.acs.dom());
    let zone_ids = ids(n.zones.dom());
    text::lemma_filter_all(ac_ids, all);
    text::lemma_filter_all(zone_ids, all);
    lemma_places(n.acs.dom(), all, 2);
    lemma_places(n.zones.dom(), all, 1000);
    let c0: Seq<Card> = seq![
        ("state"@, FragmentModel::State(n)),
        ("system"@, FragmentModel::System(n)),
    ];
    let p0: Seq<int> = seq![0int, 1int];
    let c2 = ac_cards(n.acs, ac_ids);
    let p2 = places_of(ac_ids, 2);
    let c3 = zone_cards(n.zones, zone_ids);
    let p3 = places_of(zone_ids, 1000);
    let c4: Seq<Card> = seq![automation_card(automation)];
    let p4: Seq<int> = seq![2000int];
    assert(paired(c0, p0, 0, 2, snap, automation, true));
    assert(paired(c2, p2, 2, 258, snap, automation, true)) by {
        assert forall|i: int| 0 <= i < c2.len() implies model_at(
            #[trigger] c2[i],
            p2[i],
            snap,
            automation,
            true,
        ) by {
            assert(p2[i] == 2 + ac_ids[i]);
            assert(n.acs.dom().contains(ac_ids[i]));
        }
    }
    assert(paired(c3, p3, 1000, 1256, snap, automation, true)) by {
        assert forall|i: int| 0 <= i < c3.len() implies model_at(
            #[trigger] c3[i],
            p3[i],
            snap,
            automation,
            true,
        ) by {
            assert(p3[i] == 1000 + zone_ids[i]);
            assert(n.zones.dom().contains(zone_ids[i]));
        }
    }
    assert(paired(c3, p3, 258, 2000, snap, automation, true));
    assert(paired(c4, p4, 2000, 2001, snap, automation, true));
    lemma_paired(c0, c2, p0, p2, 0, 2, 258, snap, automation, true);
    lemma_paired(c0 + c2, c3, p0 + p2, p3, 0, 258, 2000, snap, automation, true);
    lemma_paired(c0 + c2 + c3, c4, p0 + p2 + p3, p4, 0, 2000, 2001, snap, automation, true);
    let places = p0 + p2 + p3 + p4;
    let wanted = every(snap);
    assert forall|v: int| #[trigger] wanted(v) <==> places.contains(v) by {
        assert(p0[0] == 0);
        assert(p0[1] == 1);
        assert(p4[0] == 2000);
        assert(places.contains(v) <==> (p0 + p2 + p3).contains(v) || p4.contains(v));
        assert((p0 + p2 + p3).contains(v) <==> (p0 + p2).contains(v) || p3.contains(v));
        assert((p0 + p2).contains(v) <==> p0.contains(v) || p2.contains(v));
    }
    assert(cards(r@) == c0 + c2 + c3 + c4);
    lemma_placed(r@, places, snap, automation, true, wanted);
}

/// Where a zone is held before and after, and any field of it differs, its row is among
/// the cards that are sent: whatever its sensor reads, what it is called, how it is
/// controlled and what it is set to.
pub proof fn law_zone_change_is_sent(
    prev: Snapshot,
    new: Snapshot,
    before: AutomationStore,
    after: AutomationStore,
    id: u8,
    r: Vec<NamedFragment>,
)
    requires
        call_ensures(diff_events, (&prev, &new, &before, &after), r),
        prev.zones@.contains_key(id),
        new.zones@.contains_key(id),
        ({
            let a = prev.zones@[id];
            let b = new.zones@[id];
            ||| a.id != b.id
            ||| a.name@ != b.name@
            ||| a.ac_id != b.ac_id
            ||| a.ac_mode_slug is Some != b.ac_mode_slug is Some
            ||| a.ac_mode_slug is Some && b.ac_mode_slug is Some && a.ac_mode_slug->0@
                != b.ac_mode_slug->0@
            ||| a.power != b.power
            ||| a.has_sensor != b.has_sensor
            ||| a.control_mode != b.control_mode
            ||| a.airflow_pct != b.airflow_pct
            ||| a.setpoint != b.setpoint
            ||| a.sensor != b.sensor
            ||| a.flags@.len() != b.flags@.len()
            ||| exists|i: int|
                0 <= i < a.flags@.len() && (#[trigger] a.flags@[i])@ != b.flags@[i]@
        }),
    ensures
        exists|i: int| 0 <= i < r@.len() && row_of(#[trigger] r@[i], id, new.zones@[id]),
{
    law_touched(prev, new, before, after, r);
    let wanted = touched(prev, new, before, after);
    let places = choose|places: Seq<int>| #[trigger]
        placed(r@, places, new, after, false, wanted);
    assert(!zone_at_alike(prev, new, id));
    let place = 1000 + id;
    assert((place - 1000) as u8 == id);
    assert(wanted(place));
    let i = choose|i: int| 0 <= i < places.len() && places[i] == place;
    assert(stands_at(r@[i], places[i], new, after, false));
}

/// The events of an AC unit and of a zone are named after its kind and its id.
pub proof fn law_card_names(id: u8, ac: String, zone: String)
    requires
        call_ensures(ac_event, (id,), ac),
        call_ensures(zone_event, (id,), zone),
    ensures
        ac@ == "ac-"@ + text::spec_decimal(id as nat),
        zone@ == "zone-"@ + text::spec_decimal(id as nat),
{
}

/// A text can name an event exactly where it holds no line end.
pub proof fn law_event_name(name: Seq<char>)
    ensures
        event_name(name) <==> !name.contains('\n') && !name.contains('\r'),
{
    if event_name(name) {
        assert(!name.contains('\n')) by {
            if name.contains('\n') {
                let k = choose|k: int| 0 <= k < name.len() && name[k] == '\n';
                assert(name[k] != '\n');
            }
        }
        assert(!name.contains('\r')) by {
            if name.contains('\r') {
                let k = choose|k: int| 0 <= k < name.len() && name[k] == '\r';
                assert(name[k] != '\r');
            }
        }
    }
}

/// Data is sent as it is, but for a new field begun behind each line end.
pub proof fn law_data_text(a: Seq<char>, b: Seq<char>)
    ensures
        data_text(a + b) == data_text(a) + data_text(b),
        !a.contains('\n') && !a.contains('\r') ==> data_text(a) == a,
        data_text(seq!['\n']) == seq!['\n'] + "data: "@,
        data_text(seq!['\r']) == seq!['\r'] + "data: "@,
{
    lemma_data_append(a, b);
    if !a.contains('\n') && !a.contains('\r') {
        lemma_data_plain(a);
    }
    assert(seq!['\n'].drop_last() =~= Seq::<char>::empty());
    assert(seq!['\r'].drop_last() =~= Seq::<char>::empty());
    assert(data_text(Seq::<char>::empty()) =~= Seq::<char>::empty());
    assert(data_text(seq!['\n']) =~= seq!['\n'] + "data: "@);
    assert(data_text(seq!['\r']) =~= seq!['\r'] + "data: "@);
}

/// Data behind data is sent behind it.
proof fn lemma_data_append(a: Seq<char>, b: Seq<char>)
    ensures
        data_text(a + b) == data_text(a) + data_text(b),
    decreases b.len(),
{
    if b.len() == 0 {
        assert(a + b =~= a);
        assert(data_text(a) + data_text(b) =~= data_text(a));
    } else {
        lemma_data_append(a, b.drop_last());
        assert((a + b).drop_last() =~= a + b.drop_last());
        assert(data_text(a + b) =~= data_text(a) + data_text(b));
    }
}

/// Data without line ends is sent as it is.
proof fn lemma_data_plain(a: Seq<char>)
    requires
        !a.contains('\n'),
        !a.contains('\r'),
    ensures
        data_text(a) == a,
    decreases a.len(),
{
    if a.len() > 0 {
        let t = a.drop_last();
        assert(a[a.len() - 1] == a.last());
        assert forall|c: char| t.contains(c) implies a.contains(c) by {
            let k = choose|k: int| 0 <= k < t.len() && t[k] == c;
            assert(a[k] == c);
        }
        lemma_data_plain(t);
        assert(t.push(a.last()) =~= a);
    }
}

/// An event is sent as its name, its data, if there is any, and an empty line.
pub proof fn law_wire(card: NamedFragment, html: &str, r: Event)
    requires
        call_ensures(named, (&card, html), r),
    ensures
        html@.len() > 0 ==> event_bytes(r) == encode_utf8(
            "event: "@ + card.name@ + "\ndata: "@ + data_text(html@) + "\n\n"@,
        ),
        html@.len() == 0 ==> event_bytes(r) == encode_utf8("event: "@ + card.name@ + "\n\n"@),
{
    reveal_strlit("\ndata: ");
    reveal_strlit("data: ");
    reveal_strlit("\n\n");
    assert("\n\n"@ =~= seq!['\n', '\n']);
    assert("\ndata: "@ =~= seq!['\n'] + "data: "@);
    if html@.len() > 0 {
        assert(wire_text(card.name@, html@) =~= "event: "@ + card.name@ + "\ndata: "@ + data_text(
            html@,
        ) + "\n\n"@);
    } else {
        assert(wire_text(card.name@, html@) =~= "event: "@ + card.name@ + "\n\n"@);
    }
}

/// Each fragment is queued as the event of its name with what it was rendered to, in
/// order.
pub proof fn law_queue(list: Vec<NamedFragment>, htmls: Vec<String>, r: VecDeque<Event>)
    requires
        call_ensures(queue, (&list, htmls), r),
    ensures
        r@.len() == list@.len(),
        forall|i: int|
            0 <= i < list@.len() ==> event_bytes(#[trigger] r@[i]) == encode_utf8(
                wire_text(list@[i].name@, htmls@[i]@),
            ),
{
    assert forall|i: int| 0 <= i < list@.len() implies event_bytes(#[trigger] r@[i])
        == encode_utf8(wire_text(list@[i].name@, htmls@[i]@)) by {
        assert(cards(list@)[i].0 == list@[i].name@);
        assert(text::texts(htmls@)[i] == htmls@[i]@);
    }
}

/// A stream starts at the snapshot that it was rendered from, with its first events
/// still to be sent.
pub proof fn law_connect(initial: Arc<Snapshot>, events: VecDeque<Event>, r: SseState)
    requires
        call_ensures(SseState::connect, (initial, events), r),
    ensures
        r.prev == initial,
        r.pending@ == events@,
        r.stage == Stage::Waiting,
{
}

} // verus!
