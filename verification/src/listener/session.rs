//! A listening session: the buffer of what has arrived, the tally of events
//! by label, and when the session ends.

use vstd::prelude::*;
use crate::listener::display::{color_for, paint, spec_color_for, spec_paint};
use crate::listener::event::{
    drain_frames, frame_len, frames, lemma_frame_len, models, parsed, rest, spec_label, EventModel,
    SseEvent,
};
use crate::listener::laws::law_drained;
use crate::text;

verus! {

/// How often each label was seen, in the order of the labels.
pub struct Counts {
    entries: Vec<(String, u64)>,
}

/// The tally of some entries.
pub open spec fn tally_of(entries: Seq<(Seq<char>, nat)>) -> Map<Seq<char>, nat>
    decreases entries.len(),
{
    if entries.len() == 0 {
        Map::empty()
    } else {
        tally_of(entries.drop_last()).insert(entries.last().0, entries.last().1)
    }
}

/// The sum of the counts of some entries.
pub open spec fn sum_of(entries: Seq<(Seq<char>, nat)>) -> nat
    decreases entries.len(),
{
    if entries.len() == 0 {
        0
    } else {
        sum_of(entries.drop_last()) + entries.last().1
    }
}

/// The labels stand in strictly ascending order.
pub open spec fn ascending(entries: Seq<(Seq<char>, nat)>) -> bool {
    forall|i: int, j: int|
        0 <= i < j < entries.len() ==> text::spec_before(
            (#[trigger] entries[i]).0,
            (#[trigger] entries[j]).0,
        )
}

/// A tally after one more event with the label `label`.
pub open spec fn counted(tally: Map<Seq<char>, nat>, label: Seq<char>) -> Map<Seq<char>, nat> {
    tally.insert(
        label,
        if tally.contains_key(label) {
            tally[label] + 1
        } else {
            1
        },
    )
}

/// A tally after some more events.
pub open spec fn counted_all(tally: Map<Seq<char>, nat>, events: Seq<EventModel>) -> Map<
    Seq<char>,
    nat,
>
    decreases events.len(),
{
    if events.len() == 0 {
        tally
    } else {
        counted(counted_all(tally, events.drop_last()), spec_label(events.last()))
    }
}

/// A tally holds the labels of its entries, each with its count.
pub(crate) proof fn lemma_tally(entries: Seq<(Seq<char>, nat)>)
    requires
        ascending(entries),
    ensures
        forall|l: Seq<char>|
            tally_of(entries).contains_key(l) <==> exists|i: int|
                0 <= i < entries.len() && (#[trigger] entries[i]).0 == l,
        forall|i: int|
            0 <= i < entries.len() ==> tally_of(entries)[(#[trigger] entries[i]).0] == entries[i].1,
    decreases entries.len(),
{
    if entries.len() > 0 {
        let t = entries.drop_last();
        assert(forall|i: int| 0 <= i < t.len() ==> #[trigger] t[i] == entries[i]);
        lemma_tally(t);
        assert forall|l: Seq<char>|
            tally_of(entries).contains_key(l) <==> exists|i: int|
                0 <= i < entries.len() && (#[trigger] entries[i]).0 == l by {
            if l == entries.last().0 {
                assert(entries[entries.len() - 1].0 == l);
            }
            if tally_of(t).contains_key(l) {
                let i = choose|i: int| 0 <= i < t.len() && (#[trigger] t[i]).0 == l;
                assert(entries[i].0 == l);
            }
            if exists|i: int| 0 <= i < entries.len() && (#[trigger] entries[i]).0 == l {
                let i = choose|i: int| 0 <= i < entries.len() && (#[trigger] entries[i]).0 == l;
                if i < t.len() {
                    assert(t[i].0 == l);
                }
            }
        }
        assert forall|i: int| 0 <= i < entries.len() implies tally_of(entries)[(
        #[trigger] entries[i]).0] == entries[i].1 by {
            if i < t.len() {
                assert(t[i] == entries[i]);
                text::lemma_before_total(entries[i].0, entries[entries.len() - 1].0);
            }
        }
    }
}

/// A further entry adds its count to the sum.
proof fn lemma_sum_insert(entries: Seq<(Seq<char>, nat)>, at: int, entry: (Seq<char>, nat))
    requires
        0 <= at <= entries.len(),
    ensures
        sum_of(entries.insert(at, entry)) == sum_of(entries) + entry.1,
    decreases entries.len(),
{
    let longer = entries.insert(at, entry);
    if at == entries.len() {
        assert(longer.drop_last() =~= entries);
    } else {
        lemma_sum_insert(entries.drop_last(), at, entry);
        assert(longer.drop_last() =~= entries.drop_last().insert(at, entry));
    }
}

/// A changed entry changes the sum by the difference.
proof fn lemma_sum_update(entries: Seq<(Seq<char>, nat)>, at: int, entry: (Seq<char>, nat))
    requires
        0 <= at < entries.len(),
    ensures
        sum_of(entries.update(at, entry)) == sum_of(entries) - entries[at].1 + entry.1,
        entries[at].1 <= sum_of(entries),
    decreases entries.len(),
{
    let changed = entries.update(at, entry);
    if at == entries.len() - 1 {
        assert(changed.drop_last() =~= entries.drop_last());
    } else {
        lemma_sum_update(entries.drop_last(), at, entry);
        assert(changed.drop_last() =~= entries.drop_last().update(at, entry));
    }
}

impl Counts {
    /// The entries: each label with its count.
    pub closed spec fn entries(self) -> Seq<(Seq<char>, nat)> {
        Seq::new(
            self.entries@.len(),
            |i: int| (self.entries@[i].0@, self.entries@[i].1 as nat),
        )
    }

    /// Each label stands once, in the order of the labels.
    pub open spec fn wf(self) -> bool {
        ascending(self.entries())
    }

    /// How often each label that was seen was seen.
    pub open spec fn tally(self) -> Map<Seq<char>, nat> {
        tally_of(self.entries())
    }

    /// How many events were counted.
    pub open spec fn sum(self) -> nat {
        sum_of(self.entries())
    }

    /// No label was seen yet.
    pub fn new() -> (r: Self)
        ensures
            r.wf(),
            r.tally() == Map::<Seq<char>, nat>::empty(),
            r.sum() == 0,
    {
        let r = Counts { entries: Vec::new() };
        assert(r.entries() =~= Seq::empty());
        r
    }

    /// Counts one event with this label.
    pub fn count(&mut self, label: String)
        requires
            old(self).wf(),
            old(self).sum() < u64::MAX,
        ensures
            final(self).wf(),
            final(self).tally() == counted(old(self).tally(), label@),
            final(self).sum() == old(self).sum() + 1,
    {
        let ghost start = self.entries();
        let mut at: usize = 0;
        while at < self.entries.len() && text::before(
            self.entries[at].0.as_str(),
            label.as_str(),
        )
            invariant
                at <= self.entries@.len(),
                self.entries() == start,
                forall|i: int| 0 <= i < at ==> text::spec_before((#[trigger] start[i]).0, label@),
            decreases self.entries@.len() - at,
        {
            assert(start[at as int].0 == self.entries@[at as int].0@);
            at = at + 1;
        }
        proof {
            lemma_tally(start);
        }
        if at < self.entries.len() && text::same(self.entries[at].0.as_str(), label.as_str()) {
            let ghost entry = (label@, start[at as int].1 + 1);
            proof {
                lemma_sum_update(start, at as int, entry);
            }
            let n: u64 = self.entries[at].1;
            self.entries[at] = (label, n + 1);
            let ghost end = start.update(at as int, entry);
            assert(self.entries() =~= end);
            assert(ascending(end));
            proof {
                lemma_tally(end);
                assert(start[at as int].0 == label@);
                assert forall|l: Seq<char>| tally_of(end).contains_key(l) == tally_of(
                    start,
                ).contains_key(l) by {
                    if tally_of(end).contains_key(l) {
                        let i = choose|i: int| 0 <= i < end.len() && (#[trigger] end[i]).0 == l;
                        assert(start[i].0 == l);
                    }
                    if tally_of(start).contains_key(l) {
                        let i = choose|i: int| 0 <= i < start.len() && (#[trigger] start[i]).0 == l;
                        assert(end[i].0 == l);
                    }
                }
                assert forall|l: Seq<char>| tally_of(end).contains_key(l) implies tally_of(end)[l]
                    == counted(tally_of(start), label@)[l] by {
                    let i = choose|i: int| 0 <= i < end.len() && (#[trigger] end[i]).0 == l;
                    assert(start[i].0 == l);
                    if i != at {
                        text::lemma_before_total(start[i].0, start[at as int].0);
                        text::lemma_before_total(start[at as int].0, start[i].0);
                    }
                }
                assert(end[at as int].0 == label@);
                assert(tally_of(start).contains_key(label@));
                assert(tally_of(end) =~= counted(tally_of(start), label@));
            }
        } else {
            let ghost entry = (label@, 1nat);
            let ghost end = start.insert(at as int, entry);
            proof {
                lemma_sum_insert(start, at as int, entry);
                if at < start.len() {
                    text::lemma_before_total(start[at as int].0, label@);
                }
                assert forall|j: int| at <= j < start.len() implies text::spec_before(
                    label@,
                    (#[trigger] start[j]).0,
                ) by {
                    if j > at {
                        text::lemma_before_transitive(label@, start[at as int].0, start[j].0);
                    }
                }
                assert forall|i: int, j: int| 0 <= i < j < end.len() implies text::spec_before(
                    (#[trigger] end[i]).0,
                    (#[trigger] end[j]).0,
                ) by {
                    if i < at && j > at {
                        assert(end[i] == start[i] && end[j] == start[j - 1]);
                    } else if i < at && j == at {
                        assert(end[i] == start[i]);
                    } else if i == at {
                        assert(end[j] == start[j - 1]);
                    } else if j < at {
                        assert(end[i] == start[i] && end[j] == start[j]);
                    } else {
                        assert(end[i] == start[i - 1] && end[j] == start[j - 1]);
                    }
                }
                lemma_tally(end);
                assert(!tally_of(start).contains_key(label@)) by {
                    if tally_of(start).contains_key(label@) {
                        let i = choose|i: int|
                            0 <= i < start.len() && (#[trigger] start[i]).0 == label@;
                        text::lemma_before_total(start[i].0, label@);
                        text::lemma_before_total(label@, start[i].0);
                    }
                }
                assert forall|l: Seq<char>|
                    tally_of(end).contains_key(l) == counted(
                        tally_of(start),
                        label@,
                    ).contains_key(l) by {
                    if tally_of(end).contains_key(l) && l != label@ {
                        let i = choose|i: int| 0 <= i < end.len() && (#[trigger] end[i]).0 == l;
                        if i < at {
                            assert(start[i].0 == l);
                        } else {
                            assert(start[i - 1].0 == l);
                        }
                    }
                    if tally_of(start).contains_key(l) {
                        let i = choose|i: int| 0 <= i < start.len() && (#[trigger] start[i]).0 == l;
                        if i < at {
                            assert(end[i].0 == l);
                        } else {
                            assert(end[i + 1].0 == l);
                        }
                    }
                    assert(end[at as int].0 == label@);
                }
                assert forall|l: Seq<char>| tally_of(end).contains_key(l) implies tally_of(end)[l]
                    == counted(tally_of(start), label@)[l] by {
                    let i = choose|i: int| 0 <= i < end.len() && (#[trigger] end[i]).0 == l;
                    if i < at {
                        assert(start[i] == end[i]);
                    } else if i > at {
                        assert(start[i - 1] == end[i]);
                    }
                }
                assert(tally_of(end) =~= counted(tally_of(start), label@));
            }
            self.entries.insert(at, (label, 1));
            assert(self.entries() =~= end);
        }
    }
}

/// The line of the summary for one label.
pub open spec fn summary_line(entry: (Seq<char>, nat), color: bool) -> Seq<char> {
    "  "@ + text::spec_pad_right(spec_paint(entry.0, spec_color_for(entry.0), color), 16) + " "@
        + text::spec_decimal(entry.1)
}

/// The lines of the summary: a heading with the total, then one line per label.
pub open spec fn spec_summary_lines(
    entries: Seq<(Seq<char>, nat)>,
    total: nat,
    color: bool,
) -> Seq<Seq<char>> {
    if total == 0 {
        seq!["no events received."@]
    } else {
        let head = "\n"@ + spec_paint("summary"@, "1"@, color) + " ("@ + text::spec_decimal(total)
            + " total):"@;
        seq![head] + entries.map_values(|e: (Seq<char>, nat)| summary_line(e, color))
    }
}

/// What happened on the stream.
pub enum Input {
    /// The user interrupted the listener.
    Interrupted,
    /// The time limit was reached.
    Deadline,
    /// Bytes arrived.
    Chunk(Vec<u8>),
    /// Reading failed, for the reason given.
    Failed(String),
    /// The server closed the stream.
    Closed,
}

/// What to do about it.
pub enum Step {
    /// Print these events and go on.
    Show(Vec<SseEvent>),
    /// Print this message and the summary, and stop.
    Stop(String),
}

/// The message with which the session ends on an input, if it does.
pub open spec fn stop_message(input: Input) -> Option<Seq<char>> {
    match input {
        Input::Interrupted => Some("\ninterrupted."@),
        Input::Deadline => Some("\ntimeout reached."@),
        Input::Chunk(_) => None,
        Input::Failed(e) => Some("\nstream error: "@ + e@),
        Input::Closed => Some("\nstream closed by server."@),
    }
}

/// How many bytes an input brings.
pub open spec fn arriving(input: Input) -> nat {
    match input {
        Input::Chunk(bytes) => bytes@.len(),
        _ => 0,
    }
}

/// The state of a listening session.
pub struct Session {
    counts: Counts,
    total: u64,
    buf: Vec<u8>,
}

/// What comes out of a buffer and what stays in it are no more than what was in it.
pub proof fn lemma_fewer_events(buf: Seq<u8>)
    ensures
        parsed(frames(buf)).len() + rest(buf).len() <= buf.len(),
{
    lemma_fewer_frames(buf);
    lemma_parsed_len(frames(buf));
}

/// The frames of a buffer and what stays in it are no more than what was in it.
proof fn lemma_fewer_frames(buf: Seq<u8>)
    ensures
        frames(buf).len() + rest(buf).len() <= buf.len(),
    decreases buf.len(),
{
    lemma_frame_len(buf);
    if let Some(n) = frame_len(buf) {
        lemma_fewer_frames(buf.skip(n as int));
    }
}

/// No more events than frames are read.
proof fn lemma_parsed_len(raw: Seq<Seq<u8>>)
    ensures
        parsed(raw).len() <= raw.len(),
    decreases raw.len(),
{
    if raw.len() > 0 {
        lemma_parsed_len(raw.drop_last());
    }
}

impl Session {
    /// The tally of the events so far, by label.
    pub closed spec fn tally(self) -> Map<Seq<char>, nat> {
        self.counts.tally()
    }

    /// The labels so far in ascending order, each with its count.
    pub closed spec fn entries(self) -> Seq<(Seq<char>, nat)> {
        self.counts.entries()
    }

    /// How many events there were so far.
    pub closed spec fn total(self) -> nat {
        self.total as nat
    }

    /// The bytes that are not yet part of a complete frame.
    pub closed spec fn pending(self) -> Seq<u8> {
        self.buf@
    }

    /// The entries are in order, hold the tally, and sum up to the total; and no complete
    /// frame waits.
    pub open spec fn wf(self) -> bool {
        &&& ascending(self.entries())
        &&& tally_of(self.entries()) == self.tally()
        &&& sum_of(self.entries()) == self.total()
        &&& frame_len(self.pending()) is None
    }

    /// Whether a session shows these events for some bytes and stands at `after` then:
    /// the events of the frames that the bytes complete are shown and counted, and what
    /// is left of the bytes waits.
    pub open spec fn took(self, bytes: Seq<u8>, shown: Seq<EventModel>, after: Session) -> bool {
        let all = self.pending() + bytes;
        &&& shown == parsed(frames(all))
        &&& after.pending() == rest(all)
        &&& after.total() == self.total() + shown.len()
        &&& after.tally() == counted_all(self.tally(), shown)
    }

    /// Nothing has arrived yet.
    pub fn new() -> (r: Self)
        ensures
            r.wf(),
            r.tally() == Map::<Seq<char>, nat>::empty(),
            r.total() == 0,
            r.pending() == Seq::<u8>::empty(),
    {
        Session { counts: Counts::new(), total: 0, buf: Vec::new() }
    }

    /// How many events there were so far.
    pub fn event_count(&self) -> (r: u64)
        ensures
            r == self.total(),
    {
        self.total
    }

    /// How many bytes wait for the rest of their frame.
    pub fn pending_len(&self) -> (r: usize)
        ensures
            r == self.pending().len(),
    {
        self.buf.len()
    }

    /// Takes in what happened on the stream. Bytes are put behind those that
    /// wait; the frames that are then complete are taken out, counted and handed
    /// back to be shown. Anything else ends the session.
    pub fn step(&mut self, input: Input) -> (r: Step)
        requires
            old(self).wf(),
            old(self).total() + old(self).pending().len() + arriving(input) <= u64::MAX,
        ensures
            final(self).wf(),
            match input {
                Input::Chunk(bytes) => r matches Step::Show(shown) && old(self).took(
                    bytes@,
                    models(shown@),
                    *final(self),
                ),
                _ => {
                    &&& r matches Step::Stop(message) && stop_message(input) == Some(message@)
                    &&& *final(self) == *old(self)
                },
            },
            input matches Input::Chunk(bytes) ==> r is Show && models(r->Show_0@) == parsed(
                frames(old(self).pending() + bytes@),
            ) && final(self).pending() == rest(old(self).pending() + bytes@) && final(self).total()
                == old(self).total() + r->Show_0@.len() && final(self).tally() == counted_all(
                old(self).tally(),
                models(r->Show_0@),
            ),
            input is Interrupted ==> r is Stop && r->Stop_0@ == "\ninterrupted."@,
            input is Deadline ==> r is Stop && r->Stop_0@ == "\ntimeout reached."@,
            input is Closed ==> r is Stop && r->Stop_0@ == "\nstream closed by server."@,
            input matches Input::Failed(e) ==> r is Stop && r->Stop_0@ == "\nstream error: "@ + e@,
    {
        match input {
            Input::Interrupted => Step::Stop("\ninterrupted.".to_owned()),
            Input::Deadline => Step::Stop("\ntimeout reached.".to_owned()),
            Input::Failed(e) => Step::Stop(text::joined("\nstream error: ", e.as_str())),
            Input::Closed => Step::Stop("\nstream closed by server.".to_owned()),
            Input::Chunk(bytes) => {
                let mut more = bytes;
                let ghost all = self.buf@ + more@;
                let ghost tally = self.counts.tally();
                let ghost total = self.total;
                self.buf.append(&mut more);
                let events = drain_frames(&mut self.buf);
                let ghost seen = models(events@);
                proof {
                    lemma_fewer_events(all);
                    law_drained(all);
                    assert(seen.take(0) =~= Seq::empty());
                }
                for i in 0..events.len()
                    invariant
                        self.counts.wf(),
                        self.counts.sum() == self.total,
                        self.total == total + i,
                        total + events@.len() <= u64::MAX,
                        seen == models(events@),
                        self.counts.tally() == counted_all(tally, seen.take(i as int)),
                        self.buf@ == rest(all),
                {
                    let label = events[i].label();
                    self.counts.count(label);
                    self.total = self.total + 1;
                    assert(seen.take(i + 1).drop_last() =~= seen.take(i as int));
                    assert(seen.take(i + 1).last() == events@[i as int]@);
                }
                assert(seen.take(seen.len() as int) =~= seen);
                Step::Show(events)
            },
        }
    }

    /// The lines of the summary that ends a session.
    pub fn summary_lines(&self, color: bool) -> (r: Vec<String>)
        requires
            self.wf(),
        ensures
            text::texts(r@) == spec_summary_lines(self.entries(), self.total(), color),
    {
        let mut out: Vec<String> = Vec::new();
        if self.total == 0 {
            out.push("no events received.".to_owned());
            assert(text::texts(out@) =~= spec_summary_lines(self.entries(), self.total(), color));
            return out;
        }
        let mut head = text::joined("\n", paint("summary", "1", color).as_str());
        head.append(" (");
        head.append(text::decimal(self.total).as_str());
        head.append(" total):");
        let ghost first = head@;
        out.push(head);
        let ghost body = self.entries().map_values(
            |e: (Seq<char>, nat)| summary_line(e, color),
        );
        assert(text::texts(out@) =~= seq![first] + body.take(0));
        for i in 0..self.counts.entries.len()
            invariant
                body == self.entries().map_values(|e: (Seq<char>, nat)| summary_line(e, color)),
                text::texts(out@) == seq![first] + body.take(i as int),
        {
            let label = self.counts.entries[i].0.as_str();
            let mut line = text::joined(
                "  ",
                text::pad_right(paint(label, color_for(label), color).as_str(), 16).as_str(),
            );
            line.append(" ");
            line.append(text::decimal(self.counts.entries[i].1).as_str());
            let ghost held = out@;
            out.push(line);
            proof {
                text::lemma_texts_push(held, line);
                assert(line@ == body[i as int]);
                assert(seq![first] + body.take(i + 1) =~= (seq![first] + body.take(i as int)).push(
                    body[i as int],
                ));
            }
        }
        assert(body.take(body.len() as int) =~= body);
        out
    }
}

/// The address of the stream: the server and the request path.
pub fn stream_url(addr: &str, path: &str) -> (r: String)
    ensures
        r@ == "http://"@ + addr@ + path@,
{
    let mut out = text::joined("http://", addr);
    out.append(path);
    out
}

/// Whether a response with this status is listened to: only a success (2xx)
/// is. `shown` is the status as it is written in the error.
pub fn check_status(code: u16, shown: &str) -> (r: Result<(), String>)
    ensures
        match r {
            Ok(_) => 200 <= code < 300,
            Err(e) => !(200 <= code < 300) && e@ == "unexpected HTTP status: "@ + shown@,
        },
{
    if 200 <= code && code < 300 {
        Ok(())
    } else {
        Err(text::joined("unexpected HTTP status: ", shown))
    }
}

} // verus!
