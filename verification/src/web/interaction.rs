//! A control request under way: the commands it sends, one after the other, and
//! the fragment it is answered with once all of them were carried out.

use vstd::prelude::*;
use crate::manager::command::{reply_error, settle, Command, Reply};
use crate::manager::snapshot::BulkModeView;
use crate::templates;
use crate::templates::{opt_name, rows, spec_rows, Fragment};
use crate::web::error::{missing, missing_text, AppError};
use crate::web::state::AppState;

verus! {

/// What a request is answered with, read from the state after its commands.
#[derive(Copy, Clone, Debug, PartialEq, Eq, Structural)]
pub enum Answer {
    /// The row of a zone.
    Zone(u8),
    /// The card of an AC unit.
    Ac(u8),
    /// All zone rows; the bar shows the given mode, or the live one.
    Zones(Option<BulkModeView>),
    /// The console card.
    System,
    /// The presets card.
    Presets,
}

/// A control request under way.
#[derive(Debug, PartialEq, Eq)]
pub struct Interaction {
    /// Every command of the request, in the order of sending.
    pub commands: Vec<Command>,
    /// How many of them were carried out.
    pub done: usize,
    pub answer: Answer,
}

/// What a request comes to: its commands, or the message that refuses it.
pub type Plan = Result<Seq<Command>, Seq<char>>;

/// Whether a handler's result is what a plan says: the request refused with the
/// plan's message, or its commands ready to be sent.
pub open spec fn meets(r: Result<Interaction, AppError>, plan: Plan, answer: Answer) -> bool {
    match plan {
        Ok(commands) => r matches Ok(i) && i.commands@ == commands && i.done == 0 && i.answer
            == answer,
        Err(message) => r matches Err(e) && e@ == message,
    }
}

/// Whether a result is what a state answers a request with.
pub open spec fn answered(state: AppState, answer: Answer, r: Result<Fragment, AppError>) -> bool {
    let snap = state.snap();
    match answer {
        Answer::Zone(id) => if snap.zones@.contains_key(id) {
            r matches Ok(Fragment::Zone(t)) && *t.zone == snap.zones@[id]
        } else {
            r matches Err(e) && e@ == missing_text("zone"@, id)
        },
        Answer::Ac(id) => if snap.acs@.contains_key(id) {
            r matches Ok(Fragment::Ac(t)) && *t.ac == snap.acs@[id]
        } else {
            r matches Err(e) && e@ == missing_text("ac"@, id)
        },
        Answer::Zones(mode) => r matches Ok(Fragment::Zones(t)) && *t.snapshot == snap
            && t.bulk_mode == match mode {
            Some(m) => m,
            None => snap.bulk_mode,
        },
        Answer::System => r matches Ok(Fragment::System(t)) && *t.snapshot == snap,
        Answer::Presets => r matches Ok(Fragment::Presets(t)) && rows(t.presets@) == spec_rows(
            state.scenes.config.scenes@,
            opt_name(state.scenes.active),
        ) && t.has_active == state.scenes.active.is_some(),
    }
}

/// The fragment that a state answers with.
pub fn render_answer<'a>(state: &'a AppState, answer: Answer) -> (r: Result<Fragment<'a>, AppError>)
    ensures
        answered(*state, answer, r),
{
    let snap = state.snapshot();
    match answer {
        Answer::Zone(id) => match snap.zone(id) {
            Some(zone) => Ok(Fragment::Zone(templates::render_zone(zone))),
            None => Err(missing("zone", id)),
        },
        Answer::Ac(id) => match snap.ac(id) {
            Some(ac) => Ok(Fragment::Ac(templates::render_ac(ac))),
            None => Err(missing("ac", id)),
        },
        Answer::Zones(mode) => {
            let bulk = match mode {
                Some(m) => m,
                None => snap.bulk_mode(),
            };
            Ok(Fragment::Zones(templates::render_zones_with_bulk(snap, bulk)))
        },
        Answer::System => Ok(Fragment::System(templates::render_system(snap))),
        Answer::Presets => Ok(
            Fragment::Presets(
                templates::render_presets(&state.scenes.config, &state.scenes.active),
            ),
        ),
    }
}

impl Interaction {
    /// No more commands were carried out than there are.
    pub open spec fn wf(&self) -> bool {
        self.done <= self.commands@.len()
    }

    /// The next command to send; none where all were carried out.
    pub open spec fn offered(&self) -> Option<Command> {
        if self.done < self.commands@.len() {
            Some(self.commands@[self.done as int])
        } else {
            None
        }
    }

    /// Whether a request stands at `after` once a reply came to the command that it
    /// offered: one further where the command was carried out, and else where it was.
    pub open spec fn replied(&self, reply: Reply, after: Interaction) -> bool {
        &&& after.commands == self.commands
        &&& after.answer == self.answer
        &&& after.done == (if reply_error(reply) is None {
            self.done + 1
        } else {
            self.done as int
        })
    }

    /// A request whose commands are all still to be sent.
    pub fn start(commands: Vec<Command>, answer: Answer) -> (r: Interaction)
        ensures
            r.wf(),
            r.commands == commands,
            r.done == 0,
            r.answer == answer,
    {
        Interaction { commands, done: 0, answer }
    }

    /// The next command to send; none where all were carried out.
    pub fn next(&self) -> (r: Option<Command>)
        requires
            self.wf(),
        ensures
            r == self.offered(),
    {
        if self.done < self.commands.len() {
            Some(self.commands[self.done])
        } else {
            None
        }
    }

    /// Takes the reply to the command last handed out. A command that was not
    /// carried out ends the request with the reply's message; what was sent
    /// before it stays sent.
    pub fn on_reply(&mut self, reply: Reply) -> (r: Result<(), AppError>)
        requires
            old(self).wf(),
            old(self).offered() is Some,
        ensures
            final(self).wf(),
            old(self).replied(reply, *final(self)),
            match reply_error(reply) {
                None => r is Ok,
                Some(message) => r matches Err(e) && e@ == message,
            },
            final(self).commands@ == old(self).commands@,
            final(self).answer == old(self).answer,
            reply is Done ==> r is Ok && final(self).done == old(self).done + 1,
            reply !is Done ==> r is Err && final(self).done == old(self).done,
            reply is Stopped ==> r->Err_0.message@ == "manager stopped"@,
            reply is Dropped ==> r->Err_0.message@ == "manager dropped reply"@,
            reply is Rejected ==> r->Err_0.message@ == reply->Rejected_0@,
    {
        let r = settle(reply);
        if r.is_ok() {
            assert(self.done < self.commands.len());
            self.done = self.done + 1;
        }
        r
    }

    /// The fragment that answers the request, once every command was carried out.
    pub fn respond<'a>(&self, state: &'a AppState) -> (r: Result<Fragment<'a>, AppError>)
        requires
            self.wf(),
            self.offered() is None,
        ensures
            answered(*state, self.answer, r),
    {
        render_answer(state, self.answer)
    }
}

} // verus!
