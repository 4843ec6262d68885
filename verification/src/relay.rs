//! The course of one trigger: authenticate, dispatch, fetch, deliver.

use vstd::prelude::*;
use vstd::string::StringExecFns;
use crate::credential::{credential, extract_token};
use crate::outcome::{Outcome, OutcomeView};
use crate::responder::{responded, Responder};
use crate::secrets::{admitted, SharedSecretSet};
use crate::trigger::{dispatchable, IncomingTrigger, Transport, TriggerView};
use crate::upstream::{UpstreamResult, UpstreamView};

verus! {

/// The stages that one trigger goes through, from arrival to its single outcome.
#[derive(Clone, Copy, Debug, PartialEq, Eq, Structural)]
pub enum Phase {
    /// The trigger has arrived.
    Received,
    /// The trigger's credential is about to be judged.
    Authenticating,
    /// The end of a trigger without a recognised credential.
    Unauthorized,
    /// The trigger is authentic; its shape is about to be looked at.
    Dispatching,
    /// The end of an authentic trigger that is not of a shape that is answered.
    NotDispatched,
    /// The upstream call has been asked for and has not come back.
    Fetching,
    /// The end of a trigger whose reply was made.
    Delivered,
    /// The end of a trigger whose upstream call failed.
    UpstreamFailed,
}

impl Phase {
    /// A terminal phase is one that no transition leaves.
    pub open spec fn terminal(self) -> bool {
        self == Phase::Unauthorized || self == Phase::NotDispatched || self == Phase::Delivered
            || self == Phase::UpstreamFailed
    }

    /// How far along a phase is: every transition leads to a higher rank.
    pub open spec fn rank(self) -> nat {
        match self {
            Phase::Received => 0,
            Phase::Authenticating => 1,
            Phase::Dispatching => 2,
            Phase::Fetching => 3,
            Phase::Unauthorized
            | Phase::NotDispatched
            | Phase::Delivered
            | Phase::UpstreamFailed => 4,
        }
    }

    /// Whether the phase is terminal.
    pub fn is_terminal(self) -> (r: bool)
        ensures
            r == self.terminal(),
    {
        match self {
            Phase::Unauthorized
            | Phase::NotDispatched
            | Phase::Delivered
            | Phase::UpstreamFailed => true,
            _ => false,
        }
    }
}

/// What the driver of a relay reports to it.
#[derive(Debug, PartialEq, Eq)]
pub enum Event {
    /// Nothing has happened outside: the relay may take its next step.
    Advance,
    /// The upstream call has come back.
    Upstream(UpstreamResult),
}

/// An event as plain values.
pub enum EventView {
    Advance,
    Upstream(UpstreamView),
}

impl View for Event {
    type V = EventView;

    open spec fn view(&self) -> EventView {
        match self {
            Event::Advance => EventView::Advance,
            Event::Upstream(result) => EventView::Upstream(result@),
        }
    }
}

/// What a relay asks of its driver after a step.
#[derive(Debug, PartialEq, Eq)]
pub enum Action {
    /// Nothing to do outside: report `Event::Advance`.
    Proceed,
    /// Make the one GET of this address, and report what it gave.
    Fetch(String),
    /// The trigger has ended: deliver this outcome.
    Finish(Outcome),
    /// The event does not concern the relay in its phase: nothing to do.
    Ignore,
}

/// An action as plain values.
pub enum ActionView {
    Proceed,
    Fetch(Seq<char>),
    Finish(OutcomeView),
    Ignore,
}

impl View for Action {
    type V = ActionView;

    open spec fn view(&self) -> ActionView {
        match self {
            Action::Proceed => ActionView::Proceed,
            Action::Fetch(uri) => ActionView::Fetch(uri@),
            Action::Finish(outcome) => ActionView::Finish(outcome@),
            Action::Ignore => ActionView::Ignore,
        }
    }
}

/// The progress of one trigger.
#[derive(Debug)]
pub struct Relay {
    phase: Phase,
    trigger: IncomingTrigger,
}

/// A relay as plain values.
pub struct RelayView {
    pub phase: Phase,
    pub trigger: TriggerView,
}

impl RelayView {
    /// The same trigger in another phase.
    pub open spec fn at(self, phase: Phase) -> RelayView {
        RelayView { phase, trigger: self.trigger }
    }
}

impl View for Relay {
    type V = RelayView;

    closed spec fn view(&self) -> RelayView {
        RelayView { phase: self.phase, trigger: self.trigger@ }
    }
}

/// The relay of a trigger that has just arrived.
pub open spec fn received(trigger: TriggerView) -> RelayView {
    RelayView { phase: Phase::Received, trigger }
}

impl Relay {
    /// Takes in a trigger: its relay starts in `Phase::Received`.
    pub fn receive(trigger: IncomingTrigger) -> (relay: Relay)
        ensures
            relay@ == received(trigger@),
    {
        Relay { phase: Phase::Received, trigger }
    }

    /// The phase that the trigger is in.
    pub fn phase(&self) -> (phase: Phase)
        ensures
            phase == self@.phase,
    {
        self.phase
    }

    /// The trigger.
    pub fn trigger(&self) -> (trigger: &IncomingTrigger)
        ensures
            trigger@ == self@.trigger,
    {
        &self.trigger
    }
}

/// What an orchestrator is configured with, as plain values.
pub struct InspirationView {
    /// The tokens that count as valid credentials.
    pub tokens: Set<Seq<char>>,
    /// The address of the upstream call.
    pub uri: Seq<char>,
}

/// Whether a trigger is authentic. On the HTTP transports its payload must carry
/// a credential that is one of the tokens. The chat connection was authenticated
/// when it was opened, so every trigger that arrives on it is authentic.
pub open spec fn authorized(tokens: Set<Seq<char>>, trigger: TriggerView) -> bool {
    match trigger.transport {
        Transport::SlashCommand | Transport::PlainHttp => admitted(
            tokens,
            credential(trigger.payload),
        ),
        Transport::Bot => true,
    }
}

/// One step of a relay: the state after the event, and the action that the step
/// asks for.
///
/// A new trigger is first authenticated, then dispatched by its shape, and only
/// then is the upstream call asked for. The call's result ends the trigger.
/// Every other pairing of phase and event changes nothing and asks for nothing.
pub open spec fn next(service: InspirationView, relay: RelayView, event: EventView) -> (
    RelayView,
    ActionView,
) {
    match (relay.phase, event) {
        (Phase::Received, EventView::Advance) => (
            relay.at(Phase::Authenticating),
            ActionView::Proceed,
        ),
        (Phase::Authenticating, EventView::Advance) => if authorized(
            service.tokens,
            relay.trigger,
        ) {
            (relay.at(Phase::Dispatching), ActionView::Proceed)
        } else {
            (relay.at(Phase::Unauthorized), ActionView::Finish(OutcomeView::Unauthorized))
        },
        (Phase::Dispatching, EventView::Advance) => if dispatchable(
            relay.trigger.transport,
            relay.trigger.shape,
        ) {
            (relay.at(Phase::Fetching), ActionView::Fetch(service.uri))
        } else {
            (relay.at(Phase::NotDispatched), ActionView::Finish(OutcomeView::NotDispatched))
        },
        (Phase::Fetching, EventView::Upstream(result)) => match result {
            UpstreamView::Inspiration(_) => (
                relay.at(Phase::Delivered),
                ActionView::Finish(responded(relay.trigger, result)),
            ),
            UpstreamView::TransportFailure => (
                relay.at(Phase::UpstreamFailed),
                ActionView::Finish(responded(relay.trigger, result)),
            ),
        },
        _ => (relay, ActionView::Ignore),
    }
}

/// A relay taken through a sequence of events: the state after the last of them,
/// and the actions that the steps asked for, one for each event.
pub open spec fn run(service: InspirationView, relay: RelayView, events: Seq<EventView>) -> (
    RelayView,
    Seq<ActionView>,
)
    decreases events.len(),
{
    if events.len() == 0 {
        (relay, Seq::<ActionView>::empty())
    } else {
        let (before, actions) = run(service, relay, events.drop_last());
        let (after, action) = next(service, before, events.last());
        (after, actions.push(action))
    }
}

/// How many of the actions ask for the upstream call.
pub open spec fn fetches(actions: Seq<ActionView>) -> nat
    decreases actions.len(),
{
    if actions.len() == 0 {
        0
    } else if actions.last() is Fetch {
        fetches(actions.drop_last()) + 1
    } else {
        fetches(actions.drop_last())
    }
}

/// The outcomes that the actions deliver, in order.
pub open spec fn outcomes(actions: Seq<ActionView>) -> Seq<OutcomeView>
    decreases actions.len(),
{
    if actions.len() == 0 {
        Seq::<OutcomeView>::empty()
    } else {
        match actions.last() {
            ActionView::Finish(outcome) => outcomes(actions.drop_last()).push(outcome),
            _ => outcomes(actions.drop_last()),
        }
    }
}

/// How a trigger ends, given what the upstream call gives if it is made.
pub open spec fn outcome_of(
    service: InspirationView,
    trigger: TriggerView,
    upstream: UpstreamView,
) -> OutcomeView {
    if !authorized(service.tokens, trigger) {
        OutcomeView::Unauthorized
    } else if !dispatchable(trigger.transport, trigger.shape) {
        OutcomeView::NotDispatched
    } else {
        responded(trigger, upstream)
    }
}

/// Where a trigger stands once it has been taken in and stepped until it either
/// ended or needs the upstream call: denied, not dispatched, or fetching.
pub open spec fn admitted_to(service: InspirationView, trigger: TriggerView) -> (
    RelayView,
    ActionView,
) {
    if !authorized(service.tokens, trigger) {
        (received(trigger).at(Phase::Unauthorized), ActionView::Finish(OutcomeView::Unauthorized))
    } else if !dispatchable(trigger.transport, trigger.shape) {
        (received(trigger).at(Phase::NotDispatched), ActionView::Finish(OutcomeView::NotDispatched))
    } else {
        (received(trigger).at(Phase::Fetching), ActionView::Fetch(service.uri))
    }
}

/// The orchestrator: it holds the tokens and the responder, and takes every
/// trigger through its phases.
#[derive(Debug)]
pub struct Inspiration {
    responder: Responder,
    valid_tokens: SharedSecretSet,
}

impl View for Inspiration {
    type V = InspirationView;

    closed spec fn view(&self) -> InspirationView {
        InspirationView { tokens: self.valid_tokens@, uri: self.responder@ }
    }
}

impl Inspiration {
    /// An orchestrator that accepts `tokens` and replies through `responder`.
    pub fn new(responder: Responder, tokens: Vec<String>) -> (service: Inspiration)
        ensures
            service@ == (InspirationView { tokens: tokens.deep_view().to_set(), uri: responder@ }),
    {
        Inspiration { responder, valid_tokens: SharedSecretSet::new(tokens) }
    }

    /// The responder.
    pub fn responder(&self) -> (responder: &Responder)
        ensures
            responder@ == self@.uri,
    {
        &self.responder
    }

    /// Whether a payload carries a credential that is one of the tokens. A
    /// payload without a credential, or with one that is not recognised, is
    /// turned down; no payload is a fault.
    pub fn validate_request(&self, body: &str) -> (ok: bool)
        ensures
            ok == admitted(self@.tokens, credential(body@)),
    {
        let token = extract_token(body);
        self.valid_tokens.admits(&token)
    }

    /// Whether a trigger is authentic.
    pub fn authenticate(&self, trigger: &IncomingTrigger) -> (ok: bool)
        ensures
            ok == authorized(self@.tokens, trigger@),
    {
        match trigger.transport {
            Transport::SlashCommand | Transport::PlainHttp => self.validate_request(
                trigger.payload.as_str(),
            ),
            Transport::Bot => true,
        }
    }

    /// Takes a relay one step further on an event, and says what to do next.
    pub fn step(&self, relay: &mut Relay, event: Event) -> (action: Action)
        ensures
            (final(relay)@, action@) == next(self@, old(relay)@, event@),
    {
        match (relay.phase, event) {
            (Phase::Received, Event::Advance) => {
                relay.phase = Phase::Authenticating;
                Action::Proceed
            },
            (Phase::Authenticating, Event::Advance) => {
                if self.authenticate(&relay.trigger) {
                    relay.phase = Phase::Dispatching;
                    Action::Proceed
                } else {
                    relay.phase = Phase::Unauthorized;
                    Action::Finish(Outcome::Unauthorized)
                }
            },
            (Phase::Dispatching, Event::Advance) => {
                if relay.trigger.is_dispatchable() {
                    relay.phase = Phase::Fetching;
                    Action::Fetch(String::from_str(self.responder.muse().uri()))
                } else {
                    relay.phase = Phase::NotDispatched;
                    Action::Finish(Outcome::NotDispatched)
                }
            },
            (Phase::Fetching, Event::Upstream(result)) => {
                relay.phase = match &result {
                    UpstreamResult::Inspiration(_) => Phase::Delivered,
                    UpstreamResult::TransportFailure => Phase::UpstreamFailed,
                };
                Action::Finish(self.responder.respond(&relay.trigger, result))
            },
            _ => Action::Ignore,
        }
    }

    /// Takes in a trigger and steps its relay until the trigger has ended or
    /// the upstream call is needed. The action is then `Finish` with a denial,
    /// or `Fetch`.
    pub fn call(&self, trigger: IncomingTrigger) -> (started: (Relay, Action))
        ensures
            (started.0@, started.1@) == admitted_to(self@, trigger@),
    {
        let mut relay = Relay::receive(trigger);
        let mut action = self.step(&mut relay, Event::Advance);
        while action_is_proceed(&action)
            invariant
                relay@.trigger == trigger@,
                action@ is Proceed ==> relay@.phase == Phase::Authenticating || (relay@.phase
                    == Phase::Dispatching && authorized(self@.tokens, trigger@)),
                !(action@ is Proceed) ==> (relay@, action@) == admitted_to(self@, trigger@),
            decreases 4 - relay@.phase.rank(),
        {
            action = self.step(&mut relay, Event::Advance);
        }
        (relay, action)
    }
}

/// Whether an action is `Proceed`.
fn action_is_proceed(action: &Action) -> (yes: bool)
    ensures
        yes == (action@ is Proceed),
{
    match action {
        Action::Proceed => true,
        _ => false,
    }
}

} // verus!
