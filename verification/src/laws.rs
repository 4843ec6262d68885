//! What holds of every course that a trigger can take.

use vstd::prelude::*;
use crate::credential::{
    lemma_field_gives_credential, occurs, stands_at, FIELD_OPENING, FIELD_SEPARATOR,
};
use crate::message::{
    envelope, lemma_plain_text_is_quoted, plain, ENVELOPE_CLOSING, ENVELOPE_MIDDLE,
    ENVELOPE_OPENING, RESPONSE_TYPE,
};
use crate::outcome::OutcomeView;
use crate::relay::{
    admitted_to, authorized, fetches, next, outcome_of, outcomes, received, run, ActionView,
    EventView, InspirationView, Phase, RelayView,
};
use crate::responder::{payload_for, reply_to, responded};
use crate::response::{
    bare, byte_length, rendered, ResponseView, STATUS_FORBIDDEN, STATUS_NOT_FOUND, STATUS_OK,
};
use crate::trigger::{dispatchable, Transport, TriggerView};
use crate::upstream::{TransportFailure, UpstreamView};

verus! {

/// Every configured token authorizes, and no other value does: on the HTTP
/// transports, a payload that holds the field `token=` with a value, closed by
/// `&` or by the end of the payload, and no `token=` before it, is authentic
/// exactly where that value is one of the tokens.
pub proof fn lemma_token_decides(
    tokens: Set<Seq<char>>,
    trigger: TriggerView,
    before: Seq<char>,
    token: Seq<char>,
    after: Seq<char>,
)
    requires
        trigger.transport != Transport::Bot,
        trigger.payload == before + FIELD_OPENING@ + token + after,
        forall|i: int| 0 <= i < before.len() ==> !stands_at(FIELD_OPENING@, trigger.payload, i),
        !token.contains(FIELD_SEPARATOR),
        after.len() == 0 || after[0] == FIELD_SEPARATOR,
    ensures
        authorized(tokens, trigger) == tokens.contains(token),
{
    lemma_field_gives_credential(before, token, after);
}

/// A payload in which `token=` does not occur is not authentic on the HTTP
/// transports, whatever the tokens are.
pub proof fn lemma_no_field_is_denied(tokens: Set<Seq<char>>, trigger: TriggerView)
    requires
        trigger.transport != Transport::Bot,
        !occurs(FIELD_OPENING@, trigger.payload),
    ensures
        !authorized(tokens, trigger),
{
}

/// On the chat connection every trigger is authentic, whatever it carries.
pub proof fn lemma_chat_is_trusted(tokens: Set<Seq<char>>, trigger: TriggerView)
    requires
        trigger.transport == Transport::Bot,
    ensures
        authorized(tokens, trigger),
{
}

/// A step never goes back and never touches the trigger: either it changes
/// nothing and asks for nothing, or it leads to a phase of higher rank.
pub proof fn lemma_step_moves_forward(service: InspirationView, relay: RelayView, event: EventView)
    ensures
        next(service, relay, event).0.trigger == relay.trigger,
        next(service, relay, event) == (relay, ActionView::Ignore) || next(
            service,
            relay,
            event,
        ).0.phase.rank() > relay.phase.rank(),
{
}

/// A trigger that has ended stays as it is: no event changes its state or asks
/// for anything more.
pub proof fn lemma_terminal_is_final(service: InspirationView, relay: RelayView, event: EventView)
    requires
        relay.phase.terminal(),
    ensures
        next(service, relay, event) == (relay, ActionView::Ignore),
{
}

/// An outcome is delivered exactly by the step that ends the trigger, and the
/// upstream call is asked for exactly by the step that enters `Fetching`.
pub proof fn lemma_actions_mark_transitions(
    service: InspirationView,
    relay: RelayView,
    event: EventView,
)
    ensures
        next(service, relay, event).1 is Finish <==> !relay.phase.terminal() && next(
            service,
            relay,
            event,
        ).0.phase.terminal(),
        next(service, relay, event).1 is Fetch <==> relay.phase != Phase::Fetching && next(
            service,
            relay,
            event,
        ).0.phase == Phase::Fetching,
        next(service, relay, event).1 is Fetch ==> next(service, relay, event).1
            == ActionView::Fetch(service.uri),
{
}

/// What the phase of a trigger says of its course so far: whether it was found
/// authentic and dispatchable, how often the upstream call was asked for, and
/// which outcomes were delivered.
pub open spec fn on_course(
    service: InspirationView,
    trigger: TriggerView,
    state: RelayView,
    actions: Seq<ActionView>,
) -> bool {
    let authentic = authorized(service.tokens, trigger);
    let answered = dispatchable(trigger.transport, trigger.shape);
    &&& state.trigger == trigger
    &&& match state.phase {
        Phase::Received | Phase::Authenticating => fetches(actions) == 0 && outcomes(actions).len()
            == 0,
        Phase::Dispatching => authentic && fetches(actions) == 0 && outcomes(actions).len() == 0,
        Phase::Unauthorized => !authentic && fetches(actions) == 0 && outcomes(actions)
            == seq![OutcomeView::Unauthorized],
        Phase::NotDispatched => authentic && !answered && fetches(actions) == 0 && outcomes(actions)
            == seq![OutcomeView::NotDispatched],
        Phase::Fetching => authentic && answered && fetches(actions) == 1 && outcomes(
            actions,
        ).len() == 0,
        Phase::Delivered => authentic && answered && fetches(actions) == 1 && exists|
            text: Seq<char>,
        |
            outcomes(actions) == seq![
                #[trigger] responded(trigger, UpstreamView::Inspiration(text)),
            ],
        Phase::UpstreamFailed => authentic && answered && fetches(actions) == 1 && outcomes(actions)
            == seq![OutcomeView::UpstreamFailed],
    }
}

/// Whatever events arrive, and in whatever order, a trigger stays on course.
pub proof fn lemma_every_run_is_on_course(
    service: InspirationView,
    trigger: TriggerView,
    events: Seq<EventView>,
)
    ensures
        on_course(
            service,
            trigger,
            run(service, received(trigger), events).0,
            run(service, received(trigger), events).1,
        ),
    decreases events.len(),
{
    if events.len() > 0 {
        lemma_every_run_is_on_course(service, trigger, events.drop_last());
        let (before, actions) = run(service, received(trigger), events.drop_last());
        let action = next(service, before, events.last()).1;
        let all = actions.push(action);
        assert(all.drop_last() == actions);
        if let ActionView::Finish(outcome) = action {
            assert(outcomes(all) == seq![outcome]);
        }
    }
}

/// Exactly one outcome, never more: whatever events arrive, the upstream call is
/// asked for at most once and at most one outcome is delivered; an outcome has
/// been delivered exactly when the trigger has ended.
pub proof fn lemma_at_most_once(
    service: InspirationView,
    trigger: TriggerView,
    events: Seq<EventView>,
)
    ensures
        fetches(run(service, received(trigger), events).1) <= 1,
        outcomes(run(service, received(trigger), events).1).len() <= 1,
        outcomes(run(service, received(trigger), events).1).len() == 1 <==> run(
            service,
            received(trigger),
            events,
        ).0.phase.terminal(),
{
    lemma_every_run_is_on_course(service, trigger, events);
}

/// How often the credential of a trigger is judged in a run: once for each step
/// that leaves `Phase::Authenticating`.
pub open spec fn judgements(
    service: InspirationView,
    relay: RelayView,
    events: Seq<EventView>,
) -> nat
    decreases events.len(),
{
    if events.len() == 0 {
        0
    } else if run(service, relay, events.drop_last()).0.phase == Phase::Authenticating
        && events.last() is Advance {
        judgements(service, relay, events.drop_last()) + 1
    } else {
        judgements(service, relay, events.drop_last())
    }
}

/// No trigger is authenticated twice: whatever events arrive, its credential is
/// judged once at most, and it has been judged once the trigger is past
/// `Phase::Authenticating`.
pub proof fn lemma_authenticated_once(
    service: InspirationView,
    trigger: TriggerView,
    events: Seq<EventView>,
)
    ensures
        judgements(service, received(trigger), events) == (if run(
            service,
            received(trigger),
            events,
        ).0.phase.rank() <= 1 {
            0nat
        } else {
            1nat
        }),
    decreases events.len(),
{
    if events.len() > 0 {
        lemma_authenticated_once(service, trigger, events.drop_last());
    }
}

/// A reply is made only of what the trigger's own upstream call gave: an
/// outcome that delivers, or that reports the failure of the call, comes after
/// the one call was asked for.
pub proof fn lemma_delivery_follows_fetch(
    service: InspirationView,
    trigger: TriggerView,
    events: Seq<EventView>,
    i: int,
)
    requires
        0 <= i < outcomes(run(service, received(trigger), events).1).len(),
        outcomes(run(service, received(trigger), events).1)[i] is Delivered || outcomes(
            run(service, received(trigger), events).1,
        )[i] is UpstreamFailed,
    ensures
        fetches(run(service, received(trigger), events).1) == 1,
{
    lemma_every_run_is_on_course(service, trigger, events);
}

/// Authentication comes before any upstream call: where the call was asked for,
/// the trigger is authentic and of a shape that is answered.
pub proof fn lemma_fetch_needs_authentic_dispatch(
    service: InspirationView,
    trigger: TriggerView,
    events: Seq<EventView>,
)
    requires
        fetches(run(service, received(trigger), events).1) > 0,
    ensures
        authorized(service.tokens, trigger),
        dispatchable(trigger.transport, trigger.shape),
{
    lemma_every_run_is_on_course(service, trigger, events);
}

/// A trigger that is not authentic never reaches the upstream: whatever its
/// shape and whatever events arrive, the call is never asked for, and the only
/// outcome that can be delivered is the denial, which HTTP renders as 403.
pub proof fn lemma_unauthorized_is_forbidden(
    service: InspirationView,
    trigger: TriggerView,
    events: Seq<EventView>,
)
    requires
        !authorized(service.tokens, trigger),
    ensures
        fetches(run(service, received(trigger), events).1) == 0,
        forall|i: int|
            0 <= i < outcomes(run(service, received(trigger), events).1).len() ==> (
            #[trigger] outcomes(run(service, received(trigger), events).1)[i])
                == OutcomeView::Unauthorized,
        rendered(OutcomeView::Unauthorized) == Ok::<ResponseView, TransportFailure>(
            bare(STATUS_FORBIDDEN),
        ),
        admitted_to(service, trigger).1 == ActionView::Finish(OutcomeView::Unauthorized),
{
    lemma_every_run_is_on_course(service, trigger, events);
}

/// An authentic trigger that is not of a shape that is answered never reaches
/// the upstream either: the call is never asked for, and the only outcome that
/// can be delivered is the one that HTTP renders as 404.
pub proof fn lemma_not_dispatched_is_not_found(
    service: InspirationView,
    trigger: TriggerView,
    events: Seq<EventView>,
)
    requires
        authorized(service.tokens, trigger),
        !dispatchable(trigger.transport, trigger.shape),
    ensures
        fetches(run(service, received(trigger), events).1) == 0,
        forall|i: int|
            0 <= i < outcomes(run(service, received(trigger), events).1).len() ==> (
            #[trigger] outcomes(run(service, received(trigger), events).1)[i])
                == OutcomeView::NotDispatched,
        rendered(OutcomeView::NotDispatched) == Ok::<ResponseView, TransportFailure>(
            bare(STATUS_NOT_FOUND),
        ),
        admitted_to(service, trigger).1 == ActionView::Finish(OutcomeView::NotDispatched),
{
    lemma_every_run_is_on_course(service, trigger, events);
}

/// The course of a trigger whose driver does as it is told: three steps take the
/// trigger in, and the result of the upstream call, if one was asked for, ends
/// it.
pub open spec fn driven(upstream: UpstreamView) -> Seq<EventView> {
    seq![EventView::Advance, EventView::Advance, EventView::Advance, EventView::Upstream(upstream)]
}

/// Never zero outcomes: a trigger whose driver does as it is told ends, with the
/// one outcome that its credential, its shape and the upstream result call for,
/// and with one upstream call exactly where it is authentic and answered.
pub proof fn lemma_driven_course_ends(
    service: InspirationView,
    trigger: TriggerView,
    upstream: UpstreamView,
)
    ensures
        run(service, received(trigger), driven(upstream)).0.phase.terminal(),
        outcomes(run(service, received(trigger), driven(upstream)).1) == seq![
            outcome_of(service, trigger, upstream),
        ],
        fetches(run(service, received(trigger), driven(upstream)).1) == (if authorized(
            service.tokens,
            trigger,
        ) && dispatchable(trigger.transport, trigger.shape) {
            1nat
        } else {
            0nat
        }),
{
    let start = received(trigger);
    let events = driven(upstream);
    let three = events.drop_last();
    let two = three.drop_last();
    let one = two.drop_last();
    assert(run(service, start, one.drop_last()) == (start, Seq::<ActionView>::empty()));
    assert(run(service, start, one).0.phase == Phase::Authenticating);
    assert(run(service, start, two).0.phase.rank() >= 2);
    assert(run(service, start, three).0.phase.rank() >= 3);
    lemma_every_run_is_on_course(service, trigger, three);
    lemma_every_run_is_on_course(service, trigger, events);
}

/// Taking a trigger in is three steps of its relay: the state is the state after
/// them, and the action is the one that the last effective step asked for.
pub proof fn lemma_call_is_three_steps(service: InspirationView, trigger: TriggerView)
    ensures
        run(
            service,
            received(trigger),
            seq![EventView::Advance, EventView::Advance, EventView::Advance],
        ).0 == admitted_to(service, trigger).0,
        fetches(
            run(
                service,
                received(trigger),
                seq![EventView::Advance, EventView::Advance, EventView::Advance],
            ).1,
        ) == (if admitted_to(service, trigger).1 is Fetch {
            1nat
        } else {
            0nat
        }),
{
    let start = received(trigger);
    let three = seq![EventView::Advance, EventView::Advance, EventView::Advance];
    let two = three.drop_last();
    let one = two.drop_last();
    assert(run(service, start, one.drop_last()) == (start, Seq::<ActionView>::empty()));
    assert(run(service, start, one).0 == start.at(Phase::Authenticating));
    lemma_every_run_is_on_course(service, trigger, three);
    if authorized(service.tokens, trigger) {
        assert(run(service, start, two).0.phase == Phase::Dispatching);
    }
}

/// A slash command that is authentic and posted, and whose upstream call gives a
/// text, is answered with status 200, the text in its envelope as the body, and
/// the body's length in bytes as the content length.
pub proof fn lemma_slash_command_is_answered(
    service: InspirationView,
    trigger: TriggerView,
    text: Seq<char>,
)
    requires
        trigger.transport == Transport::SlashCommand,
        authorized(service.tokens, trigger),
        dispatchable(trigger.transport, trigger.shape),
    ensures
        rendered(outcome_of(service, trigger, UpstreamView::Inspiration(text))) == Ok::<
            ResponseView,
            TransportFailure,
        >(
            ResponseView {
                status: STATUS_OK,
                content_length: Some(byte_length(envelope(text))),
                body: envelope(text),
            },
        ),
{
}

/// A slash command is answered with the exact envelope: for a text of plain
/// characters the body is the opening, the tag, the middle, the text between
/// two quotes, and the closing.
pub proof fn lemma_plain_text_envelope(text: Seq<char>)
    requires
        forall|i: int| 0 <= i < text.len() ==> plain(#[trigger] text[i]),
    ensures
        payload_for(Transport::SlashCommand, text) == ENVELOPE_OPENING@ + RESPONSE_TYPE@
            + ENVELOPE_MIDDLE@ + (seq!['"'] + text + seq!['"']) + ENVELOPE_CLOSING@,
{
    lemma_plain_text_is_quoted(text);
}

/// A failed upstream call is never answered as a success: a dispatched trigger
/// whose call fails has no response at all, only the failure, whereas a call
/// that gives a text, be it empty, has a response of status 200.
pub proof fn lemma_failure_is_not_masked(trigger: TriggerView, text: Seq<char>)
    ensures
        rendered(responded(trigger, UpstreamView::TransportFailure)) == Err::<
            ResponseView,
            TransportFailure,
        >(TransportFailure),
        rendered(responded(trigger, UpstreamView::Inspiration(text))) matches Ok(response)
            && response.status == STATUS_OK,
{
}

/// Several triggers in flight at once. Each event of the schedule is addressed to
/// one of them by its index and steps that one alone. The result holds, for
/// each trigger, its state and the actions that its steps asked for.
pub open spec fn run_all(
    service: InspirationView,
    relays: Seq<RelayView>,
    schedule: Seq<(int, EventView)>,
) -> Seq<(RelayView, Seq<ActionView>)>
    decreases schedule.len(),
{
    if schedule.len() == 0 {
        Seq::new(relays.len(), |i: int| (relays[i], Seq::<ActionView>::empty()))
    } else {
        let before = run_all(service, relays, schedule.drop_last());
        let (target, event) = schedule.last();
        if 0 <= target < before.len() {
            let (after, action) = next(service, before[target].0, event);
            before.update(target, (after, before[target].1.push(action)))
        } else {
            before
        }
    }
}

/// The events of a schedule that are addressed to one trigger, in order.
pub open spec fn addressed_to(schedule: Seq<(int, EventView)>, target: int) -> Seq<EventView>
    decreases schedule.len(),
{
    if schedule.len() == 0 {
        Seq::<EventView>::empty()
    } else if schedule.last().0 == target {
        addressed_to(schedule.drop_last(), target).push(schedule.last().1)
    } else {
        addressed_to(schedule.drop_last(), target)
    }
}

/// No cross-talk: however the events of several triggers are interleaved, each
/// trigger takes the course that it would take alone on its own events, and is
/// asked for the same actions.
pub proof fn lemma_no_cross_talk(
    service: InspirationView,
    relays: Seq<RelayView>,
    schedule: Seq<(int, EventView)>,
    target: int,
)
    requires
        0 <= target < relays.len(),
    ensures
        run_all(service, relays, schedule).len() == relays.len(),
        run_all(service, relays, schedule)[target] == run(
            service,
            relays[target],
            addressed_to(schedule, target),
        ),
    decreases schedule.len(),
{
    if schedule.len() > 0 {
        lemma_no_cross_talk(service, relays, schedule.drop_last(), target);
        if schedule.last().0 == target {
            let own = addressed_to(schedule, target);
            assert(own.drop_last() == addressed_to(schedule.drop_last(), target));
        }
    }
}

/// Paired replies: of several triggers in flight, one that is authentic and
/// answered, and whose driver does as it is told, ends with the reply made of
/// the text of its own upstream call, whatever happens to the others meanwhile.
pub proof fn lemma_replies_are_paired(
    service: InspirationView,
    triggers: Seq<TriggerView>,
    schedule: Seq<(int, EventView)>,
    target: int,
    text: Seq<char>,
)
    requires
        0 <= target < triggers.len(),
        authorized(service.tokens, triggers[target]),
        dispatchable(triggers[target].transport, triggers[target].shape),
        addressed_to(schedule, target) == driven(UpstreamView::Inspiration(text)),
    ensures
        outcomes(
            run_all(service, triggers.map_values(|t: TriggerView| received(t)), schedule)[target].1,
        ) == seq![OutcomeView::Delivered(reply_to(triggers[target], text))],
        fetches(
            run_all(service, triggers.map_values(|t: TriggerView| received(t)), schedule)[target].1,
        ) == 1,
{
    let relays = triggers.map_values(|t: TriggerView| received(t));
    lemma_no_cross_talk(service, relays, schedule, target);
    lemma_driven_course_ends(service, triggers[target], UpstreamView::Inspiration(text));
}

} // verus!
