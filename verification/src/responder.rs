//! Shaping the reply to a trigger from what the upstream call gave.

use vstd::prelude::*;
use crate::message::{envelope, Message};
use crate::outcome::{OutboundMessage, OutboundView, Outcome, OutcomeView};
use crate::trigger::{IncomingTrigger, Transport, TriggerView};
use crate::upstream::{Muse, UpstreamResult, UpstreamView};

verus! {

/// The payload that a transport delivers for a text: the text in its envelope
/// for a slash command, the bare text elsewhere.
pub open spec fn payload_for(transport: Transport, text: Seq<char>) -> Seq<char> {
    match transport {
        Transport::SlashCommand => envelope(text),
        Transport::PlainHttp => text,
        Transport::Bot => text,
    }
}

/// The reply to `trigger` that carries `text`: it leaves on the trigger's
/// transport, for the trigger's channel.
pub open spec fn reply_to(trigger: TriggerView, text: Seq<char>) -> OutboundView {
    OutboundView {
        transport: trigger.transport,
        channel: trigger.channel,
        payload: payload_for(trigger.transport, text),
    }
}

/// How a dispatched trigger ends, given what the upstream call gave: with a
/// reply made of the text, or with the failure of the call. A failure is never
/// turned into a reply.
pub open spec fn responded(trigger: TriggerView, upstream: UpstreamView) -> OutcomeView {
    match upstream {
        UpstreamView::Inspiration(text) => OutcomeView::Delivered(reply_to(trigger, text)),
        UpstreamView::TransportFailure => OutcomeView::UpstreamFailed,
    }
}

/// Makes replies out of what the upstream client brings.
#[derive(Debug)]
pub struct Responder {
    muse: Muse,
}

impl View for Responder {
    type V = Seq<char>;

    /// The address that the responder's client calls.
    closed spec fn view(&self) -> Seq<char> {
        self.muse@
    }
}

impl Responder {
    /// A responder that takes its text from `muse`.
    pub fn new(muse: Muse) -> (responder: Responder)
        ensures
            responder@ == muse@,
    {
        Responder { muse }
    }

    /// The upstream client.
    pub fn muse(&self) -> (muse: &Muse)
        ensures
            muse@ == self@,
    {
        &self.muse
    }

    /// The payload that `transport` delivers for `text`.
    pub fn format(&self, transport: Transport, text: String) -> (payload: String)
        ensures
            payload@ == payload_for(transport, text@),
    {
        match transport {
            Transport::SlashCommand => Message::new(text).to_json(),
            Transport::PlainHttp => text,
            Transport::Bot => text,
        }
    }

    /// Ends a dispatched trigger with what the upstream call gave.
    pub fn respond(&self, trigger: &IncomingTrigger, upstream: UpstreamResult) -> (outcome: Outcome)
        ensures
            outcome@ == responded(trigger@, upstream@),
    {
        match upstream {
            UpstreamResult::Inspiration(text) => Outcome::Delivered(
                OutboundMessage {
                    transport: trigger.transport,
                    channel: trigger.channel.clone(),
                    payload: self.format(trigger.transport, text),
                },
            ),
            UpstreamResult::TransportFailure => Outcome::UpstreamFailed,
        }
    }
}

} // verus!
