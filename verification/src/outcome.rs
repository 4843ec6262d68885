//! The single way in which a trigger ends.

use vstd::prelude::*;
use crate::trigger::Transport;

verus! {

/// A reply that is ready to leave: its payload, and where it goes.
///
/// One is made only from an upstream call that succeeded.
#[derive(Debug, PartialEq, Eq)]
pub struct OutboundMessage {
    /// The transport that delivers the reply.
    pub transport: Transport,
    /// On the chat connection, the channel to post into; empty elsewhere.
    pub channel: String,
    /// The payload: a JSON envelope, or the bare text.
    pub payload: String,
}

/// An outbound message as plain values.
pub struct OutboundView {
    pub transport: Transport,
    pub channel: Seq<char>,
    pub payload: Seq<char>,
}

impl View for OutboundMessage {
    type V = OutboundView;

    open spec fn view(&self) -> OutboundView {
        OutboundView { transport: self.transport, channel: self.channel@, payload: self.payload@ }
    }
}

/// How a trigger ended. Every trigger ends in exactly one of these.
#[derive(Debug, PartialEq, Eq)]
pub enum Outcome {
    /// The credential was missing or not recognised.
    Unauthorized,
    /// The credential was good, but the trigger is not of a shape that is
    /// answered with generated text.
    NotDispatched,
    /// The text was fetched and a reply made of it.
    Delivered(OutboundMessage),
    /// The upstream call failed in transport.
    UpstreamFailed,
}

/// An outcome as plain values.
pub enum OutcomeView {
    Unauthorized,
    NotDispatched,
    Delivered(OutboundView),
    UpstreamFailed,
}

impl View for Outcome {
    type V = OutcomeView;

    open spec fn view(&self) -> OutcomeView {
        match self {
            Outcome::Unauthorized => OutcomeView::Unauthorized,
            Outcome::NotDispatched => OutcomeView::NotDispatched,
            Outcome::Delivered(message) => OutcomeView::Delivered(message@),
            Outcome::UpstreamFailed => OutcomeView::UpstreamFailed,
        }
    }
}

} // verus!
