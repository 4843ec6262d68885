//! One inbound request or event that asks for a relay.

use vstd::prelude::*;

verus! {

/// The channel on which a trigger arrives and on which its reply leaves.
#[derive(Clone, Copy, Debug, PartialEq, Eq, Structural)]
pub enum Transport {
    /// An HTTP request answered with a JSON envelope.
    SlashCommand,
    /// An HTTP request answered with the bare text.
    PlainHttp,
    /// A chat connection: the reply is pushed into a channel.
    Bot,
}

/// The method of an HTTP request.
#[derive(Debug, PartialEq, Eq)]
pub enum Method {
    Options,
    Get,
    Post,
    Put,
    Delete,
    Head,
    Trace,
    Connect,
    Patch,
    /// Any other method, by its name.
    Extension(String),
}

/// What kind of request or event a trigger is.
#[derive(Debug, PartialEq, Eq)]
pub enum Shape {
    /// An HTTP request with its method.
    Request(Method),
    /// A message that someone posted in a chat channel.
    Message,
    /// Any other event of a chat connection.
    Notice,
}

/// Whether a trigger of this shape, on this transport, is one that the relay
/// answers with generated text: a POST on the HTTP transports, a posted message
/// on the chat connection.
pub open spec fn dispatchable(transport: Transport, shape: Shape) -> bool {
    match transport {
        Transport::SlashCommand | Transport::PlainHttp => shape matches Shape::Request(
            Method::Post,
        ),
        Transport::Bot => shape is Message,
    }
}

/// One attempt to authenticate and dispatch.
#[derive(Debug, PartialEq, Eq)]
pub struct IncomingTrigger {
    /// The transport that the trigger arrived on.
    pub transport: Transport,
    /// The trigger's method or event kind.
    pub shape: Shape,
    /// The text that carries the credential: a URL-encoded body or a query string.
    pub payload: String,
    /// On the chat connection, the channel to reply into; empty elsewhere.
    pub channel: String,
}

/// A trigger as plain values.
pub struct TriggerView {
    pub transport: Transport,
    pub shape: Shape,
    pub payload: Seq<char>,
    pub channel: Seq<char>,
}

impl View for IncomingTrigger {
    type V = TriggerView;

    open spec fn view(&self) -> TriggerView {
        TriggerView {
            transport: self.transport,
            shape: self.shape,
            payload: self.payload@,
            channel: self.channel@,
        }
    }
}

impl IncomingTrigger {
    /// A trigger made of its four parts.
    pub fn new(transport: Transport, shape: Shape, payload: String, channel: String) -> (trigger:
        IncomingTrigger)
        ensures
            trigger@ == (TriggerView { transport, shape, payload: payload@, channel: channel@ }),
    {
        IncomingTrigger { transport, shape, payload, channel }
    }

    /// Whether the relay answers a trigger of this shape with generated text.
    pub fn is_dispatchable(&self) -> (yes: bool)
        ensures
            yes == dispatchable(self.transport, self.shape),
    {
        match self.transport {
            Transport::SlashCommand | Transport::PlainHttp => match &self.shape {
                Shape::Request(Method::Post) => true,
                _ => false,
            },
            Transport::Bot => match &self.shape {
                Shape::Message => true,
                _ => false,
            },
        }
    }
}

} // verus!
