use inspiration::message::{
    seal, Message, ENVELOPE_CLOSING, ENVELOPE_MIDDLE, ENVELOPE_OPENING, HEX_DIGITS, RESPONSE_TYPE,
};
use inspiration::outcome::{OutboundMessage, Outcome};
use inspiration::responder::Responder;
use inspiration::response::{Response, STATUS_FORBIDDEN, STATUS_NOT_FOUND, STATUS_OK};
use inspiration::trigger::{IncomingTrigger, Method, Shape, Transport};
use inspiration::upstream::{Muse, TransportFailure, UpstreamResult};

fn concat_all(parts: &[&str]) -> String {
    parts.iter().map(|p| p.to_string()).collect()
}

fn responder() -> Responder {
    Responder::new(Muse::new(String::from("http://upstream.test/")))
}

fn trigger(transport: Transport, channel: &str) -> IncomingTrigger {
    let shape = match transport {
        Transport::Bot => Shape::Message,
        _ => Shape::Request(Method::Post),
    };
    IncomingTrigger::new(transport, shape, String::from("token=alpha&"), String::from(channel))
}

#[test]
fn a_message_carries_the_fixed_tag() {
    let message = Message::new(String::from("Be bold"));
    assert_eq!(message.response_type(), "ephemeral");
    assert_eq!(message.response_type(), RESPONSE_TYPE);
    assert_eq!(message.text(), "Be bold");
}

#[test]
fn a_message_is_written_as_its_envelope() {
    let message = Message::new(String::from("Be bold"));
    assert_eq!(message.to_json(), r#"{"response_type":"ephemeral","text":"Be bold"}"#);
    assert_eq!(Message::new(String::new()).to_json(), r#"{"response_type":"ephemeral","text":""}"#);
}

#[test]
fn the_text_is_written_as_a_json_string() {
    let message = Message::new(String::from("say \"hi\"\n\\o/ \u{1}\u{e9}"));
    assert_eq!(
        message.to_json(),
        "{\"response_type\":\"ephemeral\",\"text\":\"say \\\"hi\\\"\\n\\\\o/ \\u0001\u{e9}\"}"
    );
    let read: serde_json::Value = serde_json::from_str(&message.to_json()).unwrap();
    assert_eq!(read["text"], "say \"hi\"\n\\o/ \u{1}\u{e9}");
    assert_eq!(read["response_type"], "ephemeral");
}

#[test]
fn an_envelope_is_sealed_around_a_json_string() {
    assert_eq!(seal("ephemeral", "\"Be bold\""), r#"{"response_type":"ephemeral","text":"Be bold"}"#);
    assert_eq!(seal("in_channel", "\"\""), r#"{"response_type":"in_channel","text":""}"#);
    assert_eq!(ENVELOPE_OPENING, "{\"response_type\":\"");
    assert_eq!(ENVELOPE_MIDDLE, "\",\"text\":");
    assert_eq!(ENVELOPE_CLOSING, "}");
    assert_eq!(HEX_DIGITS, "0123456789abcdef");
}

#[test]
fn every_control_character_is_escaped() {
    let text: String = (0u8..0x20).map(char::from).collect();
    let written = Message::new(text).to_json();
    let expected = concat_all(&[
        r#"{"response_type":"ephemeral","text":""#,
        r"\u0000\u0001\u0002\u0003\u0004\u0005\u0006\u0007\b\t\n\u000b\f\r\u000e\u000f",
        r"\u0010\u0011\u0012\u0013\u0014\u0015\u0016\u0017\u0018\u0019\u001a\u001b\u001c\u001d\u001e\u001f",
        r#""}"#,
    ]);
    assert_eq!(written, expected);
}

#[test]
fn other_characters_stand_for_themselves() {
    let written = Message::new(String::from(" /\u{7f}\u{80}\u{e9}\u{2028}\u{1f600}'<>&")).to_json();
    assert_eq!(
        written,
        "{\"response_type\":\"ephemeral\",\"text\":\" /\u{7f}\u{80}\u{e9}\u{2028}\u{1f600}'<>&\"}"
    );
}

#[test]
fn each_transport_has_its_payload() {
    let r = responder();
    assert_eq!(
        r.format(Transport::SlashCommand, String::from("Be bold")),
        r#"{"response_type":"ephemeral","text":"Be bold"}"#
    );
    assert_eq!(r.format(Transport::PlainHttp, String::from("Be bold")), "Be bold");
    assert_eq!(r.format(Transport::Bot, String::from("Be \"bold\"")), "Be \"bold\"");
}

#[test]
fn a_text_is_delivered_on_the_triggers_transport() {
    let r = responder();
    assert_eq!(
        r.respond(
            &trigger(Transport::SlashCommand, ""),
            UpstreamResult::Inspiration(String::from("Be bold"))
        ),
        Outcome::Delivered(OutboundMessage {
            transport: Transport::SlashCommand,
            channel: String::new(),
            payload: String::from(r#"{"response_type":"ephemeral","text":"Be bold"}"#),
        })
    );
    assert_eq!(
        r.respond(&trigger(Transport::Bot, "C42"), UpstreamResult::Inspiration(String::from("Be bold"))),
        Outcome::Delivered(OutboundMessage {
            transport: Transport::Bot,
            channel: String::from("C42"),
            payload: String::from("Be bold"),
        })
    );
    assert_eq!(
        r.respond(&trigger(Transport::PlainHttp, ""), UpstreamResult::Inspiration(String::new())),
        Outcome::Delivered(OutboundMessage {
            transport: Transport::PlainHttp,
            channel: String::new(),
            payload: String::new(),
        })
    );
}

#[test]
fn a_failure_is_not_delivered() {
    let r = responder();
    for transport in [Transport::SlashCommand, Transport::PlainHttp, Transport::Bot] {
        assert_eq!(
            r.respond(&trigger(transport, "C42"), UpstreamResult::TransportFailure),
            Outcome::UpstreamFailed
        );
    }
    assert_eq!(Response::render(Outcome::UpstreamFailed), Err(TransportFailure));
}

#[test]
fn the_responder_keeps_its_client() {
    assert_eq!(responder().muse().uri(), "http://upstream.test/");
}

#[test]
fn denials_have_a_status_and_no_body() {
    assert_eq!(
        Response::render(Outcome::Unauthorized),
        Ok(Response { status: 403, content_length: None, body: String::new() })
    );
    assert_eq!(
        Response::render(Outcome::NotDispatched),
        Ok(Response { status: 404, content_length: None, body: String::new() })
    );
    assert_eq!(STATUS_FORBIDDEN, 403);
    assert_eq!(STATUS_NOT_FOUND, 404);
    assert_eq!(STATUS_OK, 200);
    assert_eq!(Response::empty(418), Response { status: 418, content_length: None, body: String::new() });
}

#[test]
fn the_content_length_counts_the_bytes_of_the_body() {
    let ascii = Response::ok(String::from("Be bold"));
    assert_eq!(ascii, Response { status: 200, content_length: Some(7), body: String::from("Be bold") });
    let wide = Response::ok(String::from("caf\u{e9} \u{1f600}"));
    assert_eq!(wide.content_length, Some(10));
    assert_eq!(wide.body.chars().count(), 6);
    assert_eq!(Response::ok(String::new()).content_length, Some(0));
}

#[test]
fn a_delivery_is_rendered_with_its_payload() {
    let outcome = responder().respond(
        &trigger(Transport::SlashCommand, ""),
        UpstreamResult::Inspiration(String::from("Be bold")),
    );
    let body = r#"{"response_type":"ephemeral","text":"Be bold"}"#;
    assert_eq!(
        Response::render(outcome),
        Ok(Response { status: 200, content_length: Some(body.len() as u64), body: String::from(body) })
    );
    let plain = responder().respond(
        &trigger(Transport::PlainHttp, ""),
        UpstreamResult::Inspiration(String::from("Be bold")),
    );
    assert_eq!(
        Response::render(plain),
        Ok(Response { status: 200, content_length: Some(7), body: String::from("Be bold") })
    );
}
