use inspiration::outcome::{OutboundMessage, Outcome};
use inspiration::relay::{Action, Event, Inspiration, Phase, Relay};
use inspiration::responder::Responder;
use inspiration::response::{Response, STATUS_OK};
use inspiration::trigger::{IncomingTrigger, Method, Shape, Transport};
use inspiration::upstream::{Muse, TransportFailure, UpstreamResult};

const UPSTREAM: &str = "http://upstream.test/api?generate=true";

fn service() -> Inspiration {
    let muse = Muse::new(String::from(UPSTREAM));
    Inspiration::new(Responder::new(muse), vec![String::from("alpha"), String::from("beta")])
}

fn http(transport: Transport, method: Method, body: &str) -> IncomingTrigger {
    IncomingTrigger::new(transport, Shape::Request(method), String::from(body), String::new())
}

fn methods() -> Vec<Method> {
    vec![
        Method::Options,
        Method::Get,
        Method::Post,
        Method::Put,
        Method::Delete,
        Method::Head,
        Method::Trace,
        Method::Connect,
        Method::Patch,
        Method::Extension(String::from("PURGE")),
        Method::Extension(String::from("POST")),
    ]
}

/// Drives one trigger as an adapter does, with a stub in place of the upstream.
/// Gives the outcome and the number of calls that the stub saw.
fn drive(relay: &Inspiration, trigger: IncomingTrigger, upstream: UpstreamResult) -> (Outcome, usize) {
    let mut calls = 0;
    let (mut state, mut action) = relay.call(trigger);
    let mut upstream = Some(upstream);
    loop {
        match action {
            Action::Proceed => action = relay.step(&mut state, Event::Advance),
            Action::Fetch(uri) => {
                assert_eq!(uri, UPSTREAM);
                calls += 1;
                let result = upstream.take().expect("the upstream was called twice");
                action = relay.step(&mut state, Event::Upstream(result));
            }
            Action::Finish(outcome) => {
                assert!(state.phase().is_terminal());
                assert_eq!(relay.step(&mut state, Event::Advance), Action::Ignore);
                return (outcome, calls);
            }
            Action::Ignore => panic!("a trigger that has not ended was left alone"),
        }
    }
}

#[test]
fn an_authentic_post_is_answered_with_the_envelope() {
    let trigger = http(Transport::SlashCommand, Method::Post, "token=alpha&command=%2Finspire");
    let (outcome, calls) = drive(&service(), trigger, UpstreamResult::Inspiration(String::from("Be bold")));
    assert_eq!(calls, 1);
    let response = Response::render(outcome).unwrap();
    assert_eq!(response.status, 200);
    assert_eq!(response.status, STATUS_OK);
    assert_eq!(response.body, r#"{"response_type":"ephemeral","text":"Be bold"}"#);
    assert_eq!(response.content_length, Some(46));
}

#[test]
fn an_authentic_request_of_another_method_is_not_found() {
    for transport in [Transport::SlashCommand, Transport::PlainHttp] {
        for method in methods() {
            if method == Method::Post {
                continue;
            }
            let trigger = http(transport, method, "token=beta&x=1");
            let (outcome, calls) =
                drive(&service(), trigger, UpstreamResult::Inspiration(String::from("Be bold")));
            assert_eq!(outcome, Outcome::NotDispatched);
            assert_eq!(calls, 0);
            assert_eq!(Response::render(outcome).unwrap().status, 404);
        }
    }
}

#[test]
fn a_request_without_a_good_token_is_forbidden_whatever_its_method() {
    for transport in [Transport::SlashCommand, Transport::PlainHttp] {
        for body in ["token=gamma&x=1", "x=1", "", "token=alphabet", "token=&token=alpha"] {
            for method in methods() {
                let (outcome, calls) = drive(
                    &service(),
                    http(transport, method, body),
                    UpstreamResult::Inspiration(String::from("Be bold")),
                );
                assert_eq!(outcome, Outcome::Unauthorized);
                assert_eq!(calls, 0);
                let response = Response::render(outcome).unwrap();
                assert_eq!(response.status, 403);
                assert_eq!(response.body, "");
            }
        }
    }
}

#[test]
fn a_failed_upstream_call_ends_in_failure() {
    let trigger = http(Transport::SlashCommand, Method::Post, "token=alpha&");
    let (outcome, calls) = drive(&service(), trigger, UpstreamResult::TransportFailure);
    assert_eq!(calls, 1);
    assert_eq!(outcome, Outcome::UpstreamFailed);
    assert_eq!(Response::render(outcome), Err(TransportFailure));
}

#[test]
fn plain_http_is_answered_with_the_bare_text() {
    let trigger = http(Transport::PlainHttp, Method::Post, "token=beta&");
    let (outcome, calls) = drive(&service(), trigger, UpstreamResult::Inspiration(String::from("Be bold")));
    assert_eq!(calls, 1);
    assert_eq!(
        Response::render(outcome),
        Ok(Response { status: 200, content_length: Some(7), body: String::from("Be bold") })
    );
}

#[test]
fn a_chat_message_is_answered_in_its_channel() {
    let trigger =
        IncomingTrigger::new(Transport::Bot, Shape::Message, String::from("hello"), String::from("C42"));
    let (outcome, calls) = drive(&service(), trigger, UpstreamResult::Inspiration(String::from("Be bold")));
    assert_eq!(calls, 1);
    assert_eq!(
        outcome,
        Outcome::Delivered(OutboundMessage {
            transport: Transport::Bot,
            channel: String::from("C42"),
            payload: String::from("Be bold"),
        })
    );
}

#[test]
fn other_chat_events_are_not_answered() {
    let trigger =
        IncomingTrigger::new(Transport::Bot, Shape::Notice, String::from("token=alpha&"), String::from("C42"));
    let (outcome, calls) = drive(&service(), trigger, UpstreamResult::Inspiration(String::from("Be bold")));
    assert_eq!((outcome, calls), (Outcome::NotDispatched, 0));
    let request = IncomingTrigger::new(
        Transport::Bot,
        Shape::Request(Method::Post),
        String::from("token=alpha&"),
        String::from("C42"),
    );
    let (outcome, calls) = drive(&service(), request, UpstreamResult::Inspiration(String::from("Be bold")));
    assert_eq!((outcome, calls), (Outcome::NotDispatched, 0));
    let message = http(Transport::SlashCommand, Method::Post, "token=alpha&");
    let message = IncomingTrigger::new(message.transport, Shape::Message, message.payload, message.channel);
    let (outcome, calls) = drive(&service(), message, UpstreamResult::Inspiration(String::from("Be bold")));
    assert_eq!((outcome, calls), (Outcome::NotDispatched, 0));
}

#[test]
fn a_trigger_goes_through_its_phases_one_step_at_a_time() {
    let relay = service();
    let mut state = Relay::receive(http(Transport::SlashCommand, Method::Post, "token=alpha&"));
    assert_eq!(state.phase(), Phase::Received);
    assert_eq!(relay.step(&mut state, Event::Advance), Action::Proceed);
    assert_eq!(state.phase(), Phase::Authenticating);
    assert_eq!(relay.step(&mut state, Event::Advance), Action::Proceed);
    assert_eq!(state.phase(), Phase::Dispatching);
    assert_eq!(relay.step(&mut state, Event::Advance), Action::Fetch(String::from(UPSTREAM)));
    assert_eq!(state.phase(), Phase::Fetching);
    assert_eq!(relay.step(&mut state, Event::Advance), Action::Ignore);
    assert_eq!(state.phase(), Phase::Fetching);
    let action = relay.step(&mut state, Event::Upstream(UpstreamResult::Inspiration(String::from("Be bold"))));
    assert_eq!(state.phase(), Phase::Delivered);
    match action {
        Action::Finish(Outcome::Delivered(message)) => {
            assert_eq!(message.payload, r#"{"response_type":"ephemeral","text":"Be bold"}"#)
        }
        other => panic!("unexpected action {:?}", other),
    }
    assert_eq!(state.trigger().payload, "token=alpha&");
}

#[test]
fn a_denial_takes_two_steps() {
    let relay = service();
    let mut state = Relay::receive(http(Transport::SlashCommand, Method::Post, "token=nope&"));
    assert_eq!(relay.step(&mut state, Event::Advance), Action::Proceed);
    assert_eq!(relay.step(&mut state, Event::Advance), Action::Finish(Outcome::Unauthorized));
    assert_eq!(state.phase(), Phase::Unauthorized);
}

#[test]
fn an_upstream_result_that_was_not_asked_for_is_ignored() {
    let relay = service();
    let mut state = Relay::receive(http(Transport::SlashCommand, Method::Post, "token=alpha&"));
    for expected in [Phase::Received, Phase::Authenticating, Phase::Dispatching] {
        assert_eq!(state.phase(), expected);
        let stray = Event::Upstream(UpstreamResult::Inspiration(String::from("stray")));
        assert_eq!(relay.step(&mut state, stray), Action::Ignore);
        assert_eq!(state.phase(), expected);
        relay.step(&mut state, Event::Advance);
    }
    assert_eq!(state.phase(), Phase::Fetching);
}

#[test]
fn a_trigger_that_has_ended_stays_ended() {
    let relay = service();
    let endings = [
        (http(Transport::SlashCommand, Method::Post, "x=1"), Phase::Unauthorized),
        (http(Transport::SlashCommand, Method::Get, "token=alpha&"), Phase::NotDispatched),
    ];
    for (trigger, phase) in endings {
        let (mut state, action) = relay.call(trigger);
        assert!(matches!(action, Action::Finish(_)));
        assert_eq!(state.phase(), phase);
        assert_eq!(relay.step(&mut state, Event::Advance), Action::Ignore);
        let late = Event::Upstream(UpstreamResult::Inspiration(String::from("late")));
        assert_eq!(relay.step(&mut state, late), Action::Ignore);
        assert_eq!(relay.step(&mut state, Event::Upstream(UpstreamResult::TransportFailure)), Action::Ignore);
        assert_eq!(state.phase(), phase);
    }
    for (result, phase) in [
        (UpstreamResult::Inspiration(String::from("Be bold")), Phase::Delivered),
        (UpstreamResult::TransportFailure, Phase::UpstreamFailed),
    ] {
        let (mut state, action) = relay.call(http(Transport::SlashCommand, Method::Post, "token=alpha&"));
        assert_eq!(action, Action::Fetch(String::from(UPSTREAM)));
        assert!(matches!(relay.step(&mut state, Event::Upstream(result)), Action::Finish(_)));
        assert_eq!(state.phase(), phase);
        let again = Event::Upstream(UpstreamResult::Inspiration(String::from("again")));
        assert_eq!(relay.step(&mut state, again), Action::Ignore);
        assert_eq!(state.phase(), phase);
    }
}

#[test]
fn only_the_four_endings_are_terminal() {
    let terminal = [Phase::Unauthorized, Phase::NotDispatched, Phase::Delivered, Phase::UpstreamFailed];
    let open = [Phase::Received, Phase::Authenticating, Phase::Dispatching, Phase::Fetching];
    assert!(terminal.iter().all(|p| p.is_terminal()));
    assert!(open.iter().all(|p| !p.is_terminal()));
}

#[test]
fn taking_a_trigger_in_stops_at_the_call_or_at_the_end() {
    let relay = service();
    let (state, action) = relay.call(http(Transport::PlainHttp, Method::Post, "token=beta&"));
    assert_eq!((state.phase(), action), (Phase::Fetching, Action::Fetch(String::from(UPSTREAM))));
    let (state, action) = relay.call(http(Transport::PlainHttp, Method::Put, "token=beta&"));
    assert_eq!((state.phase(), action), (Phase::NotDispatched, Action::Finish(Outcome::NotDispatched)));
    let (state, action) = relay.call(http(Transport::PlainHttp, Method::Post, "token=delta&"));
    assert_eq!((state.phase(), action), (Phase::Unauthorized, Action::Finish(Outcome::Unauthorized)));
    assert_eq!(relay.responder().muse().uri(), UPSTREAM);
}

#[test]
fn triggers_in_flight_together_get_their_own_replies() {
    let relay = service();
    let n = 7;
    let mut states = Vec::new();
    for i in 0..n {
        let trigger = IncomingTrigger::new(
            Transport::Bot,
            Shape::Message,
            format!("message {}", i),
            format!("C{}", i),
        );
        let (state, action) = relay.call(trigger);
        assert_eq!(action, Action::Fetch(String::from(UPSTREAM)));
        states.push(state);
    }
    // The upstream answers the later triggers first; a new trigger arrives in between.
    let mut replies: Vec<Option<Outcome>> = (0..n).map(|_| None).collect();
    for i in (0..n).rev() {
        if i == 3 {
            let (late, action) = relay.call(http(Transport::SlashCommand, Method::Post, "token=alpha&"));
            assert_eq!(late.phase(), Phase::Fetching);
            assert_eq!(action, Action::Fetch(String::from(UPSTREAM)));
        }
        let result = if i == 2 {
            UpstreamResult::TransportFailure
        } else {
            UpstreamResult::Inspiration(format!("text {}", i))
        };
        match relay.step(&mut states[i], Event::Upstream(result)) {
            Action::Finish(outcome) => replies[i] = Some(outcome),
            other => panic!("unexpected action {:?}", other),
        }
    }
    for i in 0..n {
        let expected = if i == 2 {
            Outcome::UpstreamFailed
        } else {
            Outcome::Delivered(OutboundMessage {
                transport: Transport::Bot,
                channel: format!("C{}", i),
                payload: format!("text {}", i),
            })
        };
        assert_eq!(replies[i], Some(expected));
    }
}
