use chat_label_printer::exchange::{Action, Event, Exchange, SessionError};
use chat_label_printer::packet::NiimbotPacket;
use chat_label_printer::request::Request;

fn frame(command: u8, payload: &[u8]) -> Vec<u8> {
    NiimbotPacket::new(command, payload.to_vec()).to_bytes()
}

struct Run {
    sent: Vec<Vec<u8>>,
    receives: usize,
    waits: Vec<u64>,
    result: Result<Option<(u8, Vec<u8>)>, SessionError>,
}

/// Drives an exchange against a transport that answers receive call number `n`
/// (from zero) with `replies(n)`; `None` stands for a failed call.
fn drive(request: Request, send_ok: bool, replies: &dyn Fn(usize) -> Option<Vec<u8>>) -> Run {
    let mut exchange = Exchange::new(request);
    let mut run = Run { sent: vec![], receives: 0, waits: vec![], result: Ok(None) };
    for _ in 0..100 {
        let event = match exchange.pending() {
            Action::Send(bytes) => {
                run.sent.push(bytes);
                if send_ok {
                    Event::Sent
                } else {
                    Event::SendFailed
                }
            }
            Action::Wait(millis) => {
                run.waits.push(millis);
                Event::Waited
            }
            Action::Receive => {
                let reply = replies(run.receives);
                run.receives += 1;
                match reply {
                    Some(bytes) => Event::Received(bytes),
                    None => Event::ReceiveFailed,
                }
            }
            Action::Finish(result) => {
                run.result = result.map(|found| found.map(|packet| (packet.packet_type, packet.data)));
                return run;
            }
        };
        exchange.observe(event);
    }
    panic!("the exchange did not finish");
}

#[test]
fn silent_transport_gives_no_response_after_exactly_five_attempts() {
    let run = drive(Request::heartbeat(), true, &|_| Some(vec![]));
    assert_eq!(run.result, Err(SessionError::NoResponse));
    assert_eq!(run.receives, 5);
    assert_eq!(run.sent, vec![frame(0xDC, &[1])]);
    assert_eq!(run.waits, vec![10, 200, 200, 200, 200, 200]);
    assert_eq!(run.waits[1..].iter().sum::<u64>(), 1000);
}

#[test]
fn failing_receive_calls_count_as_attempts() {
    let run = drive(Request::heartbeat(), true, &|_| None);
    assert_eq!(run.result, Err(SessionError::NoResponse));
    assert_eq!(run.receives, 5);
}

#[test]
fn frames_of_other_commands_are_no_response() {
    let run = drive(Request::heartbeat(), true, &|_| Some(frame(0xDC, &[1])));
    assert_eq!(run.result, Err(SessionError::NoResponse));
    assert_eq!(run.receives, 5);
}

#[test]
fn response_on_the_first_attempt() {
    let run = drive(Request::heartbeat(), true, &|_| Some(frame(0xDD, &[4, 2])));
    assert_eq!(run.result, Ok(Some((0xDD, vec![4, 2]))));
    assert_eq!(run.receives, 1);
    assert_eq!(run.waits, vec![10]);
}

#[test]
fn response_on_the_fifth_attempt() {
    let run = drive(Request::get_print_status(), true, &|n| {
        if n == 4 {
            Some(frame(0xB3, &[0, 1, 100, 100]))
        } else {
            Some(vec![])
        }
    });
    assert_eq!(run.result, Ok(Some((0xB3, vec![0, 1, 100, 100]))));
    assert_eq!(run.receives, 5);
    assert_eq!(run.waits, vec![10, 200, 200, 200, 200]);
}

#[test]
fn first_matching_frame_among_several_is_the_response() {
    let mut stream = frame(0x31, &[1]);
    stream.extend(frame(0x33, &[7]));
    stream.extend(frame(0x33, &[8]));
    let run = drive(Request::set_label_type(1), true, &move |_| Some(stream.clone()));
    assert_eq!(run.result, Ok(Some((0x33, vec![7]))));
}

#[test]
fn get_info_is_answered_under_its_own_code() {
    let run = drive(Request::get_info(10), true, &|_| Some(frame(0x40, &[3])));
    assert_eq!(run.result, Ok(Some((0x40, vec![3]))));
}

#[test]
fn refused_send_fails_at_once() {
    let run = drive(Request::heartbeat(), false, &|_| Some(frame(0xDD, &[1])));
    assert_eq!(run.result, Err(SessionError::TransportFailed));
    assert_eq!(run.receives, 0);
    assert!(run.waits.is_empty());
}

#[test]
fn request_without_response_is_sent_and_not_waited_for() {
    let run = drive(Request::set_page_size_v3(240, 400, 1), true, &|_| Some(vec![]));
    assert_eq!(run.result, Ok(None));
    assert_eq!(run.receives, 0);
    assert_eq!(run.waits, vec![10]);
    assert_eq!(run.sent, vec![frame(0x13, &[0, 240, 1, 144, 0, 1])]);
}

#[test]
fn response_code_above_255_is_never_matched() {
    let request = Request { code: 0xF8, payload: vec![], response_offset: Some(16) };
    let run = drive(request, true, &|_| Some(frame(0x08, &[])));
    assert_eq!(run.result, Err(SessionError::NoResponse));
}

#[test]
fn events_that_do_not_answer_the_pending_action_change_nothing() {
    let mut exchange = Exchange::new(Request::heartbeat());
    exchange.observe(Event::Waited);
    exchange.observe(Event::Received(frame(0xDD, &[1])));
    exchange.observe(Event::ReceiveFailed);
    assert!(matches!(exchange.pending(), Action::Send(_)));
    exchange.observe(Event::Sent);
    exchange.observe(Event::Sent);
    assert!(matches!(exchange.pending(), Action::Wait(10)));
    exchange.observe(Event::Waited);
    assert!(matches!(exchange.pending(), Action::Receive));
    assert_eq!(exchange.attempts(), 0);
    assert!(!exchange.finished());
    exchange.observe(Event::Received(frame(0xDD, &[1])));
    assert!(exchange.finished());
    exchange.observe(Event::SendFailed);
    assert!(matches!(exchange.pending(), Action::Finish(Ok(Some(_)))));
}

#[test]
fn attempts_are_counted() {
    let mut exchange = Exchange::new(Request::heartbeat());
    exchange.observe(Event::Sent);
    exchange.observe(Event::Waited);
    for expected in 1..=5u8 {
        exchange.observe(Event::Received(vec![]));
        assert_eq!(exchange.attempts(), expected);
        assert!(matches!(exchange.pending(), Action::Wait(200)));
        exchange.observe(Event::Waited);
    }
    assert!(matches!(exchange.pending(), Action::Finish(Err(SessionError::NoResponse))));
    assert_eq!(exchange.attempts(), 5);
}

#[test]
fn session_error_messages() {
    assert_eq!(SessionError::NoResponse.message(), "No response");
    assert_eq!(SessionError::InvalidResponse.message(), "Invalid response");
    assert_eq!(SessionError::TransportFailed.message(), "Transport failed");
}
