use std::io;

use pontifex::client::{CallAction, CallEvent, CallPhase, Error as CallError};
use pontifex::demo::{handle_echo, handle_health, Echo, HealthCheck};
use pontifex::server::{ConnAction, ConnEvent, ConnPhase, Error as ServeError};
use pontifex::{CodingKey, ConnectionDetails, Request, Router};

type Handler = fn(&[u8]) -> ConnEvent;

fn echo_handler(payload: &[u8]) -> ConnEvent {
    match rmp_serde::from_slice::<(String,)>(payload) {
        Ok((message,)) => {
            let r = handle_echo(&Echo { message }, 1_700_000_000);
            ConnEvent::Responded(rmp_serde::to_vec(&(r.echoed, r.timestamp)).unwrap())
        },
        Err(e) => ConnEvent::DecodeFailed(e),
    }
}

fn health_handler(payload: &[u8]) -> ConnEvent {
    match rmp_serde::from_slice::<()>(payload) {
        Ok(()) => {
            let r = handle_health(&HealthCheck, "1.2.3");
            ConnEvent::Responded(rmp_serde::to_vec(&(r.healthy, r.version)).unwrap())
        },
        Err(e) => ConnEvent::DecodeFailed(e),
    }
}

fn eof() -> io::Error {
    io::Error::from(io::ErrorKind::UnexpectedEof)
}

fn router() -> Router<(), Handler> {
    Router::new()
        .route::<Echo>(echo_handler as Handler)
        .unwrap()
        .route::<HealthCheck>(health_handler as Handler)
        .unwrap()
}

/// Runs one server connection over `input`; returns what it wrote, how many
/// input bytes it read, and its outcome.
fn serve(router: &Router<(), Handler>, input: &[u8]) -> (Vec<u8>, usize, Result<(), ServeError>) {
    let mut pos = 0usize;
    let mut out = Vec::new();
    let (mut phase, mut action) = ConnPhase::start();
    loop {
        let ev = match action {
            ConnAction::Read { len, .. } => {
                if pos + len <= input.len() {
                    let b = input[pos..pos + len].to_vec();
                    pos += len;
                    ConnEvent::Received(b)
                } else {
                    pos = input.len();
                    ConnEvent::Failed(eof())
                }
            },
            ConnAction::Write { bytes, .. } => {
                out.extend_from_slice(&bytes);
                ConnEvent::Written
            },
            ConnAction::Handle { route_hash, payload } => {
                let h = router.handler(route_hash).ok().unwrap();
                h(&payload)
            },
            ConnAction::Finish(r) => return (out, pos, r),
        };
        assert!(phase.expects(&ev));
        let next = phase.advance(router, ev);
        phase = next.0;
        action = next.1;
    }
}

/// Runs one call: `request` is what encoding gives, `reply` turns the bytes
/// the call wrote into the bytes it then reads.
fn call<T>(
    route_hash: u32,
    request: Result<Vec<u8>, rmp_serde::encode::Error>,
    reply: impl FnOnce(&[u8]) -> Vec<u8>,
    decode: fn(&[u8]) -> Result<T, rmp_serde::decode::Error>,
) -> (Vec<u8>, Result<T, CallError>) {
    let endpoint = ConnectionDetails::new(16, 1000);
    let mut written = Vec::new();
    let mut request = Some(request);
    let mut reply = Some(reply);
    let mut input: Vec<u8> = Vec::new();
    let mut pos = 0usize;
    let (mut phase, mut action) = CallPhase::start::<T>(endpoint, route_hash);
    loop {
        let ev = match action {
            CallAction::Connect { cid, port } => {
                assert_eq!((cid, port), (16, 1000));
                CallEvent::Connected
            },
            CallAction::Write { bytes, .. } => {
                written.extend_from_slice(&bytes);
                CallEvent::Written
            },
            CallAction::Encode => match request.take().unwrap() {
                Ok(b) => CallEvent::Encoded(b),
                Err(e) => CallEvent::EncodeFailed(e),
            },
            CallAction::Read { len, .. } => {
                if let Some(f) = reply.take() {
                    input = f(&written);
                }
                if pos + len <= input.len() {
                    let b = input[pos..pos + len].to_vec();
                    pos += len;
                    CallEvent::Received(b)
                } else {
                    pos = input.len();
                    CallEvent::Failed(eof())
                }
            },
            CallAction::Decode(b) => match decode(&b) {
                Ok(t) => CallEvent::Decoded(t),
                Err(e) => CallEvent::DecodeFailed(e),
            },
            CallAction::Finish(r) => return (written, r),
        };
        assert!(phase.expects(&ev));
        let next = phase.advance(ev);
        phase = next.0;
        action = next.1;
    }
}

fn decode_echo(b: &[u8]) -> Result<(String, u64), rmp_serde::decode::Error> {
    rmp_serde::from_slice(b)
}

fn decode_health(b: &[u8]) -> Result<(bool, String), rmp_serde::decode::Error> {
    rmp_serde::from_slice(b)
}

#[test]
fn echo_round_trip() {
    let r = router();
    let request = rmp_serde::to_vec(&("Hello, Enclave!",));
    let (written, result) = call(Echo::type_id(), request, |w| serve(&r, w).0, decode_echo);
    assert_eq!(&written[..4], &[0x7f, 0xbb, 0xcc, 0xac]);
    let (echoed, timestamp) = result.ok().unwrap();
    assert_eq!(echoed, "You said: Hello, Enclave!");
    assert_eq!(timestamp, 1_700_000_000);
}

#[test]
fn echo_handler_prefixes_message() {
    let r = handle_echo(&Echo { message: String::from("abc") }, 7);
    assert_eq!(r.echoed, "You said: abc");
    assert_eq!(r.timestamp, 7);
}

#[test]
fn health_check_round_trip() {
    let r = router();
    let request = rmp_serde::to_vec(&());
    let (written, result) = call(HealthCheck::type_id(), request, |w| serve(&r, w).0, decode_health);
    assert_eq!(&written[..4], &[0x90, 0xef, 0x22, 0x79]);
    let (healthy, version) = result.ok().unwrap();
    assert!(healthy);
    assert_eq!(version, "1.2.3");
}

#[test]
fn request_frame_layout() {
    let payload = rmp_serde::to_vec(&("Hello, Enclave!",)).unwrap();
    let (written, _) = call(Echo::type_id(), Ok(payload.clone()), |_| Vec::new(), decode_echo);
    let mut expected = vec![0x7f, 0xbb, 0xcc, 0xac];
    expected.extend_from_slice(&(payload.len() as u64).to_be_bytes());
    expected.extend_from_slice(&payload);
    assert_eq!(written, expected);
}

#[test]
fn server_consumes_exactly_one_frame() {
    let r = router();
    let payload = rmp_serde::to_vec(&("hi",)).unwrap();
    let mut input = Echo::type_id().to_be_bytes().to_vec();
    input.extend_from_slice(&(payload.len() as u64).to_be_bytes());
    input.extend_from_slice(&payload);
    let frame_len = input.len();
    input.extend_from_slice(&[9, 9, 9]);
    let (out, consumed, result) = serve(&r, &input);
    assert!(result.is_ok());
    assert_eq!(consumed, frame_len);
    let body = rmp_serde::to_vec(&("You said: hi", 1_700_000_000u64)).unwrap();
    let mut expected = (body.len() as u64).to_be_bytes().to_vec();
    expected.extend_from_slice(&body);
    assert_eq!(out, expected);
}

#[test]
fn unknown_route_gets_no_reply() {
    let r = router();
    let missing = pontifex::route::route_hash("missing_v1");
    let (written, result) = call(missing, rmp_serde::to_vec(&()), |w| {
        let (out, _, served) = serve(&r, w);
        match served {
            Err(ServeError::UnknownRequest(h)) => assert_eq!(h, 0x3854_bef1),
            _ => panic!("expected UnknownRequest"),
        }
        assert!(out.is_empty());
        out
    }, decode_health);
    assert_eq!(&written[..4], &[0x38, 0x54, 0xbe, 0xf1]);
    match result {
        Err(CallError::Reading(CodingKey::Length, _)) => {},
        _ => panic!("expected a failed length read"),
    }
}

#[test]
fn oversize_length_is_refused_without_reading() {
    let r = router();
    let mut input = Echo::type_id().to_be_bytes().to_vec();
    input.extend_from_slice(&(1u64 << 63).to_be_bytes());
    let (out, consumed, result) = serve(&r, &input);
    assert!(out.is_empty());
    assert_eq!(consumed, 12);
    match result {
        Err(ServeError::PayloadTooLarge(n)) => assert_eq!(n, 1 << 63),
        _ => panic!("expected PayloadTooLarge"),
    }
}

#[test]
fn oversize_response_length_is_refused() {
    let mut reply = (pontifex::wire::MAX_PAYLOAD_LEN + 1).to_be_bytes().to_vec();
    reply.extend_from_slice(&[0; 4]);
    let (_, result) = call(Echo::type_id(), Ok(vec![0x90]), |_| reply, decode_echo);
    match result {
        Err(CallError::PayloadTooLarge(n)) => assert_eq!(n, pontifex::wire::MAX_PAYLOAD_LEN + 1),
        _ => panic!("expected PayloadTooLarge"),
    }
}

#[test]
fn concurrent_calls_get_their_own_answers() {
    let r = router();
    let first = rmp_serde::to_vec(&("first",)).unwrap();
    let second = rmp_serde::to_vec(&("second",)).unwrap();
    let (_, a) = call(Echo::type_id(), Ok(first), |w| {
        let (_, b) = call(Echo::type_id(), Ok(second.clone()), |w2| serve(&r, w2).0, decode_echo);
        assert_eq!(b.ok().unwrap().0, "You said: second");
        serve(&r, w).0
    }, decode_echo);
    let (echoed, _) = a.ok().unwrap();
    assert_eq!(echoed, "You said: first");
    assert!(!echoed.contains("second"));
}

#[test]
fn zero_length_payload_is_read() {
    let mut phase = ConnPhase::Length { route_hash: 1 };
    let r: Router<(), u8> = Router::new();
    assert!(phase.expects(&ConnEvent::Received(vec![0; 8])));
    let (next, action) = phase.advance(&r, ConnEvent::Received(vec![0; 8]));
    match action {
        ConnAction::Read { len, key } => {
            assert_eq!(len, 0);
            assert_eq!(key, CodingKey::Payload);
        },
        _ => panic!("expected a read of the empty payload"),
    }
    phase = next;
    let (_, action) = phase.advance(&r, ConnEvent::Received(Vec::new()));
    match action {
        ConnAction::Handle { route_hash, payload } => {
            assert_eq!(route_hash, 1);
            assert!(payload.is_empty());
        },
        _ => panic!("expected the handler to run"),
    }
}

#[test]
fn client_gone_mid_payload_ends_the_connection() {
    let r = router();
    let mut input = Echo::type_id().to_be_bytes().to_vec();
    input.extend_from_slice(&10u64.to_be_bytes());
    input.extend_from_slice(&[1, 2, 3]);
    let (out, _, result) = serve(&r, &input);
    assert!(out.is_empty());
    match result {
        Err(ServeError::Reading(CodingKey::Payload, _)) => {},
        _ => panic!("expected a failed payload read"),
    }
}

#[test]
fn client_gone_before_hash_ends_the_connection() {
    let r = router();
    let (out, _, result) = serve(&r, &[]);
    assert!(out.is_empty());
    match result {
        Err(ServeError::Reading(CodingKey::Length, _)) => {},
        _ => panic!("expected a failed hash read"),
    }
}

#[test]
fn server_gone_mid_response_fails_the_call() {
    let (_, result) = call(Echo::type_id(), Ok(vec![0x90]), |_| vec![0, 0, 0, 0, 0, 0, 0, 9, 1], decode_echo);
    match result {
        Err(CallError::Reading(CodingKey::Payload, _)) => {},
        _ => panic!("expected a failed payload read"),
    }
    let (_, result) = call(Echo::type_id(), Ok(vec![0x90]), |_| vec![0, 0, 0], decode_echo);
    match result {
        Err(CallError::Reading(CodingKey::Length, _)) => {},
        _ => panic!("expected a failed length read"),
    }
}

#[test]
fn undecodable_request_gets_no_reply() {
    let r = router();
    let mut input = Echo::type_id().to_be_bytes().to_vec();
    input.extend_from_slice(&1u64.to_be_bytes());
    input.push(0xc1);
    let (out, _, result) = serve(&r, &input);
    assert!(out.is_empty());
    assert!(matches!(result, Err(ServeError::Decoding(_))));
}

#[test]
fn call_failures_map_to_their_step() {
    let endpoint = ConnectionDetails::new(3, 5000);
    assert_eq!(endpoint.cid, 3);
    assert_eq!(endpoint.port, 5000);
    let (phase, _) = CallPhase::start::<()>(endpoint, 1);
    let (_, action) = phase.advance(CallEvent::<()>::Failed(eof()));
    assert!(matches!(action, CallAction::Finish(Err(CallError::Connection(_)))));
    let (_, action) = CallPhase::SendingHash.advance(CallEvent::<()>::Failed(eof()));
    assert!(matches!(action, CallAction::Finish(Err(CallError::Writing(CodingKey::Length, _)))));
    let (_, action) = CallPhase::SendingPayload.advance(CallEvent::<()>::Failed(eof()));
    assert!(matches!(action, CallAction::Finish(Err(CallError::Writing(CodingKey::Payload, _)))));
    let bad = rmp_serde::from_slice::<u8>(&[0xc1]).err().unwrap();
    let (_, action) = CallPhase::Decoding.advance(CallEvent::<()>::DecodeFailed(bad));
    assert!(matches!(action, CallAction::Finish(Err(CallError::Decoding(_)))));
    let (_, action) = CallPhase::Decoding.advance(CallEvent::Decoded(7u8));
    assert!(matches!(action, CallAction::Finish(Ok(7))));
}

#[test]
fn events_out_of_turn_are_not_expected() {
    assert!(!ConnPhase::Hash.expects(&ConnEvent::Written));
    assert!(!ConnPhase::Hash.expects(&ConnEvent::Received(vec![1, 2, 3])));
    assert!(!ConnPhase::Finished.expects(&ConnEvent::Written));
    assert!(!CallPhase::Encoding.expects(&CallEvent::<()>::Connected));
    assert!(CallPhase::ReceivingLength.expects(&CallEvent::<()>::Received(vec![0; 8])));
}
