//! The correlator's ordering and serialization guarantees: every
//! completed exchange is informs then exactly one reply, and a second
//! request is never interleaved with an open one.

use snapctl::correlator::{CorrelateStep, Correlator};
use snapctl::msg::{ClientError, Message, MessageKind};
use snapctl::registers::read_request;

fn inform(name: &str, args: &[&str]) -> Message {
    Message {
        kind: MessageKind::Inform,
        name: name.to_string(),
        arguments: args.iter().map(|a| a.to_string()).collect(),
    }
}

fn reply(name: &str, args: &[&str]) -> Message {
    Message {
        kind: MessageKind::Reply,
        name: name.to_string(),
        arguments: args.iter().map(|a| a.to_string()).collect(),
    }
}

#[test]
fn exchange_ends_with_reply_after_informs() {
    let mut c = Correlator::new();
    let line = c.start(&read_request("gbe0", 0, 4)).expect("request should open an exchange");
    assert_eq!(line, "?read gbe0 0 4\n");
    assert!(matches!(
        c.on_message(inform("listbof", &["one.bof"])).unwrap(),
        CorrelateStep::Pending
    ));
    assert!(matches!(
        c.on_message(inform("listbof", &["two.bof"])).unwrap(),
        CorrelateStep::Pending
    ));
    match c.on_message(reply("read", &["ok"])).unwrap() {
        CorrelateStep::Complete(v) => {
            assert_eq!(v.len(), 3);
            assert_eq!(v[v.len() - 1].kind, MessageKind::Reply);
            for m in &v[..v.len() - 1] {
                assert_eq!(m.kind, MessageKind::Inform);
            }
        }
        CorrelateStep::Pending => panic!("the reply must complete the exchange"),
    }
}

#[test]
fn second_request_while_busy_is_rejected() {
    let mut c = Correlator::new();
    c.start(&read_request("gbe0", 0, 4)).expect("first request should open an exchange");
    let second = c.start(&read_request("gbe1", 0, 4));
    assert!(matches!(second, Err(ClientError::Protocol { .. })));
    // The open exchange is untouched: its reply still completes it.
    match c.on_message(reply("read", &["ok"])).unwrap() {
        CorrelateStep::Complete(v) => assert_eq!(v.len(), 1),
        CorrelateStep::Pending => panic!("the reply must complete the exchange"),
    }
}

#[test]
fn request_from_the_peer_is_a_protocol_error() {
    let mut c = Correlator::new();
    c.start(&read_request("gbe0", 0, 4)).expect("request should open an exchange");
    let bad = Message {
        kind: MessageKind::Request,
        name: "read".to_string(),
        arguments: Vec::new(),
    };
    match c.on_message(bad) {
        Err(ClientError::Protocol { name }) => assert_eq!(name, "read"),
        other => panic!("a request from the peer must be a protocol error, got {:?}", other),
    }
}

#[test]
fn starting_with_a_non_request_is_rejected() {
    let mut c = Correlator::new();
    let err = c.start(&inform("fpga", &["ready"]));
    assert!(matches!(err, Err(ClientError::Protocol { .. })));
}

#[test]
fn malformed_request_is_rejected_before_sending() {
    let mut c = Correlator::new();
    let bad = Message {
        kind: MessageKind::Request,
        name: "two words".to_string(),
        arguments: Vec::new(),
    };
    assert!(matches!(c.start(&bad), Err(ClientError::Protocol { .. })));
}

#[test]
fn message_with_no_open_exchange_is_rejected() {
    let mut c = Correlator::new();
    let err = c.on_message(reply("read", &["ok"]));
    assert!(matches!(err, Err(ClientError::Protocol { .. })));
}
