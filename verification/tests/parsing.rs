//! Routing of inbound messages, the standard handlers' parsers, and
//! the reply checkers of the register and session layers.

use snapctl::api::{check_log_level_reply, check_ping_reply, log_level_request, ping_request};
use snapctl::dispatch::{
    make_inform_dispatchers, parse_fpga_inform, parse_log_inform, FpgaStatus, Level, Route,
};
use snapctl::escape::{escape_argument, unescape_argument};
use snapctl::msg::{check_argument, check_name, ClientError, Message, MessageKind, RetCode};
use snapctl::registers::{
    check_write_reply, parse_read_reply, read_bool_value, read_int_value, read_request,
    write_request,
};
use snapctl::wire::base64_encode;

fn inform(name: &str, args: &[&str]) -> Message {
    Message {
        kind: MessageKind::Inform,
        name: name.to_string(),
        arguments: args.iter().map(|a| a.to_string()).collect(),
    }
}

fn reply(name: &str, args: &[&str]) -> Message {
    Message {
        kind: MessageKind::Reply,
        name: name.to_string(),
        arguments: args.iter().map(|a| a.to_string()).collect(),
    }
}

#[test]
fn handled_informs_are_consumed_not_forwarded() {
    let table = make_inform_dispatchers();
    assert!(matches!(table.route(&inform("log", &[])), Route::Handled(0)));
    assert!(matches!(table.route(&inform("fpga", &["ready"])), Route::Handled(1)));
    assert!(matches!(table.route(&inform("version-connect", &[])), Route::Handled(2)));
    assert!(matches!(table.route(&inform("listbof", &["a.bof"])), Route::Forward));
    assert!(matches!(table.route(&reply("log", &["ok"])), Route::Forward));
}

#[test]
fn log_informs_parse_to_records() {
    let m = inform(
        "log",
        &["warn", "10000", "device.sub-system", &escape_argument("Something may be wrong")],
    );
    let rec = parse_log_inform(&m).expect("a well-formed log inform should parse");
    assert_eq!(rec.level, Level::Warn);
    assert_eq!(rec.name, "device.sub-system");
    assert_eq!(rec.message, "Something may be wrong");
    assert!(parse_log_inform(&inform("log", &["warn"])).is_none());
    assert!(parse_log_inform(&inform("log", &["loud", "1", "a", "b"])).is_none());
    assert!(parse_log_inform(&reply("log", &["warn", "1", "a", "b"])).is_none());
}

#[test]
fn fpga_informs_parse_to_lifecycle_states() {
    assert_eq!(parse_fpga_inform(&inform("fpga", &["loaded"])), Some(FpgaStatus::Loaded));
    assert_eq!(parse_fpga_inform(&inform("fpga", &["ready"])), Some(FpgaStatus::Ready));
    assert_eq!(parse_fpga_inform(&inform("fpga", &["down"])), Some(FpgaStatus::Down));
    assert_eq!(parse_fpga_inform(&inform("fpga", &["mapped"])), Some(FpgaStatus::Mapped));
    assert_eq!(parse_fpga_inform(&inform("fpga", &["sideways"])), None);
    assert_eq!(parse_fpga_inform(&inform("fpga", &[])), None);
}

#[test]
fn read_reply_carries_the_payload() {
    let payload = base64_encode(&[0xde, 0xad, 0xbe, 0xef]);
    let exchange = vec![reply("read", &["ok", &payload])];
    assert_eq!(parse_read_reply(&exchange).unwrap(), vec![0xde, 0xad, 0xbe, 0xef]);
}

#[test]
fn read_reply_with_fail_code_is_a_device_error() {
    let exchange = vec![reply("read", &["fail"])];
    match parse_read_reply(&exchange) {
        Err(ClientError::Device { name, code }) => {
            assert_eq!(name, "read");
            assert_eq!(code, RetCode::Fail);
        }
        other => panic!("a fail code must be a device error, got {:?}", other),
    }
    let exchange = vec![reply("read", &["invalid"])];
    match parse_read_reply(&exchange) {
        Err(ClientError::Device { code, .. }) => assert_eq!(code, RetCode::Invalid),
        other => panic!("an invalid code must be a device error, got {:?}", other),
    }
}

#[test]
fn malformed_read_reply_is_a_protocol_error() {
    assert!(matches!(parse_read_reply(&vec![]), Err(ClientError::Protocol { .. })));
    let wrong_name = vec![reply("write", &["ok"])];
    assert!(matches!(parse_read_reply(&wrong_name), Err(ClientError::Protocol { .. })));
    let no_payload = vec![reply("read", &["ok"])];
    assert!(matches!(parse_read_reply(&no_payload), Err(ClientError::Protocol { .. })));
    let bad_payload = vec![reply("read", &["ok", "not base64!"])];
    assert!(matches!(parse_read_reply(&bad_payload), Err(ClientError::Protocol { .. })));
}

#[test]
fn write_reply_checks_the_code() {
    assert!(check_write_reply(&vec![reply("write", &["ok"])]).is_ok());
    match check_write_reply(&vec![reply("write", &["fail"])]) {
        Err(ClientError::Device { name, code }) => {
            assert_eq!(name, "write");
            assert_eq!(code, RetCode::Fail);
        }
        other => panic!("a fail code must be a device error, got {:?}", other),
    }
}

#[test]
fn register_values_decode_from_their_bytes() {
    assert_eq!(read_bool_value(&[1]).unwrap(), true);
    assert_eq!(read_bool_value(&[0]).unwrap(), false);
    assert!(matches!(read_bool_value(&[1, 0]), Err(ClientError::Protocol { .. })));
    assert_eq!(read_int_value(&[0xde, 0xad, 0xbe, 0xef]).unwrap(), 0xdead_beef);
    assert!(matches!(read_int_value(&[1, 2, 3]), Err(ClientError::Protocol { .. })));
}

#[test]
fn requests_spell_their_arguments() {
    let m = read_request("gbe0", 0x34, 4);
    assert_eq!(m.kind, MessageKind::Request);
    assert_eq!(m.name, "read");
    assert_eq!(m.arguments, vec!["gbe0".to_string(), "52".to_string(), "4".to_string()]);
    let m = write_request("gbe0", 0, &[1, 2, 3]);
    assert_eq!(m.name, "write");
    assert_eq!(m.arguments[2], base64_encode(&[1, 2, 3]));
}

#[test]
fn ping_exchange_checks_the_watchdog_reply() {
    assert_eq!(ping_request().name, "watchdog");
    assert!(check_ping_reply(&vec![reply("watchdog", &["ok"])]).is_ok());
    assert!(matches!(
        check_ping_reply(&vec![reply("watchdog", &["fail"])]),
        Err(ClientError::Device { .. })
    ));
    assert!(matches!(check_ping_reply(&vec![]), Err(ClientError::Protocol { .. })));
}

#[test]
fn grammar_checkers_match_the_wire_rules() {
    assert!(check_name("log-level"));
    assert!(check_name("gbe0"));
    assert!(!check_name(""));
    assert!(!check_name("0gbe"));
    assert!(!check_name("two words"));
    assert!(check_argument(r"a\_token"));
    assert!(check_argument("3q2+7w=="));
    assert!(!check_argument(""));
    assert!(!check_argument("two words"));
    assert!(!check_argument("trailing\\"));
    assert!(!check_argument(r"bad\qescape"));
    assert_eq!(unescape_argument(r"bad\qescape"), None);
    assert_eq!(unescape_argument("raw space"), None);
    let m = read_request("gbe0", 0, 4);
    assert!(m.is_wf());
    let bad = Message {
        kind: MessageKind::Request,
        name: "two words".to_string(),
        arguments: vec![],
    };
    assert!(!bad.is_wf());
}

#[test]
fn log_level_reply_must_echo_the_level() {
    let m = log_level_request(Level::Info);
    assert_eq!(m.name, "log-level");
    assert_eq!(m.arguments, vec!["info".to_string()]);
    let ok = vec![reply("log-level", &["ok", "info"])];
    assert!(check_log_level_reply(&ok, Level::Info).is_ok());
    let other_level = vec![reply("log-level", &["ok", "debug"])];
    assert!(matches!(
        check_log_level_reply(&other_level, Level::Info),
        Err(ClientError::Protocol { .. })
    ));
    let failed = vec![reply("log-level", &["fail", "info"])];
    assert!(matches!(
        check_log_level_reply(&failed, Level::Info),
        Err(ClientError::Device { code: RetCode::Fail, .. })
    ));
}
