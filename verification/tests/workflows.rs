//! The bring-up and bitstream-programming state machines, driven
//! through the scenarios they were designed for.

use snapctl::escape::escape_argument;
use snapctl::msg::{ClientError, Message, MessageKind, RetCode};
use snapctl::program::{LoadAction, LoadDecision, LoadWorkflow};
use snapctl::tengbe::{GbeAction, GbeBringup};
use snapctl::wire::base64_encode;

fn reply(name: &str, args: &[&str]) -> Message {
    Message {
        kind: MessageKind::Reply,
        name: name.to_string(),
        arguments: args.iter().map(|a| a.to_string()).collect(),
    }
}

fn inventory_exchange(files: &[&str], count: &str) -> Vec<Message> {
    let mut v: Vec<Message> = files
        .iter()
        .map(|f| Message {
            kind: MessageKind::Inform,
            name: "listbof".to_string(),
            arguments: vec![escape_argument(f)],
        })
        .collect();
    v.push(reply("listbof", &["ok", count]));
    v
}

#[test]
fn inventory_count_matches_informs() {
    let mut wf = LoadWorkflow::new("a.bof", false, 3000);
    let exchange = inventory_exchange(&["a.bof", "b.bof", "c.bof"], "3");
    assert!(wf.on_inventory(&exchange).is_ok());
}

#[test]
fn inventory_count_mismatch_is_reported() {
    let mut wf = LoadWorkflow::new("a.bof", false, 3000);
    let exchange = inventory_exchange(&["a.bof", "b.bof"], "3");
    match wf.on_inventory(&exchange) {
        Err(ClientError::Protocol { name }) => assert_eq!(name, "listbof"),
        other => panic!("a count mismatch must be a protocol error, got {:?}", other),
    }
    assert!(wf.next_action().is_none());
}

#[test]
fn resident_image_is_programmed_from_storage() {
    let mut wf = LoadWorkflow::new("fw_a.bin", false, 3000);
    match wf.next_action() {
        Some(LoadAction::SendRequest(m)) => assert_eq!(m.name, "listbof"),
        other => panic!("the workflow must query the inventory first, got {:?}", other),
    }
    let exchange = inventory_exchange(&["fw_a.bin", "fw_b.bin"], "2");
    assert_eq!(wf.on_inventory(&exchange).unwrap(), LoadDecision::UseStored);
    match wf.next_action() {
        Some(LoadAction::SendRequest(m)) => {
            assert_eq!(m.name, "progdev");
            assert_eq!(m.arguments, vec!["fw_a.bin".to_string()]);
        }
        other => panic!("a resident image must be programmed directly, got {:?}", other),
    }
    wf.on_progdev_reply(&vec![reply("progdev", &["ok"])]).unwrap();
    assert!(wf.done());
    assert!(wf.next_action().is_none());
}

#[test]
fn forced_reload_of_resident_image_uploads() {
    let mut wf = LoadWorkflow::new("fw_a.bin", true, 3000);
    let exchange = inventory_exchange(&["fw_a.bin"], "1");
    assert_eq!(wf.on_inventory(&exchange).unwrap(), LoadDecision::UploadNeeded);
}

#[test]
fn absent_image_goes_through_the_upload_port() {
    let mut wf = LoadWorkflow::new("fw_c.bin", false, 3000);
    let exchange = inventory_exchange(&["fw_a.bin", "fw_b.bin"], "2");
    assert_eq!(wf.on_inventory(&exchange).unwrap(), LoadDecision::UploadNeeded);
    match wf.next_action() {
        Some(LoadAction::SendRequest(m)) => {
            assert_eq!(m.name, "progremote");
            assert_eq!(m.arguments, vec!["3000".to_string()]);
        }
        other => panic!("the workflow must request an upload port, got {:?}", other),
    }
    wf.on_progremote_reply(&vec![reply("progremote", &["ok"])]).unwrap();
    match wf.next_action() {
        Some(LoadAction::UploadFile { port }) => assert_eq!(port, 3000),
        other => panic!("the workflow must stream the file next, got {:?}", other),
    }
    wf.on_upload_complete().unwrap();
    match wf.next_action() {
        Some(LoadAction::Settle(ms)) => assert_eq!(ms, 10000),
        other => panic!("the workflow must wait the settle interval, got {:?}", other),
    }
    wf.on_settled().unwrap();
    match wf.next_action() {
        Some(LoadAction::SendRequest(m)) => assert_eq!(m.name, "fpgastatus"),
        other => panic!("the workflow must poll the status, got {:?}", other),
    }
    wf.on_status_reply(&vec![reply("fpgastatus", &["ok"])]).unwrap();
    assert!(wf.done());
}

#[test]
fn failed_status_poll_surfaces_the_code() {
    let mut wf = LoadWorkflow::new("fw_c.bin", false, 3000);
    wf.on_inventory(&inventory_exchange(&[], "0")).unwrap();
    wf.on_progremote_reply(&vec![reply("progremote", &["ok"])]).unwrap();
    wf.on_upload_complete().unwrap();
    wf.on_settled().unwrap();
    match wf.on_status_reply(&vec![reply("fpgastatus", &["fail"])]) {
        Err(ClientError::Device { name, code }) => {
            assert_eq!(name, "fpgastatus");
            assert_eq!(code, RetCode::Fail);
        }
        other => panic!("a failed poll must surface the device's code, got {:?}", other),
    }
    assert!(!wf.done());
}

#[test]
fn bringup_walks_the_fixed_write_sequence() {
    let mut up = GbeBringup::new("gbe0");
    let mut writes: Vec<Message> = Vec::new();
    loop {
        match up.next_action() {
            Some(GbeAction::SendWrite(m)) => {
                assert_eq!(m.name, "write");
                writes.push(m);
                up.on_write_reply(&vec![reply("write", &["ok"])]).unwrap();
            }
            Some(GbeAction::Settle(ms)) => {
                assert_eq!(ms, 500);
                up.on_settled().unwrap();
            }
            Some(GbeAction::SendStatusRead(m)) => {
                assert_eq!(m.name, "read");
                assert_eq!(m.arguments, vec!["gbe0".to_string(), "52".to_string(), "4".to_string()]);
                let payload = base64_encode(&[0, 0, 0, 1]);
                let link = up
                    .on_status_reply(&vec![reply("read", &["ok", &payload])])
                    .unwrap();
                assert!(link);
            }
            None => break,
        }
    }
    assert_eq!(writes.len(), 12);
    // Transmit is disabled first and re-enabled last.
    assert_eq!(writes[0].arguments[0], "tx_en");
    assert_eq!(writes[11].arguments[0], "tx_en");
    assert!(up.done());
}

#[test]
fn bringup_stops_after_a_failed_write() {
    let mut up = GbeBringup::new("gbe0");
    assert!(matches!(up.next_action(), Some(GbeAction::SendWrite(_))));
    up.on_write_reply(&vec![reply("write", &["ok"])]).unwrap();
    match up.on_write_reply(&vec![reply("write", &["fail"])]) {
        Err(ClientError::Device { name, code }) => {
            assert_eq!(name, "write");
            assert_eq!(code, RetCode::Fail);
        }
        other => panic!("a failed write must surface the device's code, got {:?}", other),
    }
    // No further write of the sequence is attempted.
    assert!(up.next_action().is_none());
    assert!(!up.done());
}
