//! Session-level operations: the connectivity check and the device log
//! level setting.  Each is a request builder and a reply checker; the
//! exchange in between is the correlator's.

use vstd::prelude::*;

use crate::dispatch::{level_arg, level_to_argument, parsed_level, Level};
use crate::msg::{check_reply_ok, lemma_plain_arg_valid, reply_code_of, valid_name, wf_message,
    ClientError, Message, MessageKind, MessageView, RetCode};

verus! {

/// The connectivity-check request.
pub open spec fn watchdog_request_view() -> MessageView {
    (MessageView { kind: MessageKind::Request, name: "watchdog"@, args: Seq::empty() })
}

/// Builds the connectivity-check request.
pub fn ping_request() -> (m: Message)
    ensures
        m@ == watchdog_request_view(),
        wf_message(m@),
{
    let m = Message {
        kind: MessageKind::Request,
        name: String::from_str("watchdog"),
        arguments: Vec::new(),
    };
    proof {
        reveal_strlit("watchdog");
        assert(valid_name("watchdog"@));
        assert(m@.args =~= Seq::<Seq<char>>::empty());
    }
    m
}

/// Checks a completed connectivity exchange: the last message must be
/// a `watchdog` reply reporting success.
pub fn check_ping_reply(messages: &Vec<Message>) -> (r: Result<(), ClientError>)
    ensures
        messages@.len() == 0 ==> (r matches Err(e) && e is Protocol),
        r is Ok <==> messages@.len() > 0 && reply_code_of(messages.deep_view().last(), "watchdog"@)
            == Some(RetCode::Okay),
        messages@.len() > 0 ==> match reply_code_of(messages.deep_view().last(), "watchdog"@) {
            Some(code) => code != RetCode::Okay ==> (r matches Err(e) && (e
                matches ClientError::Device { name, code: c } && name@ == messages.deep_view().last().name
                && c == code)),
            None => r matches Err(e) && e is Protocol,
        },
{
    proof {
        reveal_strlit("watchdog");
    }
    if messages.len() == 0 {
        return Err(ClientError::Protocol { name: String::from_str("watchdog") });
    }
    let last = &messages[messages.len() - 1];
    check_reply_ok(last, "watchdog")
}

/// The request that sets the device's log level.
pub open spec fn log_level_request_view(level: Level) -> MessageView {
    (MessageView { kind: MessageKind::Request, name: "log-level"@, args: seq![level_arg(level)] })
}

/// A level token is a well-formed wire argument.
pub proof fn lemma_level_arg_valid(level: Level)
    ensures
        crate::msg::valid_argument(level_arg(level)),
{
    reveal_strlit("off");
    reveal_strlit("fatal");
    reveal_strlit("error");
    reveal_strlit("warn");
    reveal_strlit("info");
    reveal_strlit("debug");
    reveal_strlit("trace");
    reveal_strlit("all");
    lemma_plain_arg_valid(level_arg(level));
}

/// Builds the request that sets the device's log level.
pub fn log_level_request(level: Level) -> (m: Message)
    ensures
        m@ == log_level_request_view(level),
        wf_message(m@),
{
    let mut arguments: Vec<String> = Vec::new();
    arguments.push(level_to_argument(level));
    let m = Message { kind: MessageKind::Request, name: String::from_str("log-level"), arguments };
    proof {
        reveal_strlit("log-level");
        assert(valid_name("log-level"@));
        lemma_level_arg_valid(level);
        assert(m@.args =~= seq![level_arg(level)]);
    }
    m
}

/// Checks a completed log-level exchange: the last message must be a
/// `log-level` reply reporting success and echoing the level that was
/// requested.
pub fn check_log_level_reply(messages: &Vec<Message>, requested: Level) -> (r: Result<
    (),
    ClientError,
>)
    ensures
        messages@.len() == 0 ==> (r matches Err(e) && e is Protocol),
        r is Ok <==> (messages@.len() > 0 && reply_code_of(messages.deep_view().last(), "log-level"@)
            == Some(RetCode::Okay) && messages.deep_view().last().args.len() == 2 && parsed_level(
            messages.deep_view().last().args[1],
        ) == Some(requested)),
        messages@.len() > 0 ==> match reply_code_of(messages.deep_view().last(), "log-level"@) {
            Some(code) => code != RetCode::Okay ==> (r matches Err(e) && (e
                matches ClientError::Device { name, code: c } && name@ == messages.deep_view().last().name
                && c == code)),
            None => r matches Err(e) && e is Protocol,
        },
{
    proof {
        reveal_strlit("log-level");
    }
    if messages.len() == 0 {
        return Err(ClientError::Protocol { name: String::from_str("log-level") });
    }
    let last = &messages[messages.len() - 1];
    match check_reply_ok(last, "log-level") {
        Ok(()) => (),
        Err(e) => {
            return Err(e);
        },
    }
    if last.arguments.len() != 2 {
        return Err(ClientError::Protocol { name: last.name.clone() });
    }
    match crate::dispatch::level_from_argument(last.arguments[1].as_str()) {
        Some(echoed) => {
            if echoed == requested {
                Ok(())
            } else {
                Err(ClientError::Protocol { name: last.name.clone() })
            }
        },
        None => Err(ClientError::Protocol { name: last.name.clone() }),
    }
}

} // verus!
