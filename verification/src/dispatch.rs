//! The inform dispatcher's decision logic: a fixed table maps message
//! names to handlers; a handled inform is consumed, everything else is
//! forwarded to the correlation channel.  The standard handlers' own
//! parsing (device log records, device lifecycle status) is here too;
//! what they do with the parsed values (printing) stays outside.

use vstd::prelude::*;

use crate::escape::{parsed_str_arg, unescape_argument};
use crate::msg::{Message, MessageKind, MessageView};
use crate::strutil::str_eq;

verus! {

/// Where one inbound message goes.
pub enum Route {
    /// Consumed by the handler at this index of the table.
    Handled(usize),
    /// Pushed onto the correlation channel.
    Forward,
}

/// The immutable mapping from message name to handler, consulted for
/// every inbound inform.
pub struct DispatchTable {
    names: Vec<String>,
}

/// The table handles this message: it is an inform whose name is in
/// the table.
pub open spec fn spec_handles(names: Seq<Seq<char>>, m: MessageView) -> bool {
    m.kind == MessageKind::Inform && exists|i: int|
        0 <= i < names.len() && #[trigger] names[i] == m.name
}

impl DispatchTable {
    /// The handled names, in table order.
    pub closed spec fn names(self) -> Seq<Seq<char>> {
        self.names.deep_view()
    }

    /// A table over the given names.
    pub fn new(names: Vec<String>) -> (t: DispatchTable)
        ensures
            t.names() == names.deep_view(),
    {
        DispatchTable { names }
    }

    /// Routes one inbound message: a handled inform is consumed by its
    /// handler and never forwarded; every other message (an unmatched
    /// inform, or any reply) goes to the correlation channel.
    pub fn route(&self, m: &Message) -> (r: Route)
        ensures
            r matches Route::Handled(i) ==> m@.kind == MessageKind::Inform && i < self.names().len()
                && self.names()[i as int] == m@.name,
            r is Forward ==> !spec_handles(self.names(), m@),
    {
        if !matches!(m.kind, MessageKind::Inform) {
            return Route::Forward;
        }
        let mut i: usize = 0;
        while i < self.names.len()
            invariant
                i <= self.names.len(),
                m@.kind == MessageKind::Inform,
                forall|j: int| 0 <= j < i ==> #[trigger] self.names.deep_view()[j] != m@.name,
            decreases self.names.len() - i,
        {
            if str_eq(self.names[i].as_str(), m.name.as_str()) {
                return Route::Handled(i);
            }
            i += 1;
        }
        Route::Forward
    }
}

/// The names the standard session handles itself: device log records,
/// device lifecycle status, and connection metadata.  Each is consumed,
/// never forwarded.
pub fn make_inform_dispatchers() -> (t: DispatchTable)
    ensures
        t.names() =~= seq!["log"@, "fpga"@, "version-connect"@],
{
    let mut names: Vec<String> = Vec::new();
    names.push(String::from_str("log"));
    names.push(String::from_str("fpga"));
    names.push(String::from_str("version-connect"));
    DispatchTable::new(names)
}

/// The device's log level hierarchy.
#[derive(Debug, Clone, Copy, PartialEq, Eq, Structural)]
pub enum Level {
    Off,
    Fatal,
    Error,
    Warn,
    Info,
    Debug,
    Trace,
    All,
}

/// The argument spelling of a log level.
pub open spec fn level_arg(l: Level) -> Seq<char> {
    match l {
        Level::Off => "off"@,
        Level::Fatal => "fatal"@,
        Level::Error => "error"@,
        Level::Warn => "warn"@,
        Level::Info => "info"@,
        Level::Debug => "debug"@,
        Level::Trace => "trace"@,
        Level::All => "all"@,
    }
}

/// What [`level_from_argument`] returns: the level the token spells.
pub open spec fn parsed_level(s: Seq<char>) -> Option<Level> {
    if s == level_arg(Level::Off) {
        Some(Level::Off)
    } else if s == level_arg(Level::Fatal) {
        Some(Level::Fatal)
    } else if s == level_arg(Level::Error) {
        Some(Level::Error)
    } else if s == level_arg(Level::Warn) {
        Some(Level::Warn)
    } else if s == level_arg(Level::Info) {
        Some(Level::Info)
    } else if s == level_arg(Level::Debug) {
        Some(Level::Debug)
    } else if s == level_arg(Level::Trace) {
        Some(Level::Trace)
    } else if s == level_arg(Level::All) {
        Some(Level::All)
    } else {
        None
    }
}

/// Serializes a log level into its argument token.
pub fn level_to_argument(l: Level) -> (r: String)
    ensures
        r@ == level_arg(l),
{
    match l {
        Level::Off => String::from_str("off"),
        Level::Fatal => String::from_str("fatal"),
        Level::Error => String::from_str("error"),
        Level::Warn => String::from_str("warn"),
        Level::Info => String::from_str("info"),
        Level::Debug => String::from_str("debug"),
        Level::Trace => String::from_str("trace"),
        Level::All => String::from_str("all"),
    }
}

/// Parses a log level argument; every other token is refused.
pub fn level_from_argument(s: &str) -> (r: Option<Level>)
    ensures
        r == parsed_level(s@),
{
    proof {
        reveal_strlit("off");
        reveal_strlit("fatal");
        reveal_strlit("error");
        reveal_strlit("warn");
        reveal_strlit("info");
        reveal_strlit("debug");
        reveal_strlit("trace");
        reveal_strlit("all");
    }
    if str_eq(s, "off") {
        Some(Level::Off)
    } else if str_eq(s, "fatal") {
        Some(Level::Fatal)
    } else if str_eq(s, "error") {
        Some(Level::Error)
    } else if str_eq(s, "warn") {
        Some(Level::Warn)
    } else if str_eq(s, "info") {
        Some(Level::Info)
    } else if str_eq(s, "debug") {
        Some(Level::Debug)
    } else if str_eq(s, "trace") {
        Some(Level::Trace)
    } else if str_eq(s, "all") {
        Some(Level::All)
    } else {
        None
    }
}

/// One parsed device log record: the severity, the emitting component,
/// and the text, the latter two with their escapes decoded.
#[derive(Debug, Clone, PartialEq, Eq)]
pub struct LogRecord {
    pub level: Level,
    pub name: String,
    pub message: String,
}

/// The model of a parsed log record.
pub ghost struct LogRecordView {
    pub level: Level,
    pub name: Seq<char>,
    pub message: Seq<char>,
}

impl View for LogRecord {
    type V = LogRecordView;

    open spec fn view(&self) -> LogRecordView {
        (LogRecordView { level: self.level, name: self.name@, message: self.message@ })
    }
}

/// What [`parse_log_inform`] returns: a `log` inform carries level,
/// timestamp, component name and text; the timestamp is not consumed.
pub open spec fn parsed_log_inform(m: MessageView) -> Option<LogRecordView> {
    if m.kind == MessageKind::Inform && m.name == "log"@ && m.args.len() == 4 && parsed_level(
        m.args[0],
    ) is Some && parsed_str_arg(m.args[2]) is Some && parsed_str_arg(m.args[3]) is Some {
        Some(
            (LogRecordView {
                level: parsed_level(m.args[0]).unwrap(),
                name: parsed_str_arg(m.args[2]).unwrap(),
                message: parsed_str_arg(m.args[3]).unwrap(),
            }),
        )
    } else {
        None
    }
}

/// Parses a `log` inform into a record; any other message, and any
/// `log` inform whose arguments do not parse, is refused.
pub fn parse_log_inform(m: &Message) -> (r: Option<LogRecord>)
    ensures
        match parsed_log_inform(m@) {
            Some(rec) => r matches Some(p) && p@ == rec,
            None => r is None,
        },
{
    proof {
        reveal_strlit("log");
    }
    if !matches!(m.kind, MessageKind::Inform) {
        return None;
    }
    if !str_eq(m.name.as_str(), "log") {
        return None;
    }
    if m.arguments.len() != 4 {
        return None;
    }
    let level = match level_from_argument(m.arguments[0].as_str()) {
        Some(l) => l,
        None => {
            return None;
        },
    };
    let name = match unescape_argument(m.arguments[2].as_str()) {
        Some(n) => n,
        None => {
            return None;
        },
    };
    let message = match unescape_argument(m.arguments[3].as_str()) {
        Some(t) => t,
        None => {
            return None;
        },
    };
    Some(LogRecord { level, name, message })
}

/// The device lifecycle states, delivered only by unsolicited `fpga`
/// informs.
#[derive(Debug, Clone, Copy, PartialEq, Eq, Structural)]
pub enum FpgaStatus {
    Loaded,
    Ready,
    Down,
    Mapped,
}

/// The argument spelling of a lifecycle state.
pub open spec fn fpga_status_arg(st: FpgaStatus) -> Seq<char> {
    match st {
        FpgaStatus::Loaded => "loaded"@,
        FpgaStatus::Ready => "ready"@,
        FpgaStatus::Down => "down"@,
        FpgaStatus::Mapped => "mapped"@,
    }
}

/// What [`parse_fpga_inform`] returns: the state an `fpga` inform
/// carries as its single argument.
pub open spec fn parsed_fpga_inform(m: MessageView) -> Option<FpgaStatus> {
    if m.kind == MessageKind::Inform && m.name == "fpga"@ && m.args.len() == 1 {
        if m.args[0] == fpga_status_arg(FpgaStatus::Loaded) {
            Some(FpgaStatus::Loaded)
        } else if m.args[0] == fpga_status_arg(FpgaStatus::Ready) {
            Some(FpgaStatus::Ready)
        } else if m.args[0] == fpga_status_arg(FpgaStatus::Down) {
            Some(FpgaStatus::Down)
        } else if m.args[0] == fpga_status_arg(FpgaStatus::Mapped) {
            Some(FpgaStatus::Mapped)
        } else {
            None
        }
    } else {
        None
    }
}

/// Parses an `fpga` inform into the lifecycle state it reports.
pub fn parse_fpga_inform(m: &Message) -> (r: Option<FpgaStatus>)
    ensures
        r == parsed_fpga_inform(m@),
{
    proof {
        reveal_strlit("fpga");
        reveal_strlit("loaded");
        reveal_strlit("ready");
        reveal_strlit("down");
        reveal_strlit("mapped");
    }
    if !matches!(m.kind, MessageKind::Inform) {
        return None;
    }
    if !str_eq(m.name.as_str(), "fpga") {
        return None;
    }
    if m.arguments.len() != 1 {
        return None;
    }
    let arg = m.arguments[0].as_str();
    if str_eq(arg, "loaded") {
        Some(FpgaStatus::Loaded)
    } else if str_eq(arg, "ready") {
        Some(FpgaStatus::Ready)
    } else if str_eq(arg, "down") {
        Some(FpgaStatus::Down)
    } else if str_eq(arg, "mapped") {
        Some(FpgaStatus::Mapped)
    } else {
        None
    }
}

} // verus!
